//! The latest versions of crates on crates.io.

use vstd::prelude::*;

use crate::requests::{encode_url, url_encoded};
use crate::text::{
    join_four, join_six, join_three, join_two, option_view, same, trim_last, without_last,
};
use crate::transport::{
    is_overload, is_success, overload, read_retry_after, retry_after_delay, success, HttpResponse,
    Outcome, RetryPolicy,
};
use crate::version::{parsed_version, Version};

verus! {

/// A client of crates.io.
#[derive(Debug, Clone, PartialEq, Eq)]
pub struct CratesIoClient {
    pub base_url: String,
    pub timeout: u64,
    pub retry: RetryPolicy,
}

/// How a client is set up; the times are in milliseconds.
#[derive(Debug, Clone, PartialEq, Eq)]
pub struct CratesIoClientOptions {
    pub base_url: String,
    pub timeout: u64,
    pub max_retries: u32,
    pub retry_delay: u64,
    pub max_retry_delay: u64,
}

impl Default for CratesIoClientOptions {
    fn default() -> (result: Self)
        ensures
            result.base_url@ == "https://crates.io/api/v1"@,
            result.timeout == 30_000,
            result.max_retries == 3,
            result.retry_delay == 1_000,
            result.max_retry_delay == 30_000,
    {
        CratesIoClientOptions {
            base_url: "https://crates.io/api/v1".to_owned(),
            timeout: 30_000,
            max_retries: 3,
            retry_delay: 1_000,
            max_retry_delay: 30_000,
        }
    }
}

/// What crates.io says of the versions of a crate.
#[derive(Debug, Clone, PartialEq, Eq)]
pub struct CrateMetadata {
    /// `max_version`
    pub latest: Option<String>,
    /// `max_stable_version`
    pub latest_stable: Option<String>,
    /// `newest_version`
    pub newest: Option<String>,
}

/// What is to be done about a request: send it (again) after a delay in
/// milliseconds, or take what an outcome delivered.
#[derive(Debug, Clone, PartialEq, Eq)]
pub enum CratesStep {
    Send { delay: u128 },
    Deliver(usize),
    Fail(String),
}

/// What a `CratesStep` stands for.
pub enum CratesStepView {
    Send { delay: nat },
    Deliver(int),
    Fail(Seq<char>),
}

impl View for CratesStep {
    type V = CratesStepView;

    open spec fn view(&self) -> CratesStepView {
        match self {
            CratesStep::Send { delay } => CratesStepView::Send { delay: *delay as nat },
            CratesStep::Deliver(at) => CratesStepView::Deliver(*at as int),
            CratesStep::Fail(message) => CratesStepView::Fail(message@),
        }
    }
}

/// What a request for a crate does, for messages.
pub open spec fn crate_context(name: Seq<char>) -> Seq<char> {
    "fetch crates.io metadata for "@ + name
}

/// One more attempt follows the outcome.
pub open spec fn is_repeated(policy: RetryPolicy, outcome: Outcome, attempt: int) -> bool {
    attempt < policy.max_retries && match outcome {
        Outcome::Response(response) => is_overload(response.status),
        Outcome::Broken { transient, .. } => transient,
    }
}

/// The delay behind an outcome.
pub open spec fn repeat_delay(policy: RetryPolicy, outcome: Outcome, attempt: nat) -> nat {
    match outcome {
        Outcome::Response(response) => policy.delay(retry_after_delay(response), attempt),
        Outcome::Broken { .. } => policy.backoff(attempt),
    }
}

/// The body of a response.
pub open spec fn crate_body(response: HttpResponse) -> Seq<char> {
    match response.body {
        Some(body) => body@,
        None => "<response body unavailable>"@,
    }
}

/// What an outcome comes to that is not repeated.
pub open spec fn crate_result(outcome: Outcome, at: int, context: Seq<char>) -> CratesStepView {
    match outcome {
        Outcome::Response(response) => if is_success(response.status) {
            CratesStepView::Deliver(at)
        } else if response.status == 404 {
            CratesStepView::Fail(
                context + ": crate not found ("@ + crate_body(response) + ")"@,
            )
        } else {
            CratesStepView::Fail(
                context + ": crates.io API returned "@ + response.status_text@ + " ("@ + crate_body(
                    response,
                ) + ")"@,
            )
        },
        Outcome::Broken { message, .. } => CratesStepView::Fail(context + ": "@ + message@),
    }
}

/// What is to be done when the outcomes before `i` were all followed by another
/// attempt.
pub open spec fn crate_step_from(
    policy: RetryPolicy,
    context: Seq<char>,
    outcomes: Seq<Outcome>,
    i: int,
) -> CratesStepView
    decreases outcomes.len() - i,
{
    if i >= outcomes.len() {
        CratesStepView::Send {
            delay: if i <= 0 {
                0
            } else {
                repeat_delay(policy, outcomes[i - 1], (i - 1) as nat)
            },
        }
    } else if is_repeated(policy, outcomes[i], i) {
        crate_step_from(policy, context, outcomes, i + 1)
    } else {
        crate_result(outcomes[i], i, context)
    }
}

/// The text is a version without a pre-release.
pub open spec fn is_stable(text: Seq<char>) -> bool {
    parsed_version(text) matches Some(version) && version.pre.len() == 0
}

/// The candidate, if it is stable.
pub open spec fn stable(candidate: Option<String>) -> Option<Seq<char>> {
    match candidate {
        Some(text) => if is_stable(text@) {
            Some(text@)
        } else {
            None
        },
        None => None,
    }
}

/// The first stable version: the greatest stable one, the greatest, the newest.
pub open spec fn stable_version(metadata: CrateMetadata) -> Option<Seq<char>> {
    if stable(metadata.latest_stable) is Some {
        stable(metadata.latest_stable)
    } else if stable(metadata.latest) is Some {
        stable(metadata.latest)
    } else {
        stable(metadata.newest)
    }
}

fn is_stable_version(candidate: &str) -> (result: bool)
    ensures
        result == is_stable(candidate@),
{
    match Version::parse(candidate) {
        Some(version) => {
            proof {
                reveal_strlit("");
                if version.pre@.len() == 0 {
                    assert(version.pre@ == ""@);
                }
            }
            same(&version.pre, "")
        },
        None => false,
    }
}

fn stable_candidate(candidate: &Option<String>) -> (result: Option<String>)
    ensures
        option_view(result) == stable(*candidate),
{
    match candidate {
        Some(text) => if is_stable_version(text) {
            Some(text.clone())
        } else {
            None
        },
        None => None,
    }
}

/// The first stable version: the greatest stable one, the greatest, the newest.
pub fn select_stable_version(metadata: &CrateMetadata) -> (result: Option<String>)
    ensures
        option_view(result) == stable_version(*metadata),
{
    match stable_candidate(&metadata.latest_stable) {
        Some(version) => Some(version),
        None => match stable_candidate(&metadata.latest) {
            Some(version) => Some(version),
            None => stable_candidate(&metadata.newest),
        },
    }
}

fn read_crate_body(response: &HttpResponse) -> (result: String)
    ensures
        result@ == crate_body(*response),
{
    match &response.body {
        Some(body) => body.clone(),
        None => "<response body unavailable>".to_owned(),
    }
}

impl CratesIoClient {
    /// A client with the given base URL and the usual settings.
    pub fn new(base_url: &str) -> (result: Self)
        ensures
            result.base_url@ == trim_last(base_url@, '/'),
            result.timeout == 30_000,
            result.retry == (RetryPolicy {
                max_retries: 3,
                retry_delay: 1_000,
                max_retry_delay: 30_000,
            }),
    {
        let usual: CratesIoClientOptions = Default::default();
        Self::with_options(
            &CratesIoClientOptions {
                base_url: base_url.to_owned(),
                timeout: usual.timeout,
                max_retries: usual.max_retries,
                retry_delay: usual.retry_delay,
                max_retry_delay: usual.max_retry_delay,
            },
        )
    }

    /// A client as the options say, without slashes at the end of its base URL.
    pub fn with_options(options: &CratesIoClientOptions) -> (result: Self)
        ensures
            result.base_url@ == trim_last(options.base_url@, '/'),
            result.timeout == options.timeout,
            result.retry == (RetryPolicy {
                max_retries: options.max_retries,
                retry_delay: options.retry_delay,
                max_retry_delay: options.max_retry_delay,
            }),
    {
        CratesIoClient {
            base_url: without_last(&options.base_url, '/'),
            timeout: options.timeout,
            retry: RetryPolicy {
                max_retries: options.max_retries,
                retry_delay: options.retry_delay,
                max_retry_delay: options.max_retry_delay,
            },
        }
    }

    /// The URL of what crates.io says of a crate.
    pub fn url(&self, crate_name: &str) -> (result: String)
        ensures
            result@ == self.base_url@ + "/crates/"@ + url_encoded(crate_name@),
    {
        join_three(&self.base_url, "/crates/", &encode_url(crate_name))
    }

    /// What is said where the answer for a crate cannot be read.
    pub fn decoding(&self, crate_name: &str) -> (result: String)
        ensures
            result@ == "failed to decode crates.io metadata for "@ + crate_name@,
    {
        join_two("failed to decode crates.io metadata for ", crate_name)
    }

    /// What is to be done about the request for a crate after the outcomes so far. An
    /// attempt is repeated while crates.io is overloaded or nothing is answered, up
    /// to the number of retries.
    pub fn next_step(&self, crate_name: &str, outcomes: &Vec<Outcome>) -> (result: CratesStep)
        ensures
            result@ == crate_step_from(self.retry, crate_context(crate_name@), outcomes@, 0),
            result matches CratesStep::Deliver(at) ==> at < outcomes.len()
                && outcomes@[at as int] is Response,
    {
        let context = join_two("fetch crates.io metadata for ", crate_name);
        let mut delay: u128 = 0;
        let mut attempt: u32 = 0;
        let mut i: usize = 0;
        while i < outcomes.len()
            invariant
                i <= outcomes.len(),
                attempt == i,
                attempt <= self.retry.max_retries,
                context@ == crate_context(crate_name@),
                crate_step_from(self.retry, context@, outcomes@, 0) == crate_step_from(
                    self.retry,
                    context@,
                    outcomes@,
                    i as int,
                ),
                delay == (if i <= 0 {
                    0
                } else {
                    repeat_delay(self.retry, outcomes@[i - 1], (i - 1) as nat)
                }),
            decreases outcomes.len() - i,
        {
            let (again, wanted) = match &outcomes[i] {
                Outcome::Response(response) => (
                    overload(response.status),
                    self.retry.choose_delay(read_retry_after(response), attempt),
                ),
                Outcome::Broken { transient, .. } => (
                    *transient,
                    self.retry.calculate_backoff(attempt) as u128,
                ),
            };
            if !(again && attempt < self.retry.max_retries) {
                return match &outcomes[i] {
                    Outcome::Response(response) => if success(response.status) {
                        CratesStep::Deliver(i)
                    } else if response.status == 404 {
                        CratesStep::Fail(
                            join_four(
                                &context,
                                ": crate not found (",
                                &read_crate_body(response),
                                ")",
                            ),
                        )
                    } else {
                        CratesStep::Fail(
                            join_six(
                                &context,
                                ": crates.io API returned ",
                                &response.status_text,
                                " (",
                                &read_crate_body(response),
                                ")",
                            ),
                        )
                    },
                    Outcome::Broken { message, .. } => CratesStep::Fail(
                        join_three(&context, ": ", message),
                    ),
                };
            }
            delay = wanted;
            attempt = attempt + 1;
            i = i + 1;
        }
        CratesStep::Send { delay }
    }

    /// The latest stable version of a crate, from what crates.io says of it.
    pub fn latest_stable_version(&self, crate_name: &str, metadata: &CrateMetadata) -> (result:
        Result<String, String>)
        ensures
            match result {
                Ok(version) => stable_version(*metadata) == Some(version@),
                Err(message) => stable_version(*metadata) is None && message@
                    == "no stable crates.io release found for "@ + crate_name@,
            },
    {
        match select_stable_version(metadata) {
            Some(version) => Ok(version),
            None => Err(join_two("no stable crates.io release found for ", crate_name)),
        }
    }
}

// ---------------------------------------------------------------------------
// Laws
// ---------------------------------------------------------------------------
proof fn lemma_crate_steps(
    policy: RetryPolicy,
    context: Seq<char>,
    outcomes: Seq<Outcome>,
    i: int,
)
    requires
        0 <= i <= outcomes.len(),
        i <= policy.max_retries + 1,
        outcomes.len() > policy.max_retries,
        i > 0 ==> is_repeated(policy, outcomes[i - 1], i - 1),
    ensures
        !(crate_step_from(policy, context, outcomes, i) is Send),
    decreases outcomes.len() - i,
{
    if i < outcomes.len() {
        if is_repeated(policy, outcomes[i], i) {
            lemma_crate_steps(policy, context, outcomes, i + 1);
        }
    }
}

/// A request is sent at most once more than the number of retries.
pub proof fn law_crate_request_ends(
    policy: RetryPolicy,
    context: Seq<char>,
    outcomes: Seq<Outcome>,
)
    requires
        outcomes.len() > policy.max_retries,
    ensures
        !(crate_step_from(policy, context, outcomes, 0) is Send),
{
    lemma_crate_steps(policy, context, outcomes, 0);
}

/// Only stable versions are ever chosen.
pub proof fn law_chosen_versions_are_stable(metadata: CrateMetadata)
    ensures
        stable_version(metadata) matches Some(version) ==> is_stable(version),
{
}

} // verus!
