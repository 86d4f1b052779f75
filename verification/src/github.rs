//! The GitHub API: the requests that are sent, how their outcomes are judged, and
//! what is made of the documents that come back.

use vstd::prelude::*;

use crate::api::{ApiRequest, Handling, RequestView};
use crate::text::{
    contains_text, holds, join_five, join_four, join_six, join_three, join_two, lowercase, lowered,
    option_view, same, trim, trim_last, trimmed, views, without_last,
};
use crate::transport::{
    header_number, is_overload, is_success, overload, rate_limit_delay, read_rate_limit,
    read_retry_after, retry_after_delay, success, HttpResponse, Outcome, RetryPolicy,
};

verus! {

/// The version that a repository is at, and its commit.
#[derive(Debug, Clone, PartialEq, Eq)]
pub struct LatestReference {
    pub version: String,
    pub sha: String,
}

/// What a `LatestReference` stands for.
pub struct LatestView {
    pub version: Seq<char>,
    pub sha: Seq<char>,
}

impl View for LatestReference {
    type V = LatestView;

    open spec fn view(&self) -> LatestView {
        LatestView { version: self.version@, sha: self.sha@ }
    }
}

impl DeepView for LatestReference {
    type V = LatestView;

    open spec fn deep_view(&self) -> LatestView {
        self@
    }
}

/// How a client is set up; the times are in milliseconds.
#[derive(Debug, Clone, PartialEq, Eq)]
pub struct GitHubClientOptions {
    pub base_url: String,
    pub token: Option<String>,
    pub timeout: u64,
    pub max_retries: u32,
    pub retry_delay: u64,
    pub max_retry_delay: u64,
}

impl Default for GitHubClientOptions {
    fn default() -> (result: Self)
        ensures
            result.base_url@ == "https://api.github.com"@,
            result.token is None,
            result.timeout == 30_000,
            result.max_retries == 3,
            result.retry_delay == 1_000,
            result.max_retry_delay == 60_000,
    {
        GitHubClientOptions {
            base_url: "https://api.github.com".to_owned(),
            token: None,
            timeout: 30_000,
            max_retries: 3,
            retry_delay: 1_000,
            max_retry_delay: 60_000,
        }
    }
}

/// A file of a commit and the blob that it holds.
#[derive(Debug, Clone, PartialEq, Eq)]
pub struct TreeEntry {
    pub path: String,
    pub sha: String,
}

/// What a `TreeEntry` stands for.
pub struct TreeEntryView {
    pub path: Seq<char>,
    pub sha: Seq<char>,
}

impl View for TreeEntry {
    type V = TreeEntryView;

    open spec fn view(&self) -> TreeEntryView {
        TreeEntryView { path: self.path@, sha: self.sha@ }
    }
}

/// A commit of a repository.
#[derive(Debug, Clone, PartialEq, Eq)]
pub struct CommitInfo {
    pub sha: String,
    pub message: String,
    pub is_merge: bool,
}

/// What a `CommitInfo` stands for.
pub struct CommitView {
    pub sha: Seq<char>,
    pub message: Seq<char>,
    pub is_merge: bool,
}

impl View for CommitInfo {
    type V = CommitView;

    open spec fn view(&self) -> CommitView {
        CommitView { sha: self.sha@, message: self.message@, is_merge: self.is_merge }
    }
}

/// Commits one behind the other; `truncated` where there are more of them.
#[derive(Debug, Clone, PartialEq, Eq)]
pub struct CommitRange {
    pub commits: Vec<CommitInfo>,
    pub truncated: bool,
}

/// What a `CommitRange` stands for.
pub struct RangeView {
    pub commits: Seq<CommitView>,
    pub truncated: bool,
}

impl View for CommitRange {
    type V = RangeView;

    open spec fn view(&self) -> RangeView {
        RangeView { commits: views(self.commits@), truncated: self.truncated }
    }
}

impl DeepView for CommitRange {
    type V = RangeView;

    open spec fn deep_view(&self) -> RangeView {
        self@
    }
}

/// A release that was published.
#[derive(Debug, Clone, PartialEq, Eq)]
pub struct ReleaseInfo {
    pub url: String,
}

impl DeepView for ReleaseInfo {
    type V = Seq<char>;

    open spec fn deep_view(&self) -> Seq<char> {
        self.url@
    }
}

/// A client of the API.
#[derive(Debug, Clone, PartialEq, Eq)]
pub struct GitHubClient {
    pub base_url: String,
    pub token: Option<String>,
    pub timeout: u64,
    pub retry: RetryPolicy,
}

/// The token without the white space around it, where anything is left.
pub open spec fn normalized_token(token: Option<Seq<char>>) -> Option<Seq<char>> {
    match token {
        Some(text) => if trim(text).len() == 0 {
            None
        } else {
            Some(trim(text))
        },
        None => None,
    }
}

// ---------------------------------------------------------------------------
// Judging the outcomes of a request
// ---------------------------------------------------------------------------
/// What is to be done about a request: send it (again) after a delay in
/// milliseconds, or take what an outcome delivered.
#[derive(Debug, Clone, PartialEq, Eq)]
pub enum Step {
    /// Send the request, without the token where it is `anonymous`.
    Send { anonymous: bool, delay: u128 },
    /// The answer is that of the outcome at this place.
    Deliver(usize),
    /// The resource is not there.
    Missing,
    /// The reference was not moved, for that would not have been a fast forward.
    Refused,
    /// The request failed.
    Fail(String),
}

/// What a `Step` stands for.
pub enum StepView {
    Send { anonymous: bool, delay: nat },
    Deliver(int),
    Missing,
    Refused,
    Fail(Seq<char>),
}

impl View for Step {
    type V = StepView;

    open spec fn view(&self) -> StepView {
        match self {
            Step::Send { anonymous, delay } => StepView::Send {
                anonymous: *anonymous,
                delay: *delay as nat,
            },
            Step::Deliver(at) => StepView::Deliver(*at as int),
            Step::Missing => StepView::Missing,
            Step::Refused => StepView::Refused,
            Step::Fail(message) => StepView::Fail(message@),
        }
    }
}

/// GitHub is overloaded, or a rate limit is reached.
pub open spec fn is_retryable(response: HttpResponse) -> bool {
    ||| is_overload(response.status)
    ||| response.status == 403 && (option_view(response.rate_limit_remaining) == Some("0"@)
        || response.has_retry_after)
}

/// The delay that a response asks for, in milliseconds.
pub open spec fn wanted_delay(response: HttpResponse) -> Option<nat> {
    match retry_after_delay(response) {
        Some(delay) => Some(delay),
        None => rate_limit_delay(response),
    }
}

/// Where a series of attempts stands: one more is due after a delay, or it stopped
/// at an outcome.
pub enum SeriesView {
    Due(nat),
    Stopped(int),
}

/// One more attempt follows the outcome.
pub open spec fn is_tried_again(policy: RetryPolicy, outcome: Outcome, attempt: int) -> bool {
    attempt < policy.max_retries && match outcome {
        Outcome::Response(response) => is_retryable(response),
        Outcome::Broken { transient, .. } => transient,
    }
}

/// The delay behind an outcome.
pub open spec fn delay_behind(policy: RetryPolicy, outcome: Outcome, attempt: nat) -> nat {
    match outcome {
        Outcome::Response(response) => policy.delay(wanted_delay(response), attempt),
        Outcome::Broken { .. } => policy.backoff(attempt),
    }
}

/// Where the series of attempts stands whose outcomes begin at `from`, when those
/// before `i` were all followed by another.
pub open spec fn series_from(policy: RetryPolicy, outcomes: Seq<Outcome>, from: int, i: int) ->
    SeriesView
    decreases outcomes.len() - i,
{
    if i >= outcomes.len() {
        SeriesView::Due(
            if i <= from {
                0
            } else {
                delay_behind(policy, outcomes[i - 1], (i - 1 - from) as nat)
            },
        )
    } else if is_tried_again(policy, outcomes[i], i - from) {
        series_from(policy, outcomes, from, i + 1)
    } else {
        SeriesView::Stopped(i)
    }
}

/// Where the series of attempts stands whose outcomes begin at `from`.
pub open spec fn series(policy: RetryPolicy, outcomes: Seq<Outcome>, from: int) -> SeriesView {
    series_from(policy, outcomes, from, from)
}

/// The body of a response.
pub open spec fn body_text(response: HttpResponse) -> Seq<char> {
    match response.body {
        Some(body) => body@,
        None => "<response body unavailable>"@,
    }
}

/// The body speaks of a rate limit.
pub open spec fn names_rate_limit(response: HttpResponse) -> bool {
    contains_text(lowercase(body_text(response)), "rate limit"@)
}

/// What is said of a response that is no success.
pub open spec fn failure_text(response: HttpResponse, context: Seq<char>, has_token: bool) -> Seq<
    char,
> {
    if response.status == 403 && names_rate_limit(response) && !has_token {
        context
            + ": GitHub API rate limit exceeded. Provide --token or GITHUB_TOKEN for higher limits."@
    } else if response.status == 404 {
        context + ": resource not found ("@ + body_text(response) + ")"@
    } else {
        context + ": GitHub API returned "@ + response.status_text@ + " ("@ + body_text(response)
            + ")"@
    }
}

/// What is said of a refusal that was tried again without the token.
pub open spec fn refusal_text(response: HttpResponse, context: Seq<char>, also: Seq<char>) -> Seq<
    char,
> {
    context + ": GitHub API returned 403 Forbidden ("@ + body_text(response)
        + "); the anonymous retry without the token also "@ + also
}

/// A response to a request that reads.
pub open spec fn read_step(
    response: HttpResponse,
    at: int,
    request: RequestView,
    has_token: bool,
) -> StepView {
    if request.handling == Handling::ReadOrMissing && response.status == 404 {
        StepView::Missing
    } else if is_success(response.status) {
        StepView::Deliver(at)
    } else {
        StepView::Fail(failure_text(response, request.context, has_token))
    }
}

/// A refusal that came in spite of the token, and for no rate limit.
pub open spec fn is_refusal(response: HttpResponse, has_token: bool) -> bool {
    has_token && response.status == 403 && !is_retryable(response)
}

/// What is to be done after the attempts without the token that follow a refusal.
pub open spec fn anonymous_step(
    policy: RetryPolicy,
    outcomes: Seq<Outcome>,
    refused_at: int,
    refusal: HttpResponse,
    request: RequestView,
) -> StepView {
    match series(policy, outcomes, refused_at + 1) {
        SeriesView::Due(delay) => StepView::Send { anonymous: true, delay },
        SeriesView::Stopped(at) => match outcomes[at] {
            Outcome::Response(response) => if is_success(response.status) {
                StepView::Deliver(at)
            } else {
                StepView::Fail(
                    refusal_text(
                        refusal,
                        request.context,
                        "returned "@ + response.status_text@,
                    ),
                )
            },
            Outcome::Broken { .. } => StepView::Fail(
                refusal_text(refusal, request.context, "failed: "@ + request.context),
            ),
        },
    }
}

/// What is to be done when the attempts with the token ended with a response.
pub open spec fn settled_step(
    policy: RetryPolicy,
    outcomes: Seq<Outcome>,
    at: int,
    response: HttpResponse,
    request: RequestView,
    has_token: bool,
) -> StepView {
    match request.handling {
        Handling::Send => if is_success(response.status) {
            StepView::Deliver(at)
        } else {
            StepView::Fail(failure_text(response, request.context, has_token))
        },
        Handling::FastForward => if response.status == 422 {
            if contains_text(lowercase(body_text(response)), "fast forward"@) {
                StepView::Refused
            } else {
                StepView::Fail(
                    request.context + ": GitHub API returned 422 Unprocessable Entity ("@
                        + body_text(response) + ")"@,
                )
            }
        } else if is_success(response.status) {
            StepView::Deliver(at)
        } else {
            StepView::Fail(failure_text(response, request.context, has_token))
        },
        Handling::Read | Handling::ReadOrMissing => if !is_refusal(response, has_token) {
            read_step(response, at, request, has_token)
        } else if names_rate_limit(response) {
            StepView::Fail(
                request.context + ": GitHub API returned 403 Forbidden ("@ + body_text(response)
                    + ")"@,
            )
        } else {
            anonymous_step(policy, outcomes, at, response, request)
        },
    }
}

/// What is to be done about a request after the outcomes so far.
pub open spec fn step_after(
    policy: RetryPolicy,
    has_token: bool,
    request: RequestView,
    outcomes: Seq<Outcome>,
) -> StepView {
    match series(policy, outcomes, 0) {
        SeriesView::Due(delay) => StepView::Send { anonymous: false, delay },
        SeriesView::Stopped(at) => match outcomes[at] {
            Outcome::Broken { message, .. } => StepView::Fail(
                request.context + ": "@ + message@,
            ),
            Outcome::Response(response) => settled_step(
                policy,
                outcomes,
                at,
                response,
                request,
                has_token,
            ),
        },
    }
}

fn should_retry_response(response: &HttpResponse) -> (result: bool)
    ensures
        result == is_retryable(*response),
{
    let spent = match &response.rate_limit_remaining {
        Some(remaining) => same(remaining, "0"),
        None => false,
    };
    overload(response.status) || (response.status == 403 && (spent || response.has_retry_after))
}

fn retry_delay_from_headers(response: &HttpResponse) -> (result: Option<u128>)
    ensures
        match result {
            Some(delay) => wanted_delay(*response) == Some(delay as nat),
            None => wanted_delay(*response) is None,
        },
{
    match read_retry_after(response) {
        Some(delay) => Some(delay),
        None => read_rate_limit(response),
    }
}

fn read_body(response: &HttpResponse) -> (result: String)
    ensures
        result@ == body_text(*response),
{
    match &response.body {
        Some(body) => body.clone(),
        None => "<response body unavailable>".to_owned(),
    }
}

/// Where a series of attempts stands: `Ok` with a delay when one more is due, `Err`
/// with the place of the outcome at which it stopped.
fn run_series(policy: &RetryPolicy, outcomes: &Vec<Outcome>, from: usize) -> (result: Result<
    u128,
    usize,
>)
    requires
        from <= outcomes.len(),
    ensures
        match result {
            Ok(delay) => series(*policy, outcomes@, from as int) == SeriesView::Due(delay as nat),
            Err(at) => from <= at < outcomes.len() && series(*policy, outcomes@, from as int)
                == SeriesView::Stopped(at as int),
        },
{
    let mut i: usize = from;
    let mut attempt: u32 = 0;
    let mut delay: u128 = 0;
    while i < outcomes.len()
        invariant
            from <= i <= outcomes.len(),
            attempt == i - from,
            attempt <= policy.max_retries,
            series(*policy, outcomes@, from as int) == series_from(
                *policy,
                outcomes@,
                from as int,
                i as int,
            ),
            delay == (if i <= from {
                0
            } else {
                delay_behind(*policy, outcomes@[i - 1], (i - 1 - from) as nat)
            }),
        decreases outcomes.len() - i,
    {
        let (again, wanted) = match &outcomes[i] {
            Outcome::Response(response) => (
                should_retry_response(response),
                policy.choose_delay(retry_delay_from_headers(response), attempt),
            ),
            Outcome::Broken { transient, .. } => (
                *transient,
                policy.calculate_backoff(attempt) as u128,
            ),
        };
        if !(again && attempt < policy.max_retries) {
            return Err(i);
        }
        delay = wanted;
        attempt = attempt + 1;
        i = i + 1;
    }
    Ok(delay)
}

fn error_text(response: &HttpResponse, context: &str, has_token: bool) -> (result: String)
    ensures
        result@ == failure_text(*response, context@, has_token),
{
    let body = read_body(response);
    if response.status == 403 && holds(&lowered(&body), "rate limit") && !has_token {
        join_two(
            context,
            ": GitHub API rate limit exceeded. Provide --token or GITHUB_TOKEN for higher limits.",
        )
    } else if response.status == 404 {
        join_four(context, ": resource not found (", &body, ")")
    } else {
        join_six(context, ": GitHub API returned ", &response.status_text, " (", &body, ")")
    }
}

fn refusal_error(response: &HttpResponse, context: &str, also: &str) -> (result: String)
    ensures
        result@ == refusal_text(*response, context@, also@),
{
    join_five(
        context,
        ": GitHub API returned 403 Forbidden (",
        &read_body(response),
        "); the anonymous retry without the token also ",
        also,
    )
}

impl GitHubClient {
    /// A client with the given base URL and token and the usual settings.
    pub fn new(base_url: &str, token: Option<String>) -> (result: Self)
        ensures
            result.base_url@ == trim_last(base_url@, '/'),
            option_view(result.token) == normalized_token(option_view(token)),
            result.timeout == 30_000,
            result.retry == (RetryPolicy {
                max_retries: 3,
                retry_delay: 1_000,
                max_retry_delay: 60_000,
            }),
    {
        let usual: GitHubClientOptions = Default::default();
        Self::with_options(
            GitHubClientOptions {
                base_url: base_url.to_owned(),
                token,
                timeout: usual.timeout,
                max_retries: usual.max_retries,
                retry_delay: usual.retry_delay,
                max_retry_delay: usual.max_retry_delay,
            },
        )
    }

    /// A client as the options say, without slashes at the end of its base URL. A
    /// token that is blank is none.
    pub fn with_options(options: GitHubClientOptions) -> (result: Self)
        ensures
            result.base_url@ == trim_last(options.base_url@, '/'),
            option_view(result.token) == normalized_token(option_view(options.token)),
            result.timeout == options.timeout,
            result.retry == (RetryPolicy {
                max_retries: options.max_retries,
                retry_delay: options.retry_delay,
                max_retry_delay: options.max_retry_delay,
            }),
    {
        GitHubClient {
            base_url: without_last(&options.base_url, '/'),
            token: normalize_token(&options.token),
            timeout: options.timeout,
            retry: RetryPolicy {
                max_retries: options.max_retries,
                retry_delay: options.retry_delay,
                max_retry_delay: options.max_retry_delay,
            },
        }
    }

    /// The URL that a request goes to.
    pub fn url(&self, request: &ApiRequest) -> (result: String)
        ensures
            result@ == self.base_url@ + request.path@,
    {
        join_two(&self.base_url, &request.path)
    }

    /// The value of the `Authorization` header, where the request carries one.
    pub fn authorization(&self, anonymous: bool) -> (result: Option<String>)
        ensures
            match result {
                Some(value) => !anonymous && self.token is Some && value@ == "Bearer "@
                    + self.token->0@,
                None => anonymous || self.token is None,
            },
    {
        match &self.token {
            Some(token) => if anonymous {
                None
            } else {
                Some(join_two("Bearer ", token))
            },
            None => None,
        }
    }

    /// What is to be done about a request after the outcomes so far. An attempt is
    /// repeated while GitHub is overloaded, a rate limit is reached or nothing is
    /// answered, up to the number of retries. Public metadata that is refused in
    /// spite of the token is asked for once more without it; a bad token is not
    /// hidden by that.
    pub fn next_step(&self, request: &ApiRequest, outcomes: &Vec<Outcome>) -> (result: Step)
        ensures
            result@ == step_after(self.retry, self.token is Some, request@, outcomes@),
            result matches Step::Deliver(at) ==> at < outcomes.len() && outcomes@[at as int] is
                Response,
    {
        match run_series(&self.retry, outcomes, 0) {
            Ok(delay) => Step::Send { anonymous: false, delay },
            Err(at) => match &outcomes[at] {
                Outcome::Broken { message, .. } => Step::Fail(
                    join_three(&request.context, ": ", message),
                ),
                Outcome::Response(response) => self.settle(request, outcomes, at, response),
            },
        }
    }

    fn settle(
        &self,
        request: &ApiRequest,
        outcomes: &Vec<Outcome>,
        at: usize,
        response: &HttpResponse,
    ) -> (result: Step)
        requires
            at < outcomes.len(),
            outcomes@[at as int] == Outcome::Response(*response),
        ensures
            result@ == settled_step(
                self.retry,
                outcomes@,
                at as int,
                *response,
                request@,
                self.token is Some,
            ),
            result matches Step::Deliver(at) ==> at < outcomes.len() && outcomes@[at as int] is
                Response,
    {
        let has_token = self.token.is_some();
        match request.handling {
            Handling::Send => if success(response.status) {
                Step::Deliver(at)
            } else {
                Step::Fail(error_text(response, &request.context, has_token))
            },
            Handling::FastForward => if response.status == 422 {
                let body = read_body(response);
                if holds(&lowered(&body), "fast forward") {
                    Step::Refused
                } else {
                    Step::Fail(
                        join_four(
                            &request.context,
                            ": GitHub API returned 422 Unprocessable Entity (",
                            &body,
                            ")",
                        ),
                    )
                }
            } else if success(response.status) {
                Step::Deliver(at)
            } else {
                Step::Fail(error_text(response, &request.context, has_token))
            },
            Handling::Read | Handling::ReadOrMissing => {
                if !has_token || response.status != 403 || should_retry_response(response) {
                    if request.handling == Handling::ReadOrMissing && response.status == 404 {
                        Step::Missing
                    } else if success(response.status) {
                        Step::Deliver(at)
                    } else {
                        Step::Fail(error_text(response, &request.context, has_token))
                    }
                } else if holds(&lowered(&read_body(response)), "rate limit") {
                    Step::Fail(
                        join_four(
                            &request.context,
                            ": GitHub API returned 403 Forbidden (",
                            &read_body(response),
                            ")",
                        ),
                    )
                } else {
                    self.settle_refusal(request, outcomes, at, response)
                }
            },
        }
    }

    fn settle_refusal(
        &self,
        request: &ApiRequest,
        outcomes: &Vec<Outcome>,
        refused_at: usize,
        refusal: &HttpResponse,
    ) -> (result: Step)
        requires
            refused_at < outcomes.len(),
        ensures
            result@ == anonymous_step(
                self.retry,
                outcomes@,
                refused_at as int,
                *refusal,
                request@,
            ),
            result matches Step::Deliver(at) ==> at < outcomes.len() && outcomes@[at as int] is
                Response,
    {
        match run_series(&self.retry, outcomes, refused_at + 1) {
            Ok(delay) => Step::Send { anonymous: true, delay },
            Err(at) => match &outcomes[at] {
                Outcome::Response(response) => if success(response.status) {
                    Step::Deliver(at)
                } else {
                    Step::Fail(
                        refusal_error(
                            refusal,
                            &request.context,
                            &join_two("returned ", &response.status_text),
                        ),
                    )
                },
                Outcome::Broken { .. } => Step::Fail(
                    refusal_error(
                        refusal,
                        &request.context,
                        &join_two("failed: ", &request.context),
                    ),
                ),
            },
        }
    }
}

fn normalize_token(token: &Option<String>) -> (result: Option<String>)
    ensures
        option_view(result) == normalized_token(option_view(*token)),
{
    match token {
        Some(text) => {
            let value = trimmed(text);
            proof {
                reveal_strlit("");
                if value@.len() == 0 {
                    assert(value@ == ""@);
                }
            }
            if same(&value, "") {
                None
            } else {
                Some(value)
            }
        },
        None => None,
    }
}

// ---------------------------------------------------------------------------
// Laws of the attempts
// ---------------------------------------------------------------------------
proof fn lemma_series(policy: RetryPolicy, outcomes: Seq<Outcome>, from: int, i: int)
    requires
        0 <= from <= i <= outcomes.len(),
        forall|j: int|
            from <= j < i ==> is_tried_again(policy, #[trigger] outcomes[j], j - from),
    ensures
        match series_from(policy, outcomes, from, i) {
            SeriesView::Due(_) => outcomes.len() - from <= policy.max_retries,
            SeriesView::Stopped(at) => i <= at < outcomes.len() && at - from
                <= policy.max_retries,
        },
    decreases outcomes.len() - i,
{
    if i < outcomes.len() {
        if i > from {
            assert(is_tried_again(policy, outcomes[i - 1], i - 1 - from));
        }
        if is_tried_again(policy, outcomes[i], i - from) {
            lemma_series(policy, outcomes, from, i + 1);
        }
    } else if i > from {
        assert(is_tried_again(policy, outcomes[i - 1], i - 1 - from));
    }
}

/// A request is not sent forever: with the token at most once more than the number
/// of retries, and as often again without it.
pub proof fn law_request_ends(
    policy: RetryPolicy,
    has_token: bool,
    request: RequestView,
    outcomes: Seq<Outcome>,
)
    requires
        outcomes.len() >= 2 * (policy.max_retries + 1),
    ensures
        !(step_after(policy, has_token, request, outcomes) is Send),
{
    lemma_series(policy, outcomes, 0, 0);
    match series(policy, outcomes, 0) {
        SeriesView::Due(_) => {},
        SeriesView::Stopped(at) => {
            lemma_series(policy, outcomes, at + 1, at + 1);
        },
    }
}

/// A rate limit is waited for: where GitHub says that nothing is left of it and when it
/// is lifted, and asks for no other delay, the next attempt comes after that time, unless
/// that is more than ten times the greatest delay away.
pub proof fn law_rate_limit_is_waited_for(
    policy: RetryPolicy,
    has_token: bool,
    request: RequestView,
    response: HttpResponse,
    reset: u64,
)
    requires
        policy.max_retries > 0,
        is_retryable(response),
        retry_after_delay(response) is None,
        header_number(response.rate_limit_remaining) == Some(0u64),
        header_number(response.rate_limit_reset) == Some(reset),
        response.received_at < reset,
        (reset - response.received_at) * 1000 + 100 <= policy.max_retry_delay * 10,
    ensures
        step_after(policy, has_token, request, seq![Outcome::Response(response)]) matches
            StepView::Send { anonymous: false, delay } && delay > (reset - response.received_at)
            * 1000,
{
    let outcomes = seq![Outcome::Response(response)];
    assert(is_tried_again(policy, outcomes[0], 0));
    assert(series_from(policy, outcomes, 0, 1) == SeriesView::Due(
        delay_behind(policy, outcomes[0], 0),
    ));
    assert(series(policy, outcomes, 0) == series_from(policy, outcomes, 0, 1));
}

/// Who has no token and runs into the rate limit is told so, and how to get a higher one,
/// whatever the request.
pub proof fn law_exhausted_limit_is_named(
    policy: RetryPolicy,
    request: RequestView,
    outcomes: Seq<Outcome>,
    at: int,
    response: HttpResponse,
)
    requires
        series(policy, outcomes, 0) == SeriesView::Stopped(at),
        outcomes[at] == Outcome::Response(response),
        response.status == 403,
        names_rate_limit(response),
    ensures
        step_after(policy, false, request, outcomes) == StepView::Fail(
            request.context
                + ": GitHub API rate limit exceeded. Provide --token or GITHUB_TOKEN for higher limits."@,
        ),
{
}

/// The token is left out only where public metadata is read and was refused with
/// status 403 in spite of it.
pub proof fn law_token_is_left_out_only_after_a_refusal(
    policy: RetryPolicy,
    has_token: bool,
    request: RequestView,
    outcomes: Seq<Outcome>,
)
    requires
        step_after(policy, has_token, request, outcomes) matches StepView::Send {
            anonymous: true,
            ..
        },
    ensures
        has_token,
        request.handling == Handling::Read || request.handling == Handling::ReadOrMissing,
        exists|at: int|
            0 <= at < outcomes.len() && (#[trigger] outcomes[at] matches Outcome::Response(
                response,
            ) && response.status == 403 && !is_retryable(response)),
{
    lemma_series(policy, outcomes, 0, 0);
    match series(policy, outcomes, 0) {
        SeriesView::Due(_) => {},
        SeriesView::Stopped(at) => {
            assert(outcomes[at] is Response);
        },
    }
}

} // verus!
