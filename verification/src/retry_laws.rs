//! When a request is sent again, with which delay, and what its last answer means.

use vstd::prelude::*;

use crate::api::{Handling, RequestView};
use crate::crates_io::{crate_step_from, stable_version, CrateMetadata, CratesStepView};
use crate::github::{
    body_text, normalized_token, series_from, step_after, wanted_delay, SeriesView, StepView,
};
use crate::policy_laws::lemma_holds;
use crate::scan_laws::{holds, is_gap};
use crate::text::{decimal, is_space, lowercase, option_view};
use crate::text_laws::{law_numbers_are_read, law_white_space_is_trimmed};
use crate::transport::{backoff_factor, retry_after_delay, HttpResponse, Outcome, RetryPolicy};
use crate::version::parsed_version;
use vstd::arithmetic::power2::{lemma2_to64, lemma_pow2_unfold, pow2};

verus! {

// ---------------------------------------------------------------------------
// Delays
// ---------------------------------------------------------------------------
/// The delay starts with the given one and doubles from one attempt to the next, ten times,
/// and never exceeds the greatest one.
pub proof fn law_delay_doubles(policy: RetryPolicy, attempt: nat)
    ensures
        policy.backoff(0) == if policy.retry_delay < policy.max_retry_delay {
            policy.retry_delay
        } else {
            policy.max_retry_delay
        },
        attempt < 10 ==> policy.backoff(attempt + 1) == if 2 * policy.backoff(attempt)
            < policy.max_retry_delay {
            (2 * policy.backoff(attempt)) as nat
        } else {
            policy.max_retry_delay as nat
        },
        attempt >= 10 ==> policy.backoff(attempt + 1) == policy.backoff(attempt),
{
    lemma2_to64();
    assert(backoff_factor(0) == 1);
    assert(policy.retry_delay as nat * 1 == policy.retry_delay);
    if attempt < 10 {
        lemma_pow2_unfold(attempt + 1);
        assert(pow2(attempt + 1) == 2 * pow2(attempt));
        assert(backoff_factor(attempt + 1) == 2 * backoff_factor(attempt));
        let d = policy.retry_delay as nat;
        let f = backoff_factor(attempt);
        assert(d * (2 * f) == 2 * (d * f)) by (nonlinear_arith);
    }
}

/// What the answer wants is kept to, where it is more than nothing and no more than ten times
/// the greatest delay.
pub proof fn law_wanted_delay_is_kept(policy: RetryPolicy, wanted: nat, attempt: nat)
    ensures
        policy.delay(Some(wanted), attempt) == if 1 <= wanted && wanted <= 10
            * policy.max_retry_delay {
            wanted
        } else {
            policy.backoff(attempt)
        },
        policy.delay(None, attempt) == policy.backoff(attempt),
{
}

/// `Retry-After` counts in seconds; without it an exhausted limit is waited for until it is
/// reset.
pub proof fn law_answer_tells_the_delay(
    response: HttpResponse,
    seconds: u64,
    reset: u64,
)
    ensures
        option_view(response.retry_after) == Some(decimal(seconds as nat)) ==> wanted_delay(
            response,
        ) == Some((seconds * 1000) as nat),
        response.retry_after is None && option_view(response.rate_limit_remaining) == Some(
            decimal(0),
        ) && option_view(response.rate_limit_reset) == Some(decimal(reset as nat)) && reset
            > response.received_at ==> wanted_delay(response) == Some(
            ((reset - response.received_at) * 1000 + 100) as nat,
        ),
        response.retry_after is None && response.rate_limit_reset is None ==> wanted_delay(
            response,
        ) is None,
        forall|remaining: u64|
            response.retry_after is None && option_view(response.rate_limit_remaining) == Some(
                #[trigger] decimal(remaining as nat),
            ) && remaining > 0 ==> wanted_delay(response) is None,
{
    law_numbers_are_read(seconds, Seq::empty());
    law_numbers_are_read(reset, Seq::empty());
    law_numbers_are_read(0, Seq::empty());
    assert forall|remaining: u64|
        response.retry_after is None && option_view(response.rate_limit_remaining) == Some(
            #[trigger] decimal(remaining as nat),
        ) && remaining > 0 implies wanted_delay(response) is None by {
        law_numbers_are_read(remaining, Seq::empty());
    }
}

// ---------------------------------------------------------------------------
// Attempts
// ---------------------------------------------------------------------------
/// The outcome may pass: the server is overloaded, the limit of requests is exhausted, or the
/// connection broke.
pub open spec fn may_pass(outcome: Outcome) -> bool {
    match outcome {
        Outcome::Response(response) => {
            ||| response.status == 429
            ||| 500 <= response.status && response.status < 600
            ||| response.status == 403 && (response.has_retry_after || option_view(
                response.rate_limit_remaining,
            ) == Some("0"@))
        },
        Outcome::Broken { transient, .. } => transient,
    }
}

/// The outcomes in front of the place may all pass, and there are no more of them than
/// attempts are repeated.
pub open spec fn is_reached(policy: RetryPolicy, outcomes: Seq<Outcome>, at: int) -> bool {
    &&& 0 <= at <= outcomes.len()
    &&& at <= policy.max_retries
    &&& forall|i: int| 0 <= i < at ==> may_pass(#[trigger] outcomes[i])
}

/// The outcome at the place is the last one: it does not pass, or it came at the last attempt.
pub open spec fn is_last(policy: RetryPolicy, outcomes: Seq<Outcome>, at: int) -> bool {
    &&& is_reached(policy, outcomes, at)
    &&& at < outcomes.len()
    &&& !may_pass(outcomes[at]) || at == policy.max_retries
}

pub(crate) proof fn lemma_series(policy: RetryPolicy, outcomes: Seq<Outcome>, at: int, i: int)
    requires
        is_reached(policy, outcomes, at),
        0 <= i <= at,
    ensures
        is_last(policy, outcomes, at) ==> series_from(policy, outcomes, 0, i)
            == SeriesView::Stopped(at),
        at == outcomes.len() ==> series_from(policy, outcomes, 0, i) == SeriesView::Due(
            waited(policy, outcomes),
        ),
    decreases at - i,
{
    if i < at {
        assert(may_pass(outcomes[i]));
        lemma_series(policy, outcomes, at, i + 1);
    }
}

/// How long is waited behind the outcomes.
pub open spec fn waited(policy: RetryPolicy, outcomes: Seq<Outcome>) -> nat {
    if outcomes.len() == 0 {
        0
    } else {
        match outcomes.last() {
            Outcome::Response(response) => policy.delay(
                wanted_delay(response),
                (outcomes.len() - 1) as nat,
            ),
            Outcome::Broken { .. } => policy.backoff((outcomes.len() - 1) as nat),
        }
    }
}

/// While the outcomes may pass and attempts are left, the request is sent again, with the
/// token: the first time at once, then with the delay of the attempt.
pub proof fn law_passing_failures_are_tried_again(
    policy: RetryPolicy,
    has_token: bool,
    request: RequestView,
    outcomes: Seq<Outcome>,
)
    requires
        is_reached(policy, outcomes, outcomes.len() as int),
    ensures
        step_after(policy, has_token, request, outcomes) == (StepView::Send {
            anonymous: false,
            delay: waited(policy, outcomes),
        }),
{
    lemma_series(policy, outcomes, outcomes.len() as int, 0);
}

/// The answer counts as a success.
pub open spec fn succeeds(outcome: Outcome) -> bool {
    outcome matches Outcome::Response(response) && 200 <= response.status && response.status < 300
}

/// A last answer that is a success is delivered, for every sort of request.
pub proof fn law_success_is_delivered(
    policy: RetryPolicy,
    has_token: bool,
    request: RequestView,
    outcomes: Seq<Outcome>,
    at: int,
)
    requires
        is_reached(policy, outcomes, at),
        at < outcomes.len(),
        succeeds(outcomes[at]),
    ensures
        step_after(policy, has_token, request, outcomes) == StepView::Deliver(at),
{
    lemma_series(policy, outcomes, at, 0);
}

/// A last answer that there is no such resource is no failure where that was asked, and a
/// failure for every other request.
pub proof fn law_missing_resource_is_told(
    policy: RetryPolicy,
    has_token: bool,
    request: RequestView,
    outcomes: Seq<Outcome>,
    at: int,
)
    requires
        is_reached(policy, outcomes, at),
        at < outcomes.len(),
        outcomes[at] matches Outcome::Response(response) && response.status == 404,
    ensures
        request.handling == Handling::ReadOrMissing ==> step_after(
            policy,
            has_token,
            request,
            outcomes,
        ) == StepView::Missing,
        request.handling != Handling::ReadOrMissing ==> step_after(
            policy,
            has_token,
            request,
            outcomes,
        ) == StepView::Fail(
            request.context + ": resource not found ("@ + body_text(outcomes[at]->Response_0)
                + ")"@,
        ),
{
    lemma_series(policy, outcomes, at, 0);
}

/// A reference that cannot be moved forward is refused, and that is no failure; any other
/// unprocessable request is one.
pub proof fn law_refused_fast_forward_is_told(
    policy: RetryPolicy,
    has_token: bool,
    request: RequestView,
    outcomes: Seq<Outcome>,
    at: int,
)
    requires
        is_reached(policy, outcomes, at),
        at < outcomes.len(),
        outcomes[at] matches Outcome::Response(response) && response.status == 422,
    ensures
        request.handling == Handling::FastForward && holds(
            lowercase(body_text(outcomes[at]->Response_0)),
            "fast forward"@,
        ) ==> step_after(policy, has_token, request, outcomes) == StepView::Refused,
        !(request.handling == Handling::FastForward && holds(
            lowercase(body_text(outcomes[at]->Response_0)),
            "fast forward"@,
        )) ==> step_after(policy, has_token, request, outcomes) is Fail,
{
    lemma_series(policy, outcomes, at, 0);
    lemma_holds(lowercase(body_text(outcomes[at]->Response_0)), "fast forward"@);
}

/// What is sent with the token alone, and what cannot be read without one, fails where the
/// server forbids it.
pub proof fn law_forbidden_request_fails(
    policy: RetryPolicy,
    has_token: bool,
    request: RequestView,
    outcomes: Seq<Outcome>,
    at: int,
)
    requires
        is_last(policy, outcomes, at),
        outcomes[at] matches Outcome::Response(response) && response.status == 403,
        !has_token || request.handling == Handling::Send || request.handling
            == Handling::FastForward,
    ensures
        step_after(policy, has_token, request, outcomes) is Fail,
{
    lemma_series(policy, outcomes, at, 0);
}

/// Where a token is forbidden to read, the request is sent again without it, at once; what
/// succeeds there is delivered. A limit that is named in the answer is a failure instead.
pub proof fn law_forbidden_token_is_left_out(
    policy: RetryPolicy,
    request: RequestView,
    outcomes: Seq<Outcome>,
    at: int,
)
    requires
        is_reached(policy, outcomes, at),
        at < outcomes.len(),
        !may_pass(outcomes[at]),
        outcomes[at] matches Outcome::Response(response) && response.status == 403,
        request.handling == Handling::Read || request.handling == Handling::ReadOrMissing,
    ensures
        ({
            let limited = holds(
                lowercase(body_text(outcomes[at]->Response_0)),
                "rate limit"@,
            );
            &&& limited ==> step_after(policy, true, request, outcomes) is Fail
            &&& !limited && at + 1 == outcomes.len() ==> step_after(
                policy,
                true,
                request,
                outcomes,
            ) == (StepView::Send { anonymous: true, delay: 0 })
            &&& !limited && at + 1 < outcomes.len() && succeeds(outcomes[at + 1]) ==> step_after(
                policy,
                true,
                request,
                outcomes,
            ) == StepView::Deliver(at + 1)
        }),
{
    lemma_series(policy, outcomes, at, 0);
    lemma_holds(lowercase(body_text(outcomes[at]->Response_0)), "rate limit"@);
}

/// Where nothing was answered in the end, what broke is told.
pub proof fn law_broken_connection_is_told(
    policy: RetryPolicy,
    has_token: bool,
    request: RequestView,
    outcomes: Seq<Outcome>,
    at: int,
    transient: bool,
    message: String,
)
    requires
        is_last(policy, outcomes, at),
        outcomes[at] == (Outcome::Broken { transient, message }),
    ensures
        step_after(policy, has_token, request, outcomes) == StepView::Fail(
            request.context + ": "@ + message@,
        ),
{
    lemma_series(policy, outcomes, at, 0);
}

/// The token is used without the blanks around it; a blank one is none.
pub proof fn law_blank_token_is_none(front: Seq<char>, token: Seq<char>, back: Seq<char>)
    requires
        is_gap(front),
        is_gap(back),
        token.len() > 0 ==> !is_space(token[0]) && !is_space(token.last()),
    ensures
        normalized_token(Some(front + token + back)) == if token.len() > 0 {
            Some(token)
        } else {
            None
        },
        normalized_token(None) is None,
{
    law_white_space_is_trimmed(front, token, back);
}

// ---------------------------------------------------------------------------
// Crates
// ---------------------------------------------------------------------------
/// The outcome may pass: the server is overloaded or the connection broke.
pub open spec fn crate_may_pass(outcome: Outcome) -> bool {
    match outcome {
        Outcome::Response(response) => response.status == 429 || 500 <= response.status
            && response.status < 600,
        Outcome::Broken { transient, .. } => transient,
    }
}

/// The metadata of a crate are asked for until the answer does not pass or no attempt is left.
/// A success is delivered; a crate that is not there, any other answer and a broken connection
/// are failures.
pub proof fn law_crate_is_asked_for(
    policy: RetryPolicy,
    context: Seq<char>,
    outcomes: Seq<Outcome>,
    at: int,
)
    requires
        0 <= at <= outcomes.len(),
        at <= policy.max_retries,
        forall|i: int| 0 <= i < at ==> crate_may_pass(#[trigger] outcomes[i]),
    ensures
        at == outcomes.len() && at > 0 ==> crate_step_from(policy, context, outcomes, 0) == (
        CratesStepView::Send {
            delay: match outcomes.last() {
                Outcome::Response(response) => policy.delay(
                    retry_after_delay(response),
                    (at - 1) as nat,
                ),
                Outcome::Broken { .. } => policy.backoff((at - 1) as nat),
            },
        }),
        outcomes.len() == 0 ==> crate_step_from(policy, context, outcomes, 0)
            == (CratesStepView::Send { delay: 0 }),
        at < outcomes.len() && succeeds(outcomes[at]) ==> crate_step_from(
            policy,
            context,
            outcomes,
            0,
        ) == CratesStepView::Deliver(at),
        at < outcomes.len() && !succeeds(outcomes[at]) && (!crate_may_pass(outcomes[at]) || at
            == policy.max_retries) ==> crate_step_from(policy, context, outcomes, 0) is Fail,
        at < outcomes.len() && (outcomes[at] matches Outcome::Response(response)
            && response.status == 404) ==> crate_step_from(policy, context, outcomes, 0)
            == CratesStepView::Fail(
            context + ": crate not found ("@ + (match outcomes[at]->Response_0.body {
                Some(body) => body@,
                None => "<response body unavailable>"@,
            }) + ")"@,
        ),
{
    lemma_crate_step(policy, context, outcomes, at, 0);
}

proof fn lemma_crate_step(
    policy: RetryPolicy,
    context: Seq<char>,
    outcomes: Seq<Outcome>,
    at: int,
    i: int,
)
    requires
        0 <= i <= at <= outcomes.len(),
        at <= policy.max_retries,
        forall|i: int| 0 <= i < at ==> crate_may_pass(#[trigger] outcomes[i]),
    ensures
        crate_step_from(policy, context, outcomes, i) == crate_step_from(
            policy,
            context,
            outcomes,
            at,
        ),
    decreases at - i,
{
    if i < at {
        assert(crate_may_pass(outcomes[i]));
        lemma_crate_step(policy, context, outcomes, at, i + 1);
    }
}

/// The text is a version without a pre-release.
pub open spec fn is_stable_text(text: Option<String>) -> bool {
    text matches Some(text) && parsed_version(text@) matches Some(version) && version.pre.len() == 0
}

/// The greatest stable version counts, then the greatest, then the newest, each only where it
/// is stable.
pub proof fn law_stable_version_is_chosen_in_order(metadata: CrateMetadata)
    ensures
        is_stable_text(metadata.latest_stable) ==> stable_version(metadata) == option_view(
            metadata.latest_stable,
        ),
        !is_stable_text(metadata.latest_stable) && is_stable_text(metadata.latest)
            ==> stable_version(metadata) == option_view(metadata.latest),
        !is_stable_text(metadata.latest_stable) && !is_stable_text(metadata.latest)
            && is_stable_text(metadata.newest) ==> stable_version(metadata) == option_view(
            metadata.newest,
        ),
        !is_stable_text(metadata.latest_stable) && !is_stable_text(metadata.latest)
            && !is_stable_text(metadata.newest) ==> stable_version(metadata) is None,
{
}

} // verus!
