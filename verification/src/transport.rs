//! When a request is sent again, and how long to wait before that.
//!
//! A conversation with a server is given as the outcomes of the requests that were
//! sent so far. From them follows what is to be done next: send a request, or stop
//! at an outcome.

use vstd::prelude::*;

use crate::text::{number, read_number};

verus! {

/// What a server answered.
#[derive(Debug, Clone, PartialEq, Eq)]
pub struct HttpResponse {
    pub status: u16,
    /// The status as text, with its reason.
    pub status_text: String,
    /// A `Retry-After` header came with it, readable or not.
    pub has_retry_after: bool,
    pub retry_after: Option<String>,
    pub rate_limit_remaining: Option<String>,
    pub rate_limit_reset: Option<String>,
    /// The body, where it could be read.
    pub body: Option<String>,
    /// When it came, in seconds since 1970.
    pub received_at: u64,
}

/// What became of a request.
#[derive(Debug, Clone, PartialEq, Eq)]
pub enum Outcome {
    Response(HttpResponse),
    /// Nothing was answered; `transient` after a timeout or a failed connection.
    Broken { transient: bool, message: String },
}

/// How often and when requests are sent again; the delays are in milliseconds.
#[derive(Debug, Clone, Copy, PartialEq, Eq, Structural)]
pub struct RetryPolicy {
    pub max_retries: u32,
    pub retry_delay: u64,
    pub max_retry_delay: u64,
}

/// Success, from 200 to 299.
pub open spec fn is_success(status: u16) -> bool {
    200 <= status <= 299
}

/// Too many requests, or an error of the server.
pub open spec fn is_overload(status: u16) -> bool {
    status == 429 || 500 <= status <= 599
}

/// Two to the power of the attempt, and of ten from the tenth attempt on.
pub open spec fn backoff_factor(attempt: nat) -> nat {
    vstd::arithmetic::power2::pow2(
        if attempt < 10 {
            attempt
        } else {
            10
        },
    )
}

impl RetryPolicy {
    /// The delay after an attempt, doubled with every attempt up to the greatest.
    pub open spec fn backoff(self, attempt: nat) -> nat {
        let candidate = self.retry_delay as nat * backoff_factor(attempt);
        if candidate < self.max_retry_delay {
            candidate
        } else {
            self.max_retry_delay as nat
        }
    }

    /// The delay that a server asked for counts only if it is not zero and not more
    /// than ten times the greatest delay.
    pub open spec fn delay(self, wanted: Option<nat>, attempt: nat) -> nat {
        match wanted {
            Some(delay) => if 0 < delay <= self.max_retry_delay * 10 {
                delay
            } else {
                self.backoff(attempt)
            },
            None => self.backoff(attempt),
        }
    }
}

/// The delay that `Retry-After` asks for, in milliseconds.
pub open spec fn retry_after_delay(response: HttpResponse) -> Option<nat> {
    match response.retry_after {
        Some(text) => match number(text@) {
            Some(seconds) => Some((seconds * 1000) as nat),
            None => None,
        },
        None => None,
    }
}

/// The number in a header.
pub open spec fn header_number(header: Option<String>) -> Option<u64> {
    match header {
        Some(text) => number(text@),
        None => None,
    }
}

/// The delay until a rate limit is lifted that nothing is left of.
pub open spec fn rate_limit_delay(response: HttpResponse) -> Option<nat> {
    match header_number(response.rate_limit_reset) {
        Some(reset) => if header_number(response.rate_limit_remaining) == Some(0u64) && reset
            > response.received_at {
            Some(((reset - response.received_at) * 1000 + 100) as nat)
        } else {
            None
        },
        None => None,
    }
}

/// Whether the status is a success.
pub fn success(status: u16) -> (result: bool)
    ensures
        result == is_success(status),
{
    200 <= status && status <= 299
}

/// Whether the status says that the server is overloaded.
pub fn overload(status: u16) -> (result: bool)
    ensures
        result == is_overload(status),
{
    status == 429 || (500 <= status && status <= 599)
}

/// The number in a header.
pub(crate) fn read_header(header: &Option<String>) -> (result: Option<u64>)
    ensures
        result == header_number(*header),
{
    match header {
        Some(text) => read_number(text),
        None => None,
    }
}

/// The delay that `Retry-After` asks for, in milliseconds.
pub(crate) fn read_retry_after(response: &HttpResponse) -> (result: Option<u128>)
    ensures
        match result {
            Some(delay) => retry_after_delay(*response) == Some(delay as nat),
            None => retry_after_delay(*response) is None,
        },
{
    match read_header(&response.retry_after) {
        Some(seconds) => Some(seconds as u128 * 1000),
        None => None,
    }
}

/// The delay until a rate limit is lifted that nothing is left of.
pub(crate) fn read_rate_limit(response: &HttpResponse) -> (result: Option<u128>)
    ensures
        match result {
            Some(delay) => rate_limit_delay(*response) == Some(delay as nat),
            None => rate_limit_delay(*response) is None,
        },
{
    let remaining = read_header(&response.rate_limit_remaining);
    match read_header(&response.rate_limit_reset) {
        Some(reset) => {
            let lifted = match remaining {
                Some(left) => left == 0,
                None => false,
            };
            if lifted && reset > response.received_at {
                Some((reset - response.received_at) as u128 * 1000 + 100)
            } else {
                None
            }
        },
        None => None,
    }
}

impl RetryPolicy {
    /// The delay after an attempt, in milliseconds: it doubles with every attempt,
    /// ten times at most, up to the greatest delay.
    pub fn calculate_backoff(&self, attempt: u32) -> (result: u64)
        ensures
            result == self.backoff(attempt as nat),
    {
        let mut factor: u128 = 1;
        let mut i: u32 = 0;
        proof {
            vstd::arithmetic::power2::lemma2_to64();
        }
        while i < attempt && i < 10
            invariant
                i <= attempt,
                i <= 10,
                factor == vstd::arithmetic::power2::pow2(i as nat),
                factor <= 1024,
                vstd::arithmetic::power2::pow2(10) == 1024,
            decreases attempt - i,
        {
            proof {
                vstd::arithmetic::power2::lemma_pow2_unfold((i + 1) as nat);
                if i + 1 < 10 {
                    vstd::arithmetic::power2::lemma_pow2_strictly_increases((i + 1) as nat, 10);
                }
            }
            factor = factor * 2;
            i = i + 1;
        }
        proof {
            assert(factor == backoff_factor(attempt as nat));
            assert(self.retry_delay * factor <= 0xffff_ffff_ffff_ffff * 1024) by (nonlinear_arith)
                requires
                    self.retry_delay <= 0xffff_ffff_ffff_ffffu64,
                    factor <= 1024,
            ;
        }
        let candidate: u128 = self.retry_delay as u128 * factor;
        if candidate < self.max_retry_delay as u128 {
            candidate as u64
        } else {
            self.max_retry_delay
        }
    }

    /// The delay before the next attempt, in milliseconds.
    pub(crate) fn choose_delay(&self, wanted: Option<u128>, attempt: u32) -> (result: u128)
        ensures
            result == self.delay(
                match wanted {
                    Some(delay) => Some(delay as nat),
                    None => None,
                },
                attempt as nat,
            ),
    {
        match wanted {
            Some(delay) => if 0 < delay && delay <= self.max_retry_delay as u128 * 10 {
                delay
            } else {
                self.calculate_backoff(attempt) as u128
            },
            None => self.calculate_backoff(attempt) as u128,
        }
    }
}

/// The delay before an attempt is never more than ten times the greatest delay, and
/// never more than the greatest delay where the server asked for none.
pub proof fn law_delay_is_bounded(policy: RetryPolicy, wanted: Option<nat>, attempt: nat)
    ensures
        policy.backoff(attempt) <= policy.max_retry_delay,
        policy.delay(wanted, attempt) <= policy.max_retry_delay * 10,
        wanted is None ==> policy.delay(wanted, attempt) <= policy.max_retry_delay,
{
}

/// The delays grow from attempt to attempt.
pub proof fn law_backoff_grows(policy: RetryPolicy, earlier: nat, later: nat)
    requires
        earlier <= later,
    ensures
        policy.backoff(earlier) <= policy.backoff(later),
{
    let a = if earlier < 10 {
        earlier
    } else {
        10
    };
    let b = if later < 10 {
        later
    } else {
        10
    };
    if a < b {
        vstd::arithmetic::power2::lemma_pow2_strictly_increases(a, b);
    }
    vstd::arithmetic::mul::lemma_mul_inequality(
        backoff_factor(earlier) as int,
        backoff_factor(later) as int,
        policy.retry_delay as int,
    );
    vstd::arithmetic::mul::lemma_mul_is_commutative(
        backoff_factor(earlier) as int,
        policy.retry_delay as int,
    );
    vstd::arithmetic::mul::lemma_mul_is_commutative(
        backoff_factor(later) as int,
        policy.retry_delay as int,
    );
}

} // verus!
