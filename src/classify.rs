use vstd::prelude::*;

verus! {

pub open spec fn is_digit(c: char) -> bool {
    '0' <= c <= '9'
}

/// The value of a string of decimal digits.
pub open spec fn digits_value(s: Seq<char>) -> nat
    decreases s.len(),
{
    if s.len() == 0 {
        0
    } else {
        digits_value(s.drop_last()) * 10 + (s.last() as nat - '0' as nat) as nat
    }
}

/// The digits of an unsigned number, after an optional `+`.
pub open spec fn unsigned_digits(s: Seq<char>) -> Seq<char> {
    if s.len() > 0 && s[0] == '+' {
        s.drop_first()
    } else {
        s
    }
}

/// A header value read as a whole number of seconds that fits in a `u64`.
pub open spec fn parse_seconds_spec(s: Seq<char>) -> Option<u64> {
    let d = unsigned_digits(s);
    if d.len() > 0 && (forall|i: int| 0 <= i < d.len() ==> is_digit(#[trigger] d[i]))
        && digits_value(d) <= u64::MAX {
        Some(digits_value(d) as u64)
    } else {
        None
    }
}

pub proof fn lemma_digits_grow(s: Seq<char>, m: int)
    requires
        0 <= m <= s.len(),
        forall|i: int| 0 <= i < s.len() ==> is_digit(#[trigger] s[i]),
    ensures
        digits_value(s) >= digits_value(s.take(m)),
    decreases s.len(),
{
    if m < s.len() {
        assert(s.drop_last().take(m) =~= s.take(m));
        lemma_digits_grow(s.drop_last(), m);
        assert(digits_value(s) >= digits_value(s.drop_last())) by (nonlinear_arith)
            requires
                digits_value(s) == digits_value(s.drop_last()) * 10 + (s.last() as nat - '0' as nat) as nat,
        ;
    } else {
        assert(s.take(m) =~= s);
    }
}

/// Reads a `Retry-After` value as a whole number of seconds: an optional `+`
/// and at least one decimal digit, with a value that fits in a `u64`.
pub fn parse_seconds(s: &str) -> (r: Option<u64>)
    ensures
        r == parse_seconds_spec(s@),
{
    let n = s.unicode_len();
    let mut i: usize = 0;
    if n > 0 && s.get_char(0) == '+' {
        i = 1;
    }
    let start = i;
    let ghost d = unsigned_digits(s@);
    assert(d =~= s@.subrange(start as int, n as int));
    if start == n {
        return None;
    }
    let mut value: u64 = 0;
    assert(d.take(0) =~= Seq::<char>::empty());
    while i < n
        invariant
            n == s@.len(),
            start <= i <= n,
            d == s@.subrange(start as int, n as int),
            d == unsigned_digits(s@),
            value as nat == digits_value(d.take(i - start)),
            forall|k: int| 0 <= k < i - start ==> is_digit(#[trigger] d[k]),
        decreases n - i,
    {
        let c = s.get_char(i);
        assert(d[i - start] == c);
        if !('0' <= c && c <= '9') {
            assert(!is_digit(d[i - start]));
            return None;
        }
        let digit = (c as u32 - '0' as u32) as u64;
        assert(d.take(i - start + 1).drop_last() =~= d.take(i - start));
        assert(digits_value(d.take(i - start + 1)) == value * 10 + digit);
        if value > (u64::MAX - digit) / 10 {
            assert(value * 10 + digit > u64::MAX) by (nonlinear_arith)
                requires
                    value > (u64::MAX - digit) / 10,
                    digit <= 9,
            ;
            proof {
                if forall|k: int| 0 <= k < d.len() ==> is_digit(#[trigger] d[k]) {
                    lemma_digits_grow(d, i - start + 1);
                }
            }
            return None;
        }
        value = value * 10 + digit;
        i = i + 1;
    }
    assert(d.take(i - start) =~= d);
    Some(value)
}

} // verus!

verus! {

/// What ends a dispatch, or an attempt that may be retried.
#[derive(Debug, Clone, Copy, PartialEq, Eq, Structural)]
pub enum DispatchError {
    /// A 429 that the dispatch retries.
    Throttled,
    /// A 503 that the dispatch retries.
    Unavailable,
    /// A 429 handed to the caller, with the server's advised backoff in seconds.
    ThrottlePropagated { backoff_secs: Option<u64> },
    /// A 503 handed to the caller.
    UnavailablePropagated,
    /// Any other non-2xx status; `expose_details` says whether the server's
    /// error details reach the caller.
    Service { status: u16, expose_details: bool },
    /// The transport failed.
    Transport,
    /// The body producer failed and made the transport fail.
    BodyWrite,
    /// The node cursor has no node left.
    NoNode,
    /// The overall deadline passed.
    Timeout,
}

/// The status line and `Retry-After` value of a response.
pub struct ResponseHead {
    pub status: u16,
    pub retry_after: Option<String>,
}

/// What the transport gave back for one request.
pub enum TransportResult {
    Response(ResponseHead),
    /// The transport failed; `body_aborted` says whether its cause chain names
    /// the aborted request body.
    Failed { body_aborted: bool },
}

/// What one attempt comes to.
#[derive(Debug, Clone, Copy, PartialEq, Eq, Structural)]
pub enum AttemptOutcome {
    Success,
    Retry { error: DispatchError, retry_after_secs: Option<u64> },
    Fail(DispatchError),
}

/// An attempt's outcome, and whether the node cursor is told that the node failed.
#[derive(Debug, Clone, Copy, PartialEq, Eq, Structural)]
pub struct Verdict {
    pub outcome: AttemptOutcome,
    pub prev_failed: bool,
}

pub open spec fn is_success(status: u16) -> bool {
    200 <= status <= 299
}

/// The verdict on a response with `status`, and `retry_after` the seconds a
/// 429 advises.
pub open spec fn response_verdict(
    status: u16,
    retry_after: Option<u64>,
    propagate_qos: bool,
    propagate_service: bool,
) -> Verdict {
    if is_success(status) {
        Verdict { outcome: AttemptOutcome::Success, prev_failed: false }
    } else if status == 429 {
        Verdict {
            outcome: if propagate_qos {
                AttemptOutcome::Fail(DispatchError::ThrottlePropagated { backoff_secs: retry_after })
            } else {
                AttemptOutcome::Retry { error: DispatchError::Throttled, retry_after_secs: retry_after }
            },
            prev_failed: false,
        }
    } else if status == 503 {
        Verdict {
            outcome: if propagate_qos {
                AttemptOutcome::Fail(DispatchError::UnavailablePropagated)
            } else {
                AttemptOutcome::Retry { error: DispatchError::Unavailable, retry_after_secs: None }
            },
            prev_failed: true,
        }
    } else {
        Verdict {
            outcome: AttemptOutcome::Fail(
                DispatchError::Service { status, expose_details: propagate_service },
            ),
            prev_failed: true,
        }
    }
}

/// The verdict on an attempt whose exchange failed with `error`.
pub open spec fn failure_verdict(error: DispatchError) -> Verdict {
    Verdict { outcome: AttemptOutcome::Retry { error, retry_after_secs: None }, prev_failed: true }
}

} // verus!
