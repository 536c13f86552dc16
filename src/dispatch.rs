use rand::Rng;
use vstd::prelude::*;
use crate::classify::{
    failure_verdict, is_success, parse_seconds, parse_seconds_spec, response_verdict,
    AttemptOutcome, DispatchError, ResponseHead, TransportResult, Verdict,
};
use crate::headers::{attempt_headers, build_headers, BodyInfo};
use crate::proxy::{apply_proxy, proxied, ProxyConfig, Target};
use crate::path::{
    compose, composed_view, expand, find_index, lemma_expand_fault_prefix, pairs_of, pairs_view,
    param_name, params_view, pattern_segments, query_of, split_pattern, strs, ComposedPath,
    PathError, PathFault,
};

verus! {

/// The per-dispatch state: the request's routing data, the retry policy and
/// the attempt counter.
pub struct State {
    pub method: String,
    pub pattern: String,
    pub params: Vec<(String, Vec<String>)>,
    pub headers: Vec<(String, String)>,
    pub idempotent: bool,
    pub max_num_retries: u32,
    pub backoff_slot_ms: u64,
    pub propagate_qos_errors: bool,
    pub propagate_service_errors: bool,
    pub proxy: ProxyConfig,
    pub attempt: u32,
}

pub open spec fn used_set(used: Seq<bool>) -> Set<int> {
    Set::new(|i: int| 0 <= i < used.len() && used[i])
}

impl State {
    /// The name of a `{name}` segment, or `None` for a literal segment.
    pub fn parse_param<'c>(&self, segment: &'c str) -> (r: Option<&'c str>)
        ensures
            r matches Some(n) ==> param_name(segment@) == Some(n@),
            r is None ==> param_name(segment@) is None,
    {
        let n = segment.unicode_len();
        if n >= 2 && segment.get_char(0) == '{' && segment.get_char(n - 1) == '}' {
            Some(segment.substring_char(1, n - 1))
        } else {
            None
        }
    }

    /// Expands the pattern with the parameters: placeholders take their
    /// single value, the parameters left over become query pairs.
    pub fn build_url(&self) -> (r: Result<ComposedPath, PathError>)
        ensures
            composed_view(r) == compose(self.pattern@, params_view(self.params@)),
    {
        let ghost pv = params_view(self.params@);
        let pattern = self.pattern.as_str();
        if pattern.unicode_len() == 0 || pattern.get_char(0) != '/' {
            return Err(PathError::MissingSlash);
        }
        let segs = split_pattern(pattern);
        let ghost sv = strs(segs@);
        assert(pattern_segments(self.pattern@) == sv);
        assert(!(self.pattern@.len() == 0 || self.pattern@[0] != '/'));
        let mut used: Vec<bool> = Vec::new();
        let mut j: usize = 0;
        while j < self.params.len()
            invariant
                j <= self.params@.len(),
                used@.len() == j,
                forall|k: int| 0 <= k < j ==> !used@[k],
            decreases self.params@.len() - j,
        {
            used.push(false);
            j = j + 1;
        }
        assert(used_set(used@) =~= Set::<int>::empty());
        let mut out: Vec<String> = Vec::new();
        assert(strs(out@) =~= Seq::<Seq<char>>::empty());
        let mut k: usize = 0;
        assert(sv.take(0) =~= Seq::<Seq<char>>::empty());
        while k < segs.len()
            invariant
                sv == strs(segs@),
                sv == pattern_segments(self.pattern@),
                self.pattern@.len() > 0 && self.pattern@[0] == '/',
                pv == params_view(self.params@),
                k <= segs@.len(),
                used@.len() == self.params@.len(),
                expand(pv, sv.take(k as int)) == Ok::<_, PathFault>((strs(out@), used_set(used@))),
            decreases segs@.len() - k,
        {
            let ghost before = out@;
            let ghost used_before = used@;
            assert(sv.take(k + 1).drop_last() =~= sv.take(k as int));
            let seg = segs[k].as_str();
            assert(sv.take(k + 1).last() == seg@);
            match self.parse_param(seg) {
                None => {
                    out.push(seg.to_owned());
                    assert(strs(out@) =~= strs(before).push(sv[k as int]));
                },
                Some(name) => {
                    match find_index(&self.params, name) {
                        None => {
                            let e = PathError::NoValues(name.to_owned());
                            assert(expand(pv, sv.take(k + 1)) == Err::<(Seq<Seq<char>>, Set<int>), PathFault>(e@));
                            proof {
                                lemma_expand_fault_prefix(pv, sv, k + 1);
                            }
                            return Err(e);
                        },
                        Some(i) => {
                            let values = &self.params[i].1;
                            assert(pv[i as int].1 == strs(values@));
                            assert(used_set(used@).contains(i as int) == used@[i as int]);
                            if used[i] || values.len() == 0 {
                                assert(expand(pv, sv.take(k + 1)) is Err);
                                proof {
                                    lemma_expand_fault_prefix(pv, sv, k + 1);
                                }
                                return Err(PathError::NoValues(name.to_owned()));
                            } else if values.len() > 1 {
                                proof {
                                    lemma_expand_fault_prefix(pv, sv, k + 1);
                                }
                                return Err(PathError::MultipleValues(name.to_owned()));
                            }
                            out.push(values[0].clone());
                            used.set(i, true);
                            assert(strs(out@) =~= strs(before).push(pv[i as int].1[0]));
                            assert(used_set(used@) =~= used_set(used_before).insert(i as int));
                        },
                    }
                },
            }
            k = k + 1;
        }
        assert(sv.take(k as int) =~= sv);
        let mut query: Vec<(String, String)> = Vec::new();
        let mut i: usize = 0;
        while i < self.params.len()
            invariant
                pv == params_view(self.params@),
                expand(pv, pattern_segments(self.pattern@)) == Ok::<_, PathFault>((strs(out@), used_set(used@))),
                self.pattern@.len() > 0 && self.pattern@[0] == '/',
                i <= self.params@.len(),
                used@.len() == self.params@.len(),
                pairs_view(query@) == query_of(pv, used_set(used@), i as int),
            decreases self.params@.len() - i,
        {
            let ghost base = pairs_view(query@);
            if !used[i] {
                let name = &self.params[i].0;
                let values = &self.params[i].1;
                let mut v: usize = 0;
                assert(strs(values@).take(0) =~= Seq::<Seq<char>>::empty());
                assert(base =~= base + pairs_of(name@, strs(values@).take(0)));
                while v < values.len()
                    invariant
                        v <= values@.len(),
                        pairs_view(query@) == base + pairs_of(name@, strs(values@).take(v as int)),
                    decreases values@.len() - v,
                {
                    let ghost q0 = query@;
                    query.push((name.clone(), values[v].clone()));
                    assert(pairs_view(query@) =~= pairs_view(q0).push((name@, values@[v as int]@)));
                    assert(pairs_of(name@, strs(values@).take(v + 1)) =~= pairs_of(
                        name@,
                        strs(values@).take(v as int),
                    ).push((name@, values@[v as int]@)));
                    v = v + 1;
                }
                assert(strs(values@).take(v as int) =~= strs(values@));
                assert(!used_set(used@).contains(i as int));
            } else {
                assert(used_set(used@).contains(i as int));
                assert(base =~= base + Seq::<(Seq<char>, Seq<char>)>::empty());
            }
            i = i + 1;
        }
        Ok(ComposedPath { segments: out, query })
    }
}

} // verus!

verus! {

/// The client's settings that one dispatch reads.
pub struct ClientConfig {
    pub max_num_retries: u32,
    pub backoff_slot_ms: u64,
    pub propagate_qos_errors: bool,
    pub propagate_service_errors: bool,
    pub proxy: ProxyConfig,
}

/// One logical request.
pub struct Request {
    pub method: String,
    pub pattern: String,
    pub params: Vec<(String, Vec<String>)>,
    pub headers: Vec<(String, String)>,
    pub idempotent: bool,
}

/// What the retry gate decides after a failed attempt.
#[derive(Debug, Clone, Copy, PartialEq, Eq, Structural)]
pub enum RetryGate {
    /// Give up and return the attempt's error.
    Abort(GateFault),
    /// Reset the body, then go on if the reset succeeded.
    ResetBody,
    /// Back off, then make the next attempt.
    Proceed,
}

/// Why the retry gate gave up.
#[derive(Debug, Clone, Copy, PartialEq, Eq, Structural)]
pub enum GateFault {
    RetriesExceeded,
    NotIdempotent,
    BodyNotResettable,
}

/// The attempt counter after one more failed attempt.
pub open spec fn next_attempt(attempt: u32) -> u32 {
    if attempt < u32::MAX {
        (attempt + 1) as u32
    } else {
        attempt
    }
}

/// Whether another attempt may follow, given the counter already advanced.
pub open spec fn gate(attempt: u32, max_num_retries: u32, idempotent: bool, needs_reset: bool) -> RetryGate {
    if attempt >= max_num_retries {
        RetryGate::Abort(GateFault::RetriesExceeded)
    } else if !idempotent {
        RetryGate::Abort(GateFault::NotIdempotent)
    } else if needs_reset {
        RetryGate::ResetBody
    } else {
        RetryGate::Proceed
    }
}

pub open spec fn two_pow(n: nat) -> nat
    decreases n,
{
    if n == 0 {
        1
    } else {
        2 * two_pow((n - 1) as nat)
    }
}

/// The exclusive upper end of the jittered backoff, in milliseconds, capped
/// at `u64::MAX`.
pub open spec fn jitter_bound_spec(slot_ms: u64, attempt: u32) -> u64 {
    if slot_ms * two_pow(attempt as nat) >= u64::MAX {
        u64::MAX
    } else {
        (slot_ms * two_pow(attempt as nat)) as u64
    }
}

/// A `Retry-After` in seconds as milliseconds, capped at `u64::MAX`.
pub open spec fn secs_to_ms(secs: u64) -> u64 {
    if secs * 1000 >= u64::MAX {
        u64::MAX
    } else {
        (secs * 1000) as u64
    }
}

pub proof fn lemma_two_pow_grows(a: nat, b: nat)
    requires
        a <= b,
    ensures
        two_pow(a) <= two_pow(b),
        two_pow(a) >= 1,
    decreases b,
{
    if b > a {
        lemma_two_pow_grows(a, (b - 1) as nat);
    } else if a > 0 {
        lemma_two_pow_grows((a - 1) as nat, (a - 1) as nat);
    }
}

/// The exclusive upper end of the backoff drawn after `attempt` failed
/// attempts: `slot_ms * 2^attempt`, capped at `u64::MAX`.
pub fn jitter_bound(slot_ms: u64, attempt: u32) -> (r: u64)
    ensures
        r == jitter_bound_spec(slot_ms, attempt),
{
    if slot_ms == 0 {
        return 0;
    }
    let mut b: u64 = slot_ms;
    let mut i: u32 = 0;
    assert(two_pow(0) == 1);
    while i < attempt
        invariant
            i <= attempt,
            b as nat == slot_ms * two_pow(i as nat),
        decreases attempt - i,
    {
        if b > u64::MAX / 2 {
            proof {
                lemma_two_pow_grows((i + 1) as nat, attempt as nat);
                let x = two_pow((i + 1) as nat);
                let y = two_pow(attempt as nat);
                assert(slot_ms * y >= slot_ms * x) by (nonlinear_arith)
                    requires
                        x <= y,
                ;
                let z = two_pow(i as nat);
                assert(x == 2 * z);
                assert(slot_ms * x == 2 * b) by (nonlinear_arith)
                    requires
                        x == 2 * z,
                        b == slot_ms * z,
                ;
            }
            return u64::MAX;
        }
        b = b * 2;
        proof {
            assert(slot_ms * two_pow((i + 1) as nat) == 2 * (slot_ms * two_pow(i as nat))) by (nonlinear_arith)
                requires
                    two_pow((i + 1) as nat) == 2 * two_pow(i as nat),
            ;
        }
        i = i + 1;
    }
    b
}

/// Relies on rand's `Rng::gen_range` over `0..bound` with the thread-local
/// generator: a value below `bound`; it panics on an empty range.
#[verifier::external_body]
fn draw_below(bound: u64) -> (r: u64)
    requires
        bound > 0,
    ensures
        r < bound,
{
    rand::thread_rng().gen_range(0..bound)
}

/// Whether `ms` is a valid wait before the next attempt: the advised
/// `Retry-After` when there is one, else below the jitter bound (zero when
/// the bound is zero).
pub open spec fn backoff_ok(ms: u64, retry_after_secs: Option<u64>, slot_ms: u64, attempt: u32) -> bool {
    match retry_after_secs {
        Some(secs) => ms == secs_to_ms(secs),
        None => if jitter_bound_spec(slot_ms, attempt) == 0 {
            ms == 0
        } else {
            ms < jitter_bound_spec(slot_ms, attempt)
        },
    }
}

impl State {
    /// The verdict on an exchange under this dispatch's policy.
    pub open spec fn verdict_of(&self, exchange: Result<ResponseHead, DispatchError>) -> Verdict {
        match exchange {
            Ok(head) => response_verdict(
                head.status,
                match head.retry_after {
                    Some(v) => parse_seconds_spec(v@),
                    None => None,
                },
                self.propagate_qos_errors,
                self.propagate_service_errors,
            ),
            Err(e) => failure_verdict(e),
        }
    }

    /// A fresh dispatch of `request` under `config`.
    pub fn new(request: Request, config: ClientConfig) -> (r: State)
        ensures
            r.attempt == 0,
            r.pattern == request.pattern,
            r.params == request.params,
            r.headers == request.headers,
            r.method == request.method,
            r.idempotent == request.idempotent,
            r.max_num_retries == config.max_num_retries,
            r.backoff_slot_ms == config.backoff_slot_ms,
            r.propagate_qos_errors == config.propagate_qos_errors,
            r.propagate_service_errors == config.propagate_service_errors,
            r.proxy == config.proxy,
    {
        State {
            method: request.method,
            pattern: request.pattern,
            params: request.params,
            headers: request.headers,
            idempotent: request.idempotent,
            max_num_retries: config.max_num_retries,
            backoff_slot_ms: config.backoff_slot_ms,
            propagate_qos_errors: config.propagate_qos_errors,
            propagate_service_errors: config.propagate_service_errors,
            proxy: config.proxy,
            attempt: 0,
        }
    }

    /// The error that stands for both channels failing: the body's when the
    /// transport failed because the body aborted, else the transport's.
    pub fn deconflict_errors(&self, body_aborted: bool) -> (r: DispatchError)
        ensures
            r == if body_aborted {
                DispatchError::BodyWrite
            } else {
                DispatchError::Transport
            },
    {
        if body_aborted {
            DispatchError::BodyWrite
        } else {
            DispatchError::Transport
        }
    }

    /// Joins the body writer's result with the transport's. A response wins
    /// even when the body writer failed.
    pub fn settle_exchange(&self, body_failed: bool, transport: TransportResult) -> (r: Result<
        ResponseHead,
        DispatchError,
    >)
        ensures
            match transport {
                TransportResult::Response(head) => r == Ok::<ResponseHead, DispatchError>(head),
                TransportResult::Failed { body_aborted } => r == Err::<ResponseHead, DispatchError>(
                    if body_failed && body_aborted {
                        DispatchError::BodyWrite
                    } else {
                        DispatchError::Transport
                    },
                ),
            },
    {
        match transport {
            TransportResult::Response(head) => Ok(head),
            TransportResult::Failed { body_aborted } => {
                if body_failed {
                    Err(self.deconflict_errors(body_aborted))
                } else {
                    Err(DispatchError::Transport)
                }
            },
        }
    }

    /// Classifies an exchange: 2xx succeeds; 429 and 503 are retried unless
    /// QoS errors are propagated; other statuses end the dispatch; a failed
    /// exchange is retried. The node is marked failed on 503, other non-2xx
    /// statuses but 429, and failed exchanges.
    pub fn classify(&self, exchange: &Result<ResponseHead, DispatchError>) -> (r: Verdict)
        ensures
            r == self.verdict_of(*exchange),
    {
        match exchange {
            Err(e) => Verdict {
                outcome: AttemptOutcome::Retry { error: *e, retry_after_secs: None },
                prev_failed: true,
            },
            Ok(head) => {
                let status = head.status;
                if 200 <= status && status <= 299 {
                    Verdict { outcome: AttemptOutcome::Success, prev_failed: false }
                } else if status == 429 {
                    let retry_after = match &head.retry_after {
                        Some(v) => parse_seconds(v.as_str()),
                        None => None,
                    };
                    let outcome = if self.propagate_qos_errors {
                        AttemptOutcome::Fail(
                            DispatchError::ThrottlePropagated { backoff_secs: retry_after },
                        )
                    } else {
                        AttemptOutcome::Retry {
                            error: DispatchError::Throttled,
                            retry_after_secs: retry_after,
                        }
                    };
                    Verdict { outcome, prev_failed: false }
                } else if status == 503 {
                    let outcome = if self.propagate_qos_errors {
                        AttemptOutcome::Fail(DispatchError::UnavailablePropagated)
                    } else {
                        AttemptOutcome::Retry {
                            error: DispatchError::Unavailable,
                            retry_after_secs: None,
                        }
                    };
                    Verdict { outcome, prev_failed: true }
                } else {
                    Verdict {
                        outcome: AttemptOutcome::Fail(
                            DispatchError::Service {
                                status,
                                expose_details: self.propagate_service_errors,
                            },
                        ),
                        prev_failed: true,
                    }
                }
            },
        }
    }

    /// Counts the failed attempt and decides whether another may follow: not
    /// past the retry limit, only for an idempotent request, and only after a
    /// reset of a body that has emitted bytes.
    pub fn begin_retry(&mut self, needs_reset: bool) -> (r: RetryGate)
        ensures
            final(self).attempt == next_attempt(old(self).attempt),
            r == gate(
                final(self).attempt,
                old(self).max_num_retries,
                old(self).idempotent,
                needs_reset,
            ),
            final(self).idempotent == old(self).idempotent,
            final(self).max_num_retries == old(self).max_num_retries,
            final(self).backoff_slot_ms == old(self).backoff_slot_ms,
            final(self).propagate_qos_errors == old(self).propagate_qos_errors,
            final(self).propagate_service_errors == old(self).propagate_service_errors,
    {
        if self.attempt < u32::MAX {
            self.attempt = self.attempt + 1;
        }
        if self.attempt >= self.max_num_retries {
            RetryGate::Abort(GateFault::RetriesExceeded)
        } else if !self.idempotent {
            RetryGate::Abort(GateFault::NotIdempotent)
        } else if needs_reset {
            RetryGate::ResetBody
        } else {
            RetryGate::Proceed
        }
    }

    /// Goes on after a body reset only if the reset succeeded.
    pub fn resume_after_reset(&self, reset_ok: bool) -> (r: RetryGate)
        ensures
            r == if reset_ok {
                RetryGate::Proceed
            } else {
                RetryGate::Abort(GateFault::BodyNotResettable)
            },
    {
        if reset_ok {
            RetryGate::Proceed
        } else {
            RetryGate::Abort(GateFault::BodyNotResettable)
        }
    }

    /// The wait before the next attempt, in milliseconds: the server's
    /// `Retry-After` when it gave one, else a uniform draw below
    /// `slot * 2^attempt` (zero when that bound is zero).
    pub fn backoff_ms(&self, retry_after_secs: Option<u64>) -> (r: u64)
        ensures
            backoff_ok(r, retry_after_secs, self.backoff_slot_ms, self.attempt),
    {
        match retry_after_secs {
            Some(secs) => {
                if secs > u64::MAX / 1000 {
                    u64::MAX
                } else {
                    secs * 1000
                }
            },
            None => {
                let bound = jitter_bound(self.backoff_slot_ms, self.attempt);
                if bound == 0 {
                    0
                } else {
                    draw_below(bound)
                }
            },
        }
    }
}

} // verus!

verus! {

/// A request ready for the transport: where it goes, its path and query, and
/// its headers.
pub struct PreparedRequest {
    pub method: String,
    pub target: Target,
    pub path: ComposedPath,
    pub headers: Vec<(String, String)>,
}

pub open spec fn body_view(body: Option<BodyInfo>) -> Option<(Seq<char>, Option<u64>)> {
    match body {
        Some(b) => Some((b.content_type@, b.content_length)),
        None => None,
    }
}

impl State {
    /// The headers of one attempt, from the request's headers, the trace
    /// headers and the body's metadata.
    pub fn new_headers(&self, trace: &Vec<(String, String)>, body: &Option<BodyInfo>) -> (r: Vec<
        (String, String),
    >)
        ensures
            pairs_view(r@) == attempt_headers(
                pairs_view(self.headers@),
                pairs_view(trace@),
                body_view(*body),
            ),
    {
        build_headers(&self.headers, trace, body)
    }

    /// The request for the node at `target`: the expanded path and query, and
    /// the target and headers as the proxy rewrites them.
    pub fn new_request(&self, headers: Vec<(String, String)>, target: Target) -> (r: Result<
        PreparedRequest,
        PathError,
    >)
        ensures
            match r {
                Ok(p) => {
                    &&& compose(self.pattern@, params_view(self.params@)) == Ok::<
                        _,
                        PathFault,
                    >(p.path@)
                    &&& (p.target@, pairs_view(p.headers@)) == proxied(
                        self.proxy,
                        target@,
                        pairs_view(headers@),
                    )
                    &&& p.method@ == self.method@
                },
                Err(e) => compose(self.pattern@, params_view(self.params@)) == Err::<
                    (Seq<Seq<char>>, Seq<(Seq<char>, Seq<char>)>),
                    PathFault,
                >(e@),
            },
    {
        let path = match self.build_url() {
            Ok(p) => p,
            Err(e) => return Err(e),
        };
        let mut target = target;
        let mut headers = headers;
        apply_proxy(&self.proxy, &mut target, &mut headers);
        Ok(PreparedRequest { method: self.method.clone(), target, path, headers })
    }
}

/// Only a 2xx response ends an attempt in success.
pub proof fn lemma_success_is_2xx(
    status: u16,
    retry_after: Option<u64>,
    propagate_qos: bool,
    propagate_service: bool,
)
    ensures
        (response_verdict(status, retry_after, propagate_qos, propagate_service).outcome
            == AttemptOutcome::Success) <==> is_success(status),
{
}

/// The jitter bound is `slot * 2^attempt` wherever that fits in a `u64`.
pub proof fn lemma_jitter_bound_exact(slot_ms: u64, attempt: u32)
    ensures
        slot_ms * two_pow(attempt as nat) < u64::MAX ==> jitter_bound_spec(slot_ms, attempt) as nat
            == slot_ms * two_pow(attempt as nat),
{
}

} // verus!

verus! {

/// What the dispatch does next.
#[derive(Debug, Clone, Copy, PartialEq, Eq, Structural)]
pub enum Action {
    /// End the dispatch with the last attempt's response.
    Succeed,
    /// End the dispatch with this error.
    Fail(DispatchError),
    /// Reset the body, then report the result to `after_reset`.
    ResetBody { error: DispatchError, retry_after_secs: Option<u64> },
    /// Sleep this many milliseconds, then select a node and attempt again.
    Sleep(u64),
}

/// The next action, and whether the node cursor is told first that the last
/// node failed.
#[derive(Debug, Clone, Copy, PartialEq, Eq, Structural)]
pub struct Step {
    pub prev_failed: bool,
    pub action: Action,
}

/// The action after a retryable `error`, with the counter already advanced.
pub open spec fn retry_step_ok(
    s: &State,
    attempt: u32,
    needs_reset: bool,
    error: DispatchError,
    retry_after_secs: Option<u64>,
    action: Action,
) -> bool {
    match gate(attempt, s.max_num_retries, s.idempotent, needs_reset) {
        RetryGate::Abort(_) => action == Action::Fail(error),
        RetryGate::ResetBody => action == (Action::ResetBody { error, retry_after_secs }),
        RetryGate::Proceed => action matches Action::Sleep(ms) && backoff_ok(
            ms,
            retry_after_secs,
            s.backoff_slot_ms,
            attempt,
        ),
    }
}

/// The step after an attempt: what `after_attempt` does, as a relation
/// between the state before, the state after, the exchange and the step.
pub open spec fn after_attempt_ok(
    pre: &State,
    post: &State,
    exchange: Result<ResponseHead, DispatchError>,
    needs_reset: bool,
    r: Step,
) -> bool {
    let v = pre.verdict_of(exchange);
    &&& r.prev_failed == v.prev_failed
    &&& post.idempotent == pre.idempotent
    &&& post.max_num_retries == pre.max_num_retries
    &&& post.backoff_slot_ms == pre.backoff_slot_ms
    &&& post.propagate_qos_errors == pre.propagate_qos_errors
    &&& post.propagate_service_errors == pre.propagate_service_errors
    &&& match v.outcome {
        AttemptOutcome::Success => r.action == Action::Succeed && post.attempt == pre.attempt,
        AttemptOutcome::Fail(e) => r.action == Action::Fail(e) && post.attempt == pre.attempt,
        AttemptOutcome::Retry { error, retry_after_secs } => {
            &&& post.attempt == next_attempt(pre.attempt)
            &&& retry_step_ok(pre, post.attempt, needs_reset, error, retry_after_secs, r.action)
        },
    }
}

impl State {
    /// Decides what follows an attempt: finish on success or a terminal
    /// error; otherwise count the attempt and give up, reset the body, or back
    /// off before the next one. `needs_reset` says whether the body has
    /// emitted bytes.
    pub fn after_attempt(&mut self, exchange: &Result<ResponseHead, DispatchError>, needs_reset: bool) -> (r: Step)
        ensures
            after_attempt_ok(old(self), final(self), *exchange, needs_reset, r),
    {
        let verdict = self.classify(exchange);
        let action = match verdict.outcome {
            AttemptOutcome::Success => Action::Succeed,
            AttemptOutcome::Fail(e) => Action::Fail(e),
            AttemptOutcome::Retry { error, retry_after_secs } => {
                match self.begin_retry(needs_reset) {
                    RetryGate::Abort(_) => Action::Fail(error),
                    RetryGate::ResetBody => Action::ResetBody { error, retry_after_secs },
                    RetryGate::Proceed => Action::Sleep(self.backoff_ms(retry_after_secs)),
                }
            },
        };
        Step { prev_failed: verdict.prev_failed, action }
    }

    /// Goes on after a body reset: back off if it succeeded, else finish with
    /// the attempt's error.
    pub fn after_reset(&self, reset_ok: bool, error: DispatchError, retry_after_secs: Option<u64>) -> (r: Step)
        ensures
            !r.prev_failed,
            reset_ok ==> (r.action matches Action::Sleep(ms) && backoff_ok(
                ms,
                retry_after_secs,
                self.backoff_slot_ms,
                self.attempt,
            )),
            !reset_ok ==> r.action == Action::Fail(error),
    {
        match self.resume_after_reset(reset_ok) {
            RetryGate::Proceed => Step {
                prev_failed: false,
                action: Action::Sleep(self.backoff_ms(retry_after_secs)),
            },
            _ => Step { prev_failed: false, action: Action::Fail(error) },
        }
    }
}

/// A request that is not idempotent gets no second attempt: after any
/// attempt the dispatch finishes.
pub proof fn lemma_non_idempotent_single_transport_call(
    pre: &State,
    post: &State,
    exchange: Result<ResponseHead, DispatchError>,
    needs_reset: bool,
    r: Step,
)
    requires
        !pre.idempotent,
        after_attempt_ok(pre, post, exchange, needs_reset, r),
    ensures
        r.action is Succeed || r.action is Fail,
{
}

/// A body that has emitted bytes is never sent again straight away: the
/// dispatch finishes or resets the body first.
pub proof fn lemma_consumed_body_not_replayed(
    pre: &State,
    post: &State,
    exchange: Result<ResponseHead, DispatchError>,
    r: Step,
)
    requires
        after_attempt_ok(pre, post, exchange, true, r),
    ensures
        !(r.action is Sleep),
{
}

/// A dispatch finishes with success only on a 2xx response to the attempt
/// just made.
pub proof fn lemma_success_from_last_attempt(
    pre: &State,
    post: &State,
    exchange: Result<ResponseHead, DispatchError>,
    needs_reset: bool,
    r: Step,
)
    requires
        after_attempt_ok(pre, post, exchange, needs_reset, r),
        r.action == Action::Succeed,
    ensures
        exchange is Ok && is_success(exchange->Ok_0.status),
{
}

/// A 503 that is retried, and a failed exchange, tell the node cursor of the
/// failure before the next node is selected; a 429 does not.
pub proof fn lemma_prev_failed_before_next(
    pre: &State,
    post: &State,
    exchange: Result<ResponseHead, DispatchError>,
    needs_reset: bool,
    r: Step,
)
    requires
        after_attempt_ok(pre, post, exchange, needs_reset, r),
    ensures
        (exchange is Err || exchange->Ok_0.status == 503) ==> r.prev_failed,
        (exchange is Ok && exchange->Ok_0.status == 429) ==> !r.prev_failed,
{
}

/// After a 429 that advises `secs` seconds, the next attempt waits exactly
/// that long (in milliseconds, capped at `u64::MAX`).
pub proof fn lemma_retry_after_respected(
    pre: &State,
    post: &State,
    exchange: Result<ResponseHead, DispatchError>,
    needs_reset: bool,
    r: Step,
    ms: u64,
)
    requires
        after_attempt_ok(pre, post, exchange, needs_reset, r),
        exchange is Ok,
        exchange->Ok_0.status == 429,
        exchange->Ok_0.retry_after is Some,
        parse_seconds_spec(exchange->Ok_0.retry_after->Some_0@) is Some,
        r.action == Action::Sleep(ms),
    ensures
        ms == secs_to_ms(parse_seconds_spec(exchange->Ok_0.retry_after->Some_0@)->Some_0),
{
}

/// Without `Retry-After`, the wait after the `k`-th failed attempt lies in
/// `[0, slot * 2^k)`.
pub proof fn lemma_full_jitter(
    pre: &State,
    post: &State,
    exchange: Result<ResponseHead, DispatchError>,
    needs_reset: bool,
    r: Step,
    ms: u64,
)
    requires
        after_attempt_ok(pre, post, exchange, needs_reset, r),
        exchange is Err || exchange->Ok_0.status == 503,
        r.action == Action::Sleep(ms),
        pre.backoff_slot_ms > 0,
    ensures
        (ms as nat) < pre.backoff_slot_ms * two_pow(post.attempt as nat),
{
    lemma_two_pow_grows(0, post.attempt as nat);
    let p = two_pow(post.attempt as nat);
    assert(pre.backoff_slot_ms * p >= 1) by (nonlinear_arith)
        requires
            pre.backoff_slot_ms > 0,
            p >= 1,
    ;
}

} // verus!
