use conjure_runtime::classify::{
    parse_seconds, AttemptOutcome, DispatchError, ResponseHead, TransportResult, Verdict,
};
use conjure_runtime::dispatch::{jitter_bound, ClientConfig, GateFault, Request, RetryGate, State};
use conjure_runtime::headers::{build_headers, eq_ignore_case, hop_by_hop, BodyInfo};
use conjure_runtime::path::{split_pattern, PathError};
use conjure_runtime::proxy::{apply_proxy, ProxyConfig, Target};

fn s(v: &str) -> String {
    v.to_string()
}

fn config(max_num_retries: u32, slot_ms: u64) -> ClientConfig {
    ClientConfig {
        max_num_retries,
        backoff_slot_ms: slot_ms,
        propagate_qos_errors: false,
        propagate_service_errors: false,
        proxy: ProxyConfig::Direct,
    }
}

fn request(method: &str, pattern: &str, idempotent: bool) -> Request {
    Request {
        method: s(method),
        pattern: s(pattern),
        params: vec![],
        headers: vec![],
        idempotent,
    }
}

fn response(status: u16) -> Result<ResponseHead, DispatchError> {
    Ok(ResponseHead { status, retry_after: None })
}

fn target(host: &str) -> Target {
    Target { scheme: s("http"), host: s(host), port: None }
}

#[test]
fn happy_path_single_node() {
    let state = State::new(request("GET", "/v1/ping", true), config(3, 10));
    let prepared = state.new_request(vec![], target("a")).ok().unwrap();
    assert_eq!(prepared.path.segments, vec![s("v1"), s("ping")]);
    assert!(prepared.path.query.is_empty());
    assert_eq!(prepared.method, "GET");
    let verdict = state.classify(&response(200));
    assert_eq!(verdict, Verdict { outcome: AttemptOutcome::Success, prev_failed: false });
}

#[test]
fn retry_on_503_then_success() {
    let mut state = State::new(request("GET", "/x", true), config(3, 10));
    let first = state.classify(&response(503));
    assert!(first.prev_failed);
    assert_eq!(
        first.outcome,
        AttemptOutcome::Retry { error: DispatchError::Unavailable, retry_after_secs: None }
    );
    assert_eq!(state.begin_retry(false), RetryGate::Proceed);
    assert_eq!(state.attempt, 1);
    assert_eq!(jitter_bound(10, state.attempt), 20);
    for _ in 0..50 {
        assert!(state.backoff_ms(None) < 20);
    }
    let second = state.classify(&response(200));
    assert_eq!(second.outcome, AttemptOutcome::Success);
    assert!(!second.prev_failed);
}

#[test]
fn throttled_with_retry_after_is_not_propagated() {
    let mut state = State::new(request("PUT", "/y", true), config(3, 10));
    let head = ResponseHead { status: 429, retry_after: Some(s("2")) };
    let verdict = state.classify(&Ok(head));
    assert!(!verdict.prev_failed);
    assert_eq!(
        verdict.outcome,
        AttemptOutcome::Retry { error: DispatchError::Throttled, retry_after_secs: Some(2) }
    );
    assert_eq!(state.begin_retry(false), RetryGate::Proceed);
    assert_eq!(state.backoff_ms(Some(2)), 2000);
    assert_eq!(state.classify(&response(200)).outcome, AttemptOutcome::Success);
}

#[test]
fn non_idempotent_is_not_retried() {
    let mut state = State::new(request("POST", "/z", false), config(3, 10));
    let exchange = state.settle_exchange(false, TransportResult::Failed { body_aborted: false });
    assert!(matches!(exchange, Err(DispatchError::Transport)));
    let verdict = state.classify(&exchange);
    assert!(verdict.prev_failed);
    assert_eq!(
        verdict.outcome,
        AttemptOutcome::Retry { error: DispatchError::Transport, retry_after_secs: None }
    );
    assert_eq!(state.begin_retry(false), RetryGate::Abort(GateFault::NotIdempotent));
}

#[test]
fn unresettable_body_is_not_replayed() {
    let mut state = State::new(request("POST", "/u", true), config(3, 10));
    let verdict = state.classify(&response(503));
    assert_eq!(
        verdict.outcome,
        AttemptOutcome::Retry { error: DispatchError::Unavailable, retry_after_secs: None }
    );
    assert_eq!(state.begin_retry(true), RetryGate::ResetBody);
    assert_eq!(state.resume_after_reset(false), RetryGate::Abort(GateFault::BodyNotResettable));
    assert_eq!(state.resume_after_reset(true), RetryGate::Proceed);
}

#[test]
fn retries_stop_at_the_limit() {
    let mut state = State::new(request("GET", "/t", true), config(2, 10));
    assert_eq!(state.begin_retry(false), RetryGate::Proceed);
    assert_eq!(state.begin_retry(false), RetryGate::Abort(GateFault::RetriesExceeded));
    let mut none = State::new(request("GET", "/t", true), config(0, 10));
    assert_eq!(none.begin_retry(false), RetryGate::Abort(GateFault::RetriesExceeded));
}

#[test]
fn propagated_qos_errors_end_the_dispatch() {
    let mut cfg = config(3, 10);
    cfg.propagate_qos_errors = true;
    let state = State::new(request("GET", "/q", true), cfg);
    let head = ResponseHead { status: 429, retry_after: Some(s("7")) };
    let throttled = state.classify(&Ok(head));
    assert_eq!(
        throttled.outcome,
        AttemptOutcome::Fail(DispatchError::ThrottlePropagated { backoff_secs: Some(7) })
    );
    assert!(!throttled.prev_failed);
    let unavailable = state.classify(&response(503));
    assert_eq!(unavailable.outcome, AttemptOutcome::Fail(DispatchError::UnavailablePropagated));
    assert!(unavailable.prev_failed);
}

#[test]
fn other_statuses_are_service_errors() {
    let mut cfg = config(3, 10);
    cfg.propagate_service_errors = true;
    let state = State::new(request("GET", "/q", true), cfg);
    let verdict = state.classify(&response(404));
    assert_eq!(
        verdict.outcome,
        AttemptOutcome::Fail(DispatchError::Service { status: 404, expose_details: true })
    );
    assert!(verdict.prev_failed);
    assert_eq!(state.classify(&response(204)).outcome, AttemptOutcome::Success);
    assert_eq!(state.classify(&response(299)).outcome, AttemptOutcome::Success);
    assert!(matches!(state.classify(&response(300)).outcome, AttemptOutcome::Fail(_)));
}

#[test]
fn body_and_transport_errors_are_deconflicted() {
    let state = State::new(request("POST", "/b", true), config(3, 10));
    assert_eq!(state.deconflict_errors(true), DispatchError::BodyWrite);
    assert_eq!(state.deconflict_errors(false), DispatchError::Transport);
    let both = state.settle_exchange(true, TransportResult::Failed { body_aborted: true });
    assert!(matches!(both, Err(DispatchError::BodyWrite)));
    let unrelated = state.settle_exchange(true, TransportResult::Failed { body_aborted: false });
    assert!(matches!(unrelated, Err(DispatchError::Transport)));
    let answered = state.settle_exchange(
        true,
        TransportResult::Response(ResponseHead { status: 201, retry_after: None }),
    );
    assert_eq!(answered.ok().unwrap().status, 201);
}

#[test]
fn retry_after_parsing() {
    assert_eq!(parse_seconds("2"), Some(2));
    assert_eq!(parse_seconds("+3"), Some(3));
    assert_eq!(parse_seconds("0042"), Some(42));
    assert_eq!(parse_seconds("18446744073709551615"), Some(u64::MAX));
    assert_eq!(parse_seconds("18446744073709551616"), None);
    assert_eq!(parse_seconds(""), None);
    assert_eq!(parse_seconds("+"), None);
    assert_eq!(parse_seconds("-1"), None);
    assert_eq!(parse_seconds("1.5"), None);
    assert_eq!(parse_seconds("Wed, 21 Oct 2015 07:28:00 GMT"), None);
}

#[test]
fn unparseable_retry_after_is_absent() {
    let state = State::new(request("GET", "/r", true), config(3, 10));
    let head = ResponseHead { status: 429, retry_after: Some(s("soon")) };
    assert_eq!(
        state.classify(&Ok(head)).outcome,
        AttemptOutcome::Retry { error: DispatchError::Throttled, retry_after_secs: None }
    );
}

#[test]
fn jitter_bounds_double() {
    assert_eq!(jitter_bound(10, 0), 10);
    assert_eq!(jitter_bound(10, 1), 20);
    assert_eq!(jitter_bound(10, 3), 80);
    assert_eq!(jitter_bound(0, 5), 0);
    assert_eq!(jitter_bound(1, 64), u64::MAX);
    assert_eq!(jitter_bound(u64::MAX, 1), u64::MAX);
    let mut state = State::new(request("GET", "/j", true), config(10, 0));
    state.begin_retry(false);
    assert_eq!(state.backoff_ms(None), 0);
    assert_eq!(state.backoff_ms(Some(u64::MAX)), u64::MAX);
}

#[test]
fn url_with_params_and_query() {
    let mut req = request("GET", "/v1/{id}/items/{kind}", true);
    req.params = vec![
        (s("kind"), vec![s("big")]),
        (s("id"), vec![s("42")]),
        (s("tag"), vec![s("a"), s("b")]),
        (s("empty"), vec![]),
    ];
    let state = State::new(req, config(3, 10));
    let path = state.build_url().ok().unwrap();
    assert_eq!(path.segments, vec![s("v1"), s("42"), s("items"), s("big")]);
    assert_eq!(path.query, vec![(s("tag"), s("a")), (s("tag"), s("b"))]);
}

#[test]
fn url_root_and_trailing_slash() {
    let state = State::new(request("GET", "/", true), config(3, 10));
    assert_eq!(state.build_url().ok().unwrap().segments, vec![s("")]);
    let state = State::new(request("GET", "/a/", true), config(3, 10));
    assert_eq!(state.build_url().ok().unwrap().segments, vec![s("a"), s("")]);
    assert_eq!(split_pattern("/x/y"), vec![s("x"), s("y")]);
}

#[test]
fn url_errors() {
    let state = State::new(request("GET", "v1/ping", true), config(3, 10));
    assert!(matches!(state.build_url(), Err(PathError::MissingSlash)));
    let state = State::new(request("GET", "", true), config(3, 10));
    assert!(matches!(state.build_url(), Err(PathError::MissingSlash)));
    let state = State::new(request("GET", "/{id}", true), config(3, 10));
    assert!(matches!(state.build_url(), Err(PathError::NoValues(n)) if n == "id"));
    let mut req = request("GET", "/{id}", true);
    req.params = vec![(s("id"), vec![s("1"), s("2")])];
    let state = State::new(req, config(3, 10));
    assert!(matches!(state.build_url(), Err(PathError::MultipleValues(n)) if n == "id"));
    let mut req = request("GET", "/{id}/{id}", true);
    req.params = vec![(s("id"), vec![s("1")])];
    let state = State::new(req, config(3, 10));
    assert!(matches!(state.build_url(), Err(PathError::NoValues(n)) if n == "id"));
}

#[test]
fn param_segments() {
    let state = State::new(request("GET", "/", true), config(3, 10));
    assert_eq!(state.parse_param("{name}"), Some("name"));
    assert_eq!(state.parse_param("{}"), Some(""));
    assert_eq!(state.parse_param("{"), None);
    assert_eq!(state.parse_param("name"), None);
    assert_eq!(state.parse_param("{name"), None);
}

#[test]
fn hop_by_hop_headers_are_replaced() {
    assert!(eq_ignore_case("Content-Type", "content-type"));
    assert!(!eq_ignore_case("Content-Type", "content-typ"));
    assert!(hop_by_hop("HOST"));
    assert!(!hop_by_hop("Accept"));
    let caller = vec![
        (s("Connection"), s("close")),
        (s("Accept"), s("*/*")),
        (s("HOST"), s("evil")),
        (s("Proxy-Authorization"), s("x")),
        (s("content-length"), s("9")),
        (s("Content-Type"), s("text/plain")),
    ];
    let trace = vec![(s("X-B3-TraceId"), s("abc"))];
    let body = Some(BodyInfo { content_type: s("application/json"), content_length: Some(1234) });
    let built = build_headers(&caller, &trace, &body);
    assert_eq!(
        built,
        vec![
            (s("Accept"), s("*/*")),
            (s("X-B3-TraceId"), s("abc")),
            (s("content-length"), s("1234")),
            (s("content-type"), s("application/json")),
        ]
    );
    let prestripped = vec![(s("Accept"), s("*/*"))];
    assert_eq!(build_headers(&prestripped, &trace, &body), built);
    let unsized_body = Some(BodyInfo { content_type: s("text/plain"), content_length: None });
    assert_eq!(
        build_headers(&caller, &vec![], &unsized_body),
        vec![(s("Accept"), s("*/*")), (s("content-type"), s("text/plain"))]
    );
    assert_eq!(build_headers(&caller, &vec![], &None), vec![(s("Accept"), s("*/*"))]);
}

#[test]
fn content_length_zero() {
    let body = Some(BodyInfo { content_type: s("a/b"), content_length: Some(0) });
    assert_eq!(
        build_headers(&vec![], &vec![], &body),
        vec![(s("content-length"), s("0")), (s("content-type"), s("a/b"))]
    );
}

#[test]
fn proxy_rewrites() {
    let mut t = Target { scheme: s("http"), host: s("svc"), port: Some(8443) };
    let mut h = vec![(s("Accept"), s("*/*"))];
    apply_proxy(&ProxyConfig::Mesh { host: s("localhost"), port: 1234 }, &mut t, &mut h);
    assert_eq!(t.host, "localhost");
    assert_eq!(t.port, Some(1234));
    assert_eq!(t.scheme, "http");
    assert_eq!(h, vec![(s("Accept"), s("*/*")), (s("host"), s("svc:8443"))]);

    let mut t = target("svc");
    let mut h = vec![];
    apply_proxy(&ProxyConfig::Mesh { host: s("side"), port: 80 }, &mut t, &mut h);
    assert_eq!(h, vec![(s("host"), s("svc"))]);

    let mut t = target("svc");
    let mut h = vec![];
    apply_proxy(&ProxyConfig::Http { credentials: Some(s("Basic abc")) }, &mut t, &mut h);
    assert_eq!(h, vec![(s("proxy-authorization"), s("Basic abc"))]);
    assert_eq!(t.host, "svc");

    let mut t = Target { scheme: s("https"), host: s("svc"), port: None };
    let mut h = vec![];
    apply_proxy(&ProxyConfig::Http { credentials: Some(s("Basic abc")) }, &mut t, &mut h);
    assert!(h.is_empty());

    let mut t = target("svc");
    let mut h = vec![(s("A"), s("b"))];
    apply_proxy(&ProxyConfig::Direct, &mut t, &mut h);
    assert_eq!(h, vec![(s("A"), s("b"))]);
    assert_eq!(t.host, "svc");
}

#[test]
fn request_for_mesh_node() {
    let mut cfg = config(3, 10);
    cfg.proxy = ProxyConfig::Mesh { host: s("127.0.0.1"), port: 9000 };
    let mut req = request("GET", "/users/{id}", true);
    req.params = vec![(s("id"), vec![s("7")])];
    let state = State::new(req, cfg);
    let headers = state.new_headers(&vec![], &None);
    let prepared = state.new_request(headers, target("users.svc")).ok().unwrap();
    assert_eq!(prepared.target.host, "127.0.0.1");
    assert_eq!(prepared.target.port, Some(9000));
    assert_eq!(prepared.headers, vec![(s("host"), s("users.svc"))]);
    assert_eq!(prepared.path.segments, vec![s("users"), s("7")]);
}
