use relay_proxy::forward::{
    begin_forward, build_url, classify_method, forward_step, AttemptOutcome, ForwardAction, Method,
    Scheme,
};
use relay_proxy::response::response_503;

#[test]
fn classify_accepts_get_and_post_only() {
    assert_eq!(classify_method("GET"), Some(Method::Get));
    assert_eq!(classify_method("POST"), Some(Method::Post));
    assert_eq!(classify_method("PUT"), None);
    assert_eq!(classify_method("DELETE"), None);
    assert_eq!(classify_method("get"), None);
    assert_eq!(classify_method(""), None);
}

#[test]
fn urls_compose_scheme_host_and_path() {
    assert_eq!(build_url(Scheme::Https, "example.com", "a/b"), "https://example.com/a/b");
    assert_eq!(build_url(Scheme::Http, "example.com", ""), "http://example.com/");
}

#[test]
fn https_is_attempted_first() {
    let (state, action) = begin_forward("GET", "example.com", "data/file");
    assert!(!state.https_failed);
    match action {
        ForwardAction::Send(url) => assert_eq!(url, "https://example.com/data/file"),
        _ => panic!("expected a first attempt"),
    }
}

#[test]
fn unsupported_method_fails_without_attempt() {
    let (_, action) = begin_forward("PATCH", "example.com", "x");
    assert!(matches!(action, ForwardAction::Fail));
}

#[test]
fn http_only_origin_still_answers() {
    // the HTTPS attempt fails at the transport level; the HTTP retry
    // reaches the origin, and its response goes to the adapter
    let (state, _) = begin_forward("GET", "example.com", "x");
    let (state, action) = forward_step(state, AttemptOutcome::TransportFailure);
    match action {
        ForwardAction::Send(url) => assert_eq!(url, "http://example.com/x"),
        _ => panic!("expected an HTTP retry"),
    }
    let (_, action) = forward_step(state, AttemptOutcome::Response);
    assert!(matches!(action, ForwardAction::Adapt));
}

#[test]
fn origin_error_status_is_not_retried() {
    let (state, _) = begin_forward("GET", "example.com", "x");
    let (_, action) = forward_step(state, AttemptOutcome::Response);
    assert!(matches!(action, ForwardAction::Adapt));
}

#[test]
fn unreachable_origin_yields_503_with_body_503() {
    let (state, _) = begin_forward("GET", "example.com", "x");
    let (state, _) = forward_step(state, AttemptOutcome::TransportFailure);
    let (_, action) = forward_step(state, AttemptOutcome::TransportFailure);
    assert!(matches!(action, ForwardAction::Fail));
    let resp = response_503();
    assert_eq!(resp.status, 503);
    assert_eq!(resp.body, b"503".to_vec());
    assert!(resp.headers.is_empty());
}
