use vstd::prelude::*;
use vstd::string::StringExecFns;

use crate::text::str_eq;

verus! {

/// Outbound scheme of one attempt.
#[derive(Clone, Copy, PartialEq, Eq, Structural, Debug)]
pub enum Scheme {
    Https,
    Http,
}

/// The inbound methods the engine forwards; everything else is refused.
#[derive(Clone, Copy, PartialEq, Eq, Structural, Debug)]
pub enum Method {
    Get,
    Post,
}

/// GET and POST map to themselves; any other method name is refused before
/// any network attempt is made.
pub open spec fn spec_classify(m: Seq<char>) -> Option<Method> {
    if m == "GET"@ {
        Some(Method::Get)
    } else if m == "POST"@ {
        Some(Method::Post)
    } else {
        None
    }
}

/// Classify the inbound method name, exactly as written on the wire.
pub fn classify_method(m: &str) -> (r: Option<Method>)
    ensures
        r == spec_classify(m@),
{
    if str_eq(m, "GET") {
        Some(Method::Get)
    } else if str_eq(m, "POST") {
        Some(Method::Post)
    } else {
        None
    }
}

/// The characters of the fully composed target URL of one attempt:
/// `scheme://host/path`.
pub open spec fn url_chars(scheme: Scheme, host: Seq<char>, path: Seq<char>) -> Seq<char> {
    (if scheme is Https {
        "https://"@
    } else {
        "http://"@
    }) + host + "/"@ + path
}

/// Compose the target URL for one attempt against `host` and `path`.
pub fn build_url(scheme: Scheme, host: &str, path: &str) -> (r: String)
    ensures
        r@ == url_chars(scheme, host@, path@),
{
    let mut url: String = match scheme {
        Scheme::Https => String::from_str("https://"),
        Scheme::Http => String::from_str("http://"),
    };
    url.append(host);
    url.append("/");
    url.append(path);
    proof {
        assert(url@ =~= url_chars(scheme, host@, path@));
    }
    url
}

/// Where the scheme-fallback loop stands for one inbound request.
pub struct ForwardState {
    pub host: String,
    pub path: String,
    pub https_failed: bool,
}

/// What the driver of one inbound request must do next.
#[derive(Debug)]
pub enum ForwardAction {
    /// Issue the outbound request to this URL.
    Send(String),
    /// A response arrived: hand it to the response adapter.
    Adapt,
    /// Give up and reply with the fixed 503 response.
    Fail,
}

/// The transport-level outcome of one outbound attempt. A received HTTP
/// error status is still `Response`: only failures that prevent the
/// exchange itself — DNS, connect, TLS, timeout — count as
/// `TransportFailure`, and only those are retried.
#[derive(Clone, Copy, PartialEq, Eq, Structural, Debug)]
pub enum AttemptOutcome {
    Response,
    TransportFailure,
}

/// Everything one fallback step guarantees, as a relation from (state,
/// outcome) to (next state, action): a received response goes to the
/// adapter untouched; the first transport failure retries exactly once over
/// plain HTTP against the same host and path; a transport failure once
/// HTTPS has already failed gives up.
pub open spec fn step_spec(
    state: ForwardState,
    outcome: AttemptOutcome,
    next: ForwardState,
    action: ForwardAction,
) -> bool {
    &&& next.host@ == state.host@
    &&& next.path@ == state.path@
    &&& outcome is Response ==> action is Adapt && next.https_failed == state.https_failed
    &&& outcome is TransportFailure && !state.https_failed ==> action is Send
        && action->Send_0@ == url_chars(Scheme::Http, state.host@, state.path@)
        && next.https_failed
    &&& outcome is TransportFailure && state.https_failed ==> action is Fail
}

/// The first decision for an inbound request: refuse any method other than
/// GET or POST outright, with no network attempt; otherwise attempt HTTPS
/// first.
pub fn begin_forward(method: &str, host: &str, path: &str) -> (r: (ForwardState, ForwardAction))
    ensures
        r.0.host@ == host@,
        r.0.path@ == path@,
        !r.0.https_failed,
        spec_classify(method@) is None ==> r.1 is Fail,
        spec_classify(method@) is Some ==> r.1 is Send && r.1->Send_0@ == url_chars(
            Scheme::Https,
            host@,
            path@,
        ),
{
    let state = ForwardState {
        host: String::from_str(host),
        path: String::from_str(path),
        https_failed: false,
    };
    if classify_method(method).is_none() {
        (state, ForwardAction::Fail)
    } else {
        let url = build_url(Scheme::Https, host, path);
        (state, ForwardAction::Send(url))
    }
}

/// One step of the scheme-fallback loop, from the outcome of the attempt
/// the driver just made.
pub fn forward_step(state: ForwardState, outcome: AttemptOutcome) -> (r: (
    ForwardState,
    ForwardAction,
))
    ensures
        step_spec(state, outcome, r.0, r.1),
{
    match outcome {
        AttemptOutcome::Response => (state, ForwardAction::Adapt),
        AttemptOutcome::TransportFailure => {
            if !state.https_failed {
                let url = build_url(Scheme::Http, state.host.as_str(), state.path.as_str());
                let next = ForwardState {
                    host: state.host,
                    path: state.path,
                    https_failed: true,
                };
                (next, ForwardAction::Send(url))
            } else {
                (state, ForwardAction::Fail)
            }
        },
    }
}

/// Law: at most two attempts are ever made for one inbound request. Once
/// the HTTPS attempt has failed, no step sends again: whatever the next
/// outcome is, it either goes to the adapter or ends in the fixed 503.
pub proof fn lemma_no_third_attempt(
    state: ForwardState,
    outcome: AttemptOutcome,
    next: ForwardState,
    action: ForwardAction,
)
    requires
        state.https_failed,
        step_spec(state, outcome, next, action),
    ensures
        !(action is Send),
{
}

/// Law: when the HTTPS attempt fails at the transport level and the plain
/// HTTP retry yields a response, that response is handed to the adapter:
/// an origin reachable only over HTTP still gets its reply through, against
/// the same host and path.
pub proof fn lemma_http_fallback_delivers(
    s0: ForwardState,
    s1: ForwardState,
    a1: ForwardAction,
    s2: ForwardState,
    a2: ForwardAction,
)
    requires
        !s0.https_failed,
        step_spec(s0, AttemptOutcome::TransportFailure, s1, a1),
        step_spec(s1, AttemptOutcome::Response, s2, a2),
    ensures
        a1 is Send && a1->Send_0@ == url_chars(Scheme::Http, s0.host@, s0.path@),
        a2 is Adapt,
{
}

/// Law: when both the HTTPS attempt and the HTTP retry fail at the
/// transport level, the exchange ends in `Fail`; the reply the driver owes
/// for `Fail` is `response_503`, status 503 with body `"503"`.
pub proof fn lemma_double_failure_fails(
    s0: ForwardState,
    s1: ForwardState,
    a1: ForwardAction,
    s2: ForwardState,
    a2: ForwardAction,
)
    requires
        !s0.https_failed,
        step_spec(s0, AttemptOutcome::TransportFailure, s1, a1),
        step_spec(s1, AttemptOutcome::TransportFailure, s2, a2),
    ensures
        a2 is Fail,
{
}

} // verus!
