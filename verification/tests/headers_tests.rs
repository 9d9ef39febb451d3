use relay_proxy::headers::{copy_headers, filter_request_headers, filter_response_headers, host_of};

fn hs(v: &[(&str, &str)]) -> Vec<(String, String)> {
    v.iter().map(|(k, val)| (k.to_string(), val.to_string())).collect()
}

#[test]
fn request_filter_drops_host_and_accept_encoding() {
    let input = hs(&[
        ("Host", "proxy.local"),
        ("Accept", "text/html"),
        ("Accept-Encoding", "gzip"),
        ("X-Custom", "1"),
    ]);
    let out = filter_request_headers(&input);
    assert_eq!(out, hs(&[("Accept", "text/html"), ("X-Custom", "1")]));
}

#[test]
fn request_filter_matches_names_case_insensitively() {
    let input = hs(&[("hOsT", "a"), ("ACCEPT-encoding", "br"), ("accept", "x")]);
    let out = filter_request_headers(&input);
    assert_eq!(out, hs(&[("accept", "x")]));
}

#[test]
fn request_filter_keeps_order_and_duplicates() {
    let input = hs(&[("A", "1"), ("B", "2"), ("A", "3")]);
    let out = filter_request_headers(&input);
    assert_eq!(out, hs(&[("A", "1"), ("B", "2"), ("A", "3")]));
}

#[test]
fn response_filter_drops_content_security_policy() {
    let input = hs(&[
        ("Content-Type", "text/html"),
        ("content-security-policy", "default-src 'self'"),
        ("X-Marker", "kept"),
    ]);
    let out = filter_response_headers(&input);
    assert_eq!(out, hs(&[("Content-Type", "text/html"), ("X-Marker", "kept")]));
}

#[test]
fn host_is_the_first_host_header_value() {
    let input = hs(&[("Accept", "x"), ("host", "proxy.local:8080"), ("Host", "second")]);
    assert_eq!(host_of(&input), "proxy.local:8080");
}

#[test]
fn missing_host_header_reads_as_empty() {
    let input = hs(&[("Accept", "x")]);
    assert_eq!(host_of(&input), "");
}

#[test]
fn copied_headers_are_untouched() {
    let input = hs(&[("A", "1"), ("a", "2")]);
    assert_eq!(copy_headers(&input), input);
}
