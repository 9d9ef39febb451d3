use relay_proxy::adapt::{
    adapt_buffered, adapt_streaming, rewrite_read_failure, stream_chunk,
};
use relay_proxy::replace::replace_all;
use relay_proxy::rewrite::rewrite_body;

fn hs(v: &[(&str, &str)]) -> Vec<(String, String)> {
    v.iter().map(|(k, val)| (k.to_string(), val.to_string())).collect()
}

#[test]
fn replace_all_substitutes_every_occurrence() {
    let s = b"one two one".to_vec();
    let out = replace_all(&s, &b"one".to_vec(), &b"1".to_vec());
    assert_eq!(out, b"1 two 1".to_vec());
}

#[test]
fn replace_all_is_leftmost_and_non_overlapping() {
    let out = replace_all(&b"aaa".to_vec(), &b"aa".to_vec(), &b"b".to_vec());
    assert_eq!(out, b"ba".to_vec());
}

#[test]
fn replace_all_with_empty_pattern_changes_nothing() {
    let out = replace_all(&b"abc".to_vec(), &b"".to_vec(), &b"x".to_vec());
    assert_eq!(out, b"abc".to_vec());
}

#[test]
fn rewrite_routes_absolute_links_through_the_host() {
    let body = b"<a href=\"https://example.com\">".to_vec();
    let out = rewrite_body(&body, &b"proxy.local".to_vec());
    assert_eq!(out, b"<a href=\"https://proxy.local/example.com\">".to_vec());
}

#[test]
fn rewrite_covers_both_schemes() {
    let body = b"go https://a and http://b now".to_vec();
    let out = rewrite_body(&body, &b"p".to_vec());
    assert_eq!(out, b"go https://p/a and http://p/b now".to_vec());
}

#[test]
fn rewrite_is_not_boundary_aware() {
    // the substitution is a plain substring replace: prose mentioning a
    // scheme is rewritten too
    let body = b"read about https:// in a book".to_vec();
    let out = rewrite_body(&body, &b"h".to_vec());
    assert_eq!(out, b"read about https://h/ in a book".to_vec());
}

#[test]
fn rewrite_with_port_in_host() {
    let body = b"https://example.com/x".to_vec();
    let out = rewrite_body(&body, &b"proxy.local:8080".to_vec());
    assert_eq!(out, b"https://proxy.local:8080/example.com/x".to_vec());
}

#[test]
fn buffered_response_drops_csp_and_rewrites() {
    let headers = hs(&[
        ("Content-Type", "text/html"),
        ("Content-Security-Policy", "default-src 'none'"),
    ]);
    let body = b"<a href=\"https://example.com\">".to_vec();
    let r = adapt_buffered(200, &headers, &body, &b"proxy.local".to_vec());
    assert_eq!(r.status, 200);
    assert_eq!(r.headers, hs(&[("Content-Type", "text/html")]));
    assert_eq!(r.body, b"<a href=\"https://proxy.local/example.com\">".to_vec());
}

#[test]
fn buffered_response_passes_origin_status_through() {
    let r = adapt_buffered(404, &hs(&[]), &b"missing".to_vec(), &b"p".to_vec());
    assert_eq!(r.status, 404);
    assert_eq!(r.body, b"missing".to_vec());
}

#[test]
fn non_utf8_body_yields_200_with_empty_body() {
    let body = vec![0xffu8, 0xfe, 0x00, 0x80];
    let r = adapt_buffered(200, &hs(&[("X", "y")]), &body, &b"p".to_vec());
    assert_eq!(r.status, 200);
    assert!(r.body.is_empty());
    assert_eq!(r.headers, hs(&[("X", "y")]));
}

#[test]
fn failed_body_read_yields_503_with_empty_body() {
    let r = rewrite_read_failure();
    assert_eq!(r.status, 503);
    assert!(r.body.is_empty());
    assert!(r.headers.is_empty());
}

#[test]
fn streamed_chunks_concatenate_to_the_origin_bytes() {
    let chunks: Vec<Vec<u8>> = vec![
        vec![0u8, 1, 2, 255],
        vec![],
        vec![254, 7],
        vec![0u8; 4096],
    ];
    let mut delivered: Vec<u8> = Vec::new();
    for c in chunks.clone() {
        delivered.extend(stream_chunk(c));
    }
    let expected: Vec<u8> = chunks.concat();
    assert_eq!(delivered, expected);
}

#[test]
fn stream_response_preserves_origin_headers_and_status() {
    let headers = hs(&[("X-Marker", "abc"), ("Content-Length", "12")]);
    let r = adapt_streaming(206, &headers);
    assert_eq!(r.status, 206);
    assert_eq!(r.headers, headers);
    assert!(r.body.is_empty());
}

#[test]
fn repeated_stream_delivery_is_byte_identical() {
    let chunks: Vec<Vec<u8>> = vec![vec![9u8, 8, 7], vec![6u8, 5]];
    let mut first: Vec<u8> = Vec::new();
    let mut second: Vec<u8> = Vec::new();
    for c in chunks.clone() {
        first.extend(stream_chunk(c));
    }
    for c in chunks {
        second.extend(stream_chunk(c));
    }
    assert_eq!(first, second);
}
