use vstd::prelude::*;
use vstd::utf8::valid_utf8;

use crate::headers::{copy_headers, filter_response_headers, response_pred};
use crate::response::ProxyResponse;
use crate::rewrite::{rewrite_body, rewritten, utf8_valid};

verus! {

/// Stream policy: the origin's status and every origin header pass through
/// one-to-one, names, values, casing and order as received. The body is not
/// buffered here: the driver forwards it chunk by chunk through
/// `stream_chunk`, so `body` stays empty.
pub fn adapt_streaming(status: u16, headers: &Vec<(String, String)>) -> (r: ProxyResponse)
    ensures
        r.status == status,
        r.headers@ == headers@,
        r.body@ == Seq::<u8>::empty(),
{
    ProxyResponse { status, headers: copy_headers(headers), body: Vec::new() }
}

/// Stream policy, per body chunk: the bytes pass through unchanged, in
/// arrival order, without re-chunking that would alter the total content.
pub fn stream_chunk(chunk: Vec<u8>) -> (r: Vec<u8>)
    ensures
        r@ == chunk@,
{
    chunk
}

/// Total bytes a chunked body delivers: the chunks concatenated in order.
pub open spec fn stream_total(chunks: Seq<Seq<u8>>) -> Seq<u8> {
    chunks.flatten()
}

/// Law: sending every chunk of an origin body through the stream policy's
/// per-chunk transform delivers exactly the origin's bytes. The transform
/// is pinned to the identity, so the delivered concatenation — and with it
/// a repeated download of the same stable body — is byte-identical to what
/// the origin sent.
pub proof fn lemma_stream_preserves_bytes(chunks: Seq<Seq<u8>>)
    ensures
        chunks.map_values(|c: Seq<u8>| c).flatten() == stream_total(chunks),
{
    assert(chunks.map_values(|c: Seq<u8>| c) =~~= chunks);
}

/// Law: the stream policy delivers a function of the origin's bytes alone.
/// Two downloads of the same stable body — even chunked differently by the
/// transport — deliver byte-identical streams, because nothing on the proxy
/// side mutates the content.
pub proof fn lemma_stream_idempotent(c1: Seq<Seq<u8>>, c2: Seq<Seq<u8>>)
    requires
        stream_total(c1) == stream_total(c2),
    ensures
        c1.map_values(|c: Seq<u8>| c).flatten() == c2.map_values(|c: Seq<u8>| c).flatten(),
{
    lemma_stream_preserves_bytes(c1);
    lemma_stream_preserves_bytes(c2);
}

/// Rewrite policy, applied once the whole origin body has been read:
/// `Content-Security-Policy` is dropped from the origin's headers; a body
/// that decodes as UTF-8 is rewritten around `host` — the requesting host,
/// port included — under the origin's own status; a body that does not
/// decode yields status 200 with an empty body, a deliberate leniency
/// distinct from transport failures.
pub fn adapt_buffered(
    status: u16,
    headers: &Vec<(String, String)>,
    body: &Vec<u8>,
    host: &Vec<u8>,
) -> (r: ProxyResponse)
    ensures
        r.headers@ == headers@.filter(response_pred()),
        valid_utf8(body@) ==> r.status == status && r.body@ == rewritten(body@, host@),
        !valid_utf8(body@) ==> r.status == 200 && r.body@ == Seq::<u8>::empty(),
{
    let hs = filter_response_headers(headers);
    if utf8_valid(body) {
        ProxyResponse { status, headers: hs, body: rewrite_body(body, host) }
    } else {
        ProxyResponse { status: 200, headers: hs, body: Vec::new() }
    }
}

/// Rewrite policy when the origin's body could not be read to the end
/// (transport failure mid-read): status 503 with an empty body.
pub fn rewrite_read_failure() -> (r: ProxyResponse)
    ensures
        r.status == 503,
        r.headers@ == Seq::<(String, String)>::empty(),
        r.body@ == Seq::<u8>::empty(),
{
    ProxyResponse { status: 503, headers: Vec::new(), body: Vec::new() }
}

} // verus!
