use vstd::prelude::*;

verus! {

/// A fully formed reply to the inbound caller: status code, header pairs
/// (name, value) in order, and body bytes.
///
/// Under the stream policy the body is delivered chunk by chunk instead of
/// being materialized here; the adapter then leaves `body` empty and the
/// chunks flow through `crate::adapt::stream_chunk`.
pub struct ProxyResponse {
    pub status: u16,
    pub headers: Vec<(String, String)>,
    pub body: Vec<u8>,
}

/// The bytes of the fixed ASCII body `"503"`.
pub open spec fn body_503() -> Seq<u8> {
    seq![53u8, 48u8, 51u8]
}

/// The terminal failure reply: status 503, no headers, ASCII body `"503"`.
/// Produced when no origin could be reached or the method is unsupported.
pub fn response_503() -> (r: ProxyResponse)
    ensures
        r.status == 503,
        r.headers@ == Seq::<(String, String)>::empty(),
        r.body@ == body_503(),
{
    let mut body: Vec<u8> = Vec::new();
    body.push(53); // '5'
    body.push(48); // '0'
    body.push(51); // '3'
    proof {
        assert(body@ =~= body_503());
    }
    ProxyResponse { status: 503, headers: Vec::new(), body }
}

} // verus!
