use vstd::prelude::*;

use crate::text::{matches_upper, name_matches};

verus! {

/// Does an inbound request header named `name` survive the outbound filter?
/// `Host` must be replaced by the transport addressing the new target, and
/// `Accept-Encoding` is dropped so the origin sends identity encoding that
/// the rewrite policy can operate on. Names match case-insensitively.
pub open spec fn request_header_kept(name: Seq<char>) -> bool {
    !matches_upper(name, "HOST"@) && !matches_upper(name, "ACCEPT-ENCODING"@)
}

/// Does an origin response header named `name` survive the rewrite policy's
/// filter? `Content-Security-Policy` is dropped: it would keep the client
/// from rendering the rewritten content against a different apparent origin.
pub open spec fn response_header_kept(name: Seq<char>) -> bool {
    !matches_upper(name, "CONTENT-SECURITY-POLICY"@)
}

/// The outbound request-header filter as a predicate on (name, value) pairs.
pub open spec fn request_pred() -> spec_fn((String, String)) -> bool {
    |h: (String, String)| request_header_kept(h.0@)
}

/// The rewrite policy's response-header filter as a predicate on pairs.
pub open spec fn response_pred() -> spec_fn((String, String)) -> bool {
    |h: (String, String)| response_header_kept(h.0@)
}

/// The outbound header set: every inbound header in order, duplicates
/// preserved, except `Host` and `Accept-Encoding`.
pub fn filter_request_headers(headers: &Vec<(String, String)>) -> (r: Vec<(String, String)>)
    ensures
        r@ == headers@.filter(request_pred()),
{
    let mut out: Vec<(String, String)> = Vec::new();
    let mut i: usize = 0;
    proof {
        assert(headers@.take(0) =~= Seq::<(String, String)>::empty());
        assert(Seq::<(String, String)>::empty().filter(request_pred())
            =~= Seq::<(String, String)>::empty());
    }
    while i < headers.len()
        invariant
            i <= headers@.len(),
            out@ == headers@.take(i as int).filter(request_pred()),
        decreases headers@.len() - i,
    {
        let ghost h = headers@[i as int];
        let keep = !name_matches(headers[i].0.as_str(), "HOST") && !name_matches(
            headers[i].0.as_str(),
            "ACCEPT-ENCODING",
        );
        proof {
            broadcast use vstd::seq_lib::group_filter_ensures;

            assert(keep == request_pred()(h));
            assert(headers@.take(i + 1) =~= headers@.take(i as int).push(h));
            headers@.take(i as int).lemma_filter_push(h, request_pred());
        }
        if keep {
            let name = headers[i].0.clone();
            let value = headers[i].1.clone();
            proof {
                assert((name, value) == h);
            }
            out.push((name, value));
        }
        i = i + 1;
    }
    proof {
        assert(headers@.take(headers@.len() as int) =~= headers@);
    }
    out
}

/// The rewrite policy's response header set: every origin header in order,
/// duplicates preserved, except `Content-Security-Policy`.
pub fn filter_response_headers(headers: &Vec<(String, String)>) -> (r: Vec<(String, String)>)
    ensures
        r@ == headers@.filter(response_pred()),
{
    let mut out: Vec<(String, String)> = Vec::new();
    let mut i: usize = 0;
    proof {
        assert(headers@.take(0) =~= Seq::<(String, String)>::empty());
        assert(Seq::<(String, String)>::empty().filter(response_pred())
            =~= Seq::<(String, String)>::empty());
    }
    while i < headers.len()
        invariant
            i <= headers@.len(),
            out@ == headers@.take(i as int).filter(response_pred()),
        decreases headers@.len() - i,
    {
        let ghost h = headers@[i as int];
        let keep = !name_matches(headers[i].0.as_str(), "CONTENT-SECURITY-POLICY");
        proof {
            broadcast use vstd::seq_lib::group_filter_ensures;

            assert(keep == response_pred()(h));
            assert(headers@.take(i + 1) =~= headers@.take(i as int).push(h));
            headers@.take(i as int).lemma_filter_push(h, response_pred());
        }
        if keep {
            let name = headers[i].0.clone();
            let value = headers[i].1.clone();
            proof {
                assert((name, value) == h);
            }
            out.push((name, value));
        }
        i = i + 1;
    }
    proof {
        assert(headers@.take(headers@.len() as int) =~= headers@);
    }
    out
}

/// Law: no header named `Content-Security-Policy`, in any casing, survives
/// the rewrite policy's header filter.
pub proof fn lemma_csp_absent(headers: Seq<(String, String)>)
    ensures
        forall|i: int|
            0 <= i < headers.filter(response_pred()).len()
                ==> !matches_upper(#[trigger] headers.filter(response_pred())[i].0@,
            "CONTENT-SECURITY-POLICY"@),
{
    broadcast use vstd::seq_lib::group_filter_ensures;

    assert forall|i: int| 0 <= i < headers.filter(response_pred()).len() implies !matches_upper(
        #[trigger] headers.filter(response_pred())[i].0@,
        "CONTENT-SECURITY-POLICY"@,
    ) by {
        assert(response_pred()(headers.filter(response_pred())[i]));
    }
}

/// A plain copy of a header list, name and value of every pair preserved.
pub fn copy_headers(headers: &Vec<(String, String)>) -> (r: Vec<(String, String)>)
    ensures
        r@ == headers@,
{
    let mut out: Vec<(String, String)> = Vec::new();
    let mut i: usize = 0;
    while i < headers.len()
        invariant
            i <= headers@.len(),
            out@ == headers@.take(i as int),
        decreases headers@.len() - i,
    {
        let name = headers[i].0.clone();
        let value = headers[i].1.clone();
        proof {
            assert((name, value) == headers@[i as int]);
        }
        out.push((name, value));
        proof {
            assert(headers@.take(i + 1) =~= headers@.take(i as int).push(headers@[i as int]));
        }
        i = i + 1;
    }
    proof {
        assert(headers@.take(headers@.len() as int) =~= headers@);
    }
    out
}

/// The view of the first header whose name is `Host` in any casing; the
/// empty string when there is none.
pub open spec fn spec_host(headers: Seq<(String, String)>) -> Seq<char>
    decreases headers.len(),
{
    if headers.len() == 0 {
        Seq::empty()
    } else if matches_upper(headers[0].0@, "HOST"@) {
        headers[0].1@
    } else {
        spec_host(headers.drop_first())
    }
}

/// The requesting host: the value of the first `Host` header of the inbound
/// request, or the empty string when none is present.
pub fn host_of(headers: &Vec<(String, String)>) -> (r: String)
    ensures
        r@ == spec_host(headers@),
{
    let mut i: usize = 0;
    proof {
        assert(headers@.skip(0) =~= headers@);
    }
    while i < headers.len()
        invariant
            i <= headers@.len(),
            spec_host(headers@) == spec_host(headers@.skip(i as int)),
        decreases headers@.len() - i,
    {
        if name_matches(headers[i].0.as_str(), "HOST") {
            proof {
                assert(headers@.skip(i as int)[0] == headers@[i as int]);
            }
            return headers[i].1.clone();
        }
        proof {
            assert(headers@.skip(i as int)[0] == headers@[i as int]);
            assert(headers@.skip(i as int).drop_first() =~= headers@.skip(i + 1));
        }
        i = i + 1;
    }
    proof {
        assert(headers@.skip(i as int) =~= Seq::<(String, String)>::empty());
    }
    String::new()
}

} // verus!
