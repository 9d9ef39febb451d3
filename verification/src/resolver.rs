use vstd::prelude::*;
use vstd::string::StrSliceExecFns;

verus! {

/// The origin named by the two captured path segments of an inbound
/// request.
pub struct Target {
    pub host: String,
    pub path: String,
}

/// The resolver takes both route captures verbatim: the first segment is
/// the origin host, the remainder is the path. No hostname validation and
/// no percent-decoding — a malformed host is left to fail at connect time.
pub fn resolve_target(domain: String, path: String) -> (r: Target)
    ensures
        r.host == domain,
        r.path == path,
{
    Target { host: domain, path }
}

/// Position of the first occurrence of `c` in `s`; `s.len()` when `c` does
/// not occur.
pub open spec fn find_char(s: Seq<char>, c: char) -> nat
    decreases s.len(),
{
    if s.len() == 0 {
        0
    } else if s[0] == c {
        0
    } else {
        1 + find_char(s.drop_first(), c)
    }
}

pub proof fn lemma_find_char(s: Seq<char>, c: char)
    ensures
        find_char(s, c) <= s.len(),
        find_char(s, c) < s.len() ==> s[find_char(s, c) as int] == c,
        forall|k: int| 0 <= k < find_char(s, c) ==> s[k] != c,
    decreases s.len(),
{
    if s.len() == 0 {
    } else if s[0] == c {
    } else {
        lemma_find_char(s.drop_first(), c);
        let f = find_char(s, c);
        assert forall|k: int| 0 <= k < f implies s[k] != c by {
            if k > 0 {
                assert(s.drop_first()[k - 1] == s[k]);
            }
        }
        if f < s.len() {
            assert(s.drop_first()[f - 1] == s[f as int]);
        }
    }
}

pub proof fn lemma_find_char_at(s: Seq<char>, c: char, i: int)
    requires
        0 <= i <= s.len(),
        i < s.len() ==> s[i] == c,
        forall|k: int| 0 <= k < i ==> s[k] != c,
    ensures
        find_char(s, c) == i,
    decreases s.len(),
{
    if s.len() == 0 {
    } else if s[0] == c {
    } else {
        assert(i > 0);
        assert forall|k: int| 0 <= k < i - 1 implies s.drop_first()[k] != c by {
            assert(s.drop_first()[k] == s[k + 1]);
        }
        if i - 1 < s.len() - 1 {
            assert(s.drop_first()[i - 1] == s[i]);
        }
        lemma_find_char_at(s.drop_first(), c, i - 1);
    }
}

/// One `&`-separated token of a query string: kept as the (key, value) pair
/// split at its first `=`, or dropped when it holds no `=` at all.
pub open spec fn token_pair(tok: Seq<char>) -> Option<(Seq<char>, Seq<char>)> {
    let e = find_char(tok, '=') as int;
    if e == tok.len() {
        None
    } else {
        Some((tok.take(e), tok.skip(e + 1)))
    }
}

/// The ordered (key, value) pairs of a raw query string: the string is
/// split on `&`, each token is split at its first `=`, and tokens without
/// an `=` are silently dropped. Nothing is URL-decoded or re-encoded: the
/// pairs are passed on as literal text.
pub open spec fn parse_query_spec(q: Seq<char>) -> Seq<(Seq<char>, Seq<char>)>
    decreases q.len(),
    via parse_query_spec_decreases
{
    let a = find_char(q, '&') as int;
    let head = if token_pair(q.take(a)) is Some {
        seq![token_pair(q.take(a)).unwrap()]
    } else {
        Seq::<(Seq<char>, Seq<char>)>::empty()
    };
    if a == q.len() {
        head
    } else {
        head + parse_query_spec(q.skip(a + 1))
    }
}

#[via_fn]
proof fn parse_query_spec_decreases(q: Seq<char>) {
    lemma_find_char(q, '&');
}

/// Parse a raw query string into its ordered (key, value) pairs. Parsing
/// never fails: malformed tokens are dropped, everything else is passed
/// through verbatim.
pub fn parse_query(q: &str) -> (r: Vec<(String, String)>)
    ensures
        r.deep_view() == parse_query_spec(q@),
{
    let n = q.unicode_len();
    let mut out: Vec<(String, String)> = Vec::new();
    let mut pos: usize = 0;
    let mut done: bool = false;
    proof {
        assert(q@.skip(0) =~= q@);
        assert(out.deep_view() =~= Seq::<(Seq<char>, Seq<char>)>::empty());
        assert(Seq::<(Seq<char>, Seq<char>)>::empty() + parse_query_spec(q@) =~= parse_query_spec(
            q@,
        ));
    }
    while !done
        invariant
            n == q@.len(),
            pos <= n,
            !done ==> parse_query_spec(q@) == out.deep_view() + parse_query_spec(
                q@.skip(pos as int),
            ),
            done ==> out.deep_view() == parse_query_spec(q@),
        decreases n - pos, (if done { 0int } else { 1int }),
    {
        // the current token ends at the next '&' or at the end of the string
        let mut amp: usize = pos;
        while amp < n && q.get_char(amp) != '&'
            invariant
                n == q@.len(),
                pos <= amp <= n,
                forall|k: int| pos <= k < amp ==> q@[k] != '&',
            decreases n - amp,
        {
            amp = amp + 1;
        }
        // the token splits at its first '='
        let mut eq: usize = pos;
        while eq < amp && q.get_char(eq) != '='
            invariant
                n == q@.len(),
                amp <= n,
                pos <= eq <= amp,
                forall|k: int| pos <= k < eq ==> q@[k] != '=',
            decreases amp - eq,
        {
            eq = eq + 1;
        }
        proof {
            let rest = q@.skip(pos as int);
            assert forall|k: int| 0 <= k < amp - pos implies rest[k] != '&' by {
                assert(rest[k] == q@[pos + k]);
            }
            if amp < n {
                assert(rest[amp - pos] == q@[amp as int]);
            }
            lemma_find_char_at(rest, '&', amp - pos);
            let tok = rest.take(amp - pos);
            assert(tok =~= q@.subrange(pos as int, amp as int));
            assert forall|k: int| 0 <= k < eq - pos implies tok[k] != '=' by {
                assert(tok[k] == q@[pos + k]);
            }
            if eq < amp {
                assert(tok[eq - pos] == q@[eq as int]);
            }
            lemma_find_char_at(tok, '=', eq - pos);
        }
        let ghost dv_prev = out.deep_view();
        let ghost rest = q@.skip(pos as int);
        let ghost tok = rest.take(amp - pos);
        if eq < amp {
            let key = q.substring_char(pos, eq).to_owned();
            let value = q.substring_char(eq + 1, amp).to_owned();
            proof {
                assert(key@ =~= tok.take(eq - pos));
                assert(value@ =~= tok.skip(eq - pos + 1));
            }
            out.push((key, value));
            proof {
                assert(token_pair(tok) == Some((key@, value@)));
                assert(out.deep_view() =~= dv_prev.push((key@, value@)));
                assert(dv_prev.push((key@, value@)) =~= dv_prev + seq![(key@, value@)]);
            }
        } else {
            proof {
                assert(token_pair(tok) is None);
                assert(dv_prev + Seq::<(Seq<char>, Seq<char>)>::empty() =~= dv_prev);
            }
        }
        proof {
            // unfold parse_query_spec on the unprocessed suffix
            let head = if token_pair(tok) is Some {
                seq![token_pair(tok).unwrap()]
            } else {
                Seq::<(Seq<char>, Seq<char>)>::empty()
            };
            assert(out.deep_view() =~= dv_prev + head);
            if amp == n {
                assert(parse_query_spec(rest) == head);
                assert(dv_prev + head =~= out.deep_view());
            } else {
                assert(rest.skip(amp - pos + 1) =~= q@.skip(amp + 1));
                assert(parse_query_spec(rest) == head + parse_query_spec(q@.skip(amp + 1)));
                assert((dv_prev + head) + parse_query_spec(q@.skip(amp + 1)) =~= dv_prev + (head
                    + parse_query_spec(q@.skip(amp + 1))));
            }
        }
        if amp == n {
            done = true;
        } else {
            pos = amp + 1;
        }
    }
    out
}

} // verus!
