use vstd::prelude::*;

verus! {

/// Substring replacement over bytes, scanning left to right: at the first
/// position where `pat` occurs, `rep` is emitted instead and the scan
/// resumes after the occurrence, so occurrences never overlap and bytes that
/// `rep` introduces are never rescanned within one pass. An empty pattern
/// matches nothing and leaves `s` unchanged.
pub open spec fn replace_seq(s: Seq<u8>, pat: Seq<u8>, rep: Seq<u8>) -> Seq<u8>
    decreases s.len(),
{
    if pat.len() == 0 || s.len() < pat.len() {
        s
    } else if s.take(pat.len() as int) == pat {
        rep + replace_seq(s.skip(pat.len() as int), pat, rep)
    } else {
        seq![s[0]] + replace_seq(s.skip(1), pat, rep)
    }
}

/// Append the bytes of `src` to `dst`.
pub fn append_bytes(dst: &mut Vec<u8>, src: &Vec<u8>)
    ensures
        final(dst)@ == old(dst)@ + src@,
{
    let mut j: usize = 0;
    while j < src.len()
        invariant
            j <= src@.len(),
            dst@ == old(dst)@ + src@.take(j as int),
        decreases src@.len() - j,
    {
        dst.push(src[j]);
        j = j + 1;
        proof {
            assert(dst@ =~= old(dst)@ + src@.take(j as int));
        }
    }
    proof {
        assert(old(dst)@ + src@.take(src@.len() as int) =~= old(dst)@ + src@);
    }
}

/// Does `pat` occur in `s` starting at position `i`?
fn match_at(s: &Vec<u8>, i: usize, pat: &Vec<u8>) -> (r: bool)
    requires
        i + pat@.len() <= s@.len(),
    ensures
        r == (s@.subrange(i as int, i + pat@.len()) == pat@),
{
    proof {
        // a Vec's length is a usize, so the indices below cannot overflow
        assert(s.len() <= usize::MAX);
    }
    let mut j: usize = 0;
    while j < pat.len()
        invariant
            i + pat@.len() <= s@.len(),
            s@.len() <= usize::MAX,
            j <= pat@.len(),
            forall|k: int| 0 <= k < j ==> s@[i + k] == pat@[k],
        decreases pat@.len() - j,
    {
        if s[i + j] != pat[j] {
            proof {
                assert(s@.subrange(i as int, i + pat@.len())[j as int] == s@[i + j]);
            }
            return false;
        }
        j = j + 1;
    }
    proof {
        assert(s@.subrange(i as int, i + pat@.len()) =~= pat@);
    }
    true
}

proof fn lemma_step_match(s: Seq<u8>, pat: Seq<u8>, rep: Seq<u8>, i: int)
    requires
        pat.len() > 0,
        0 <= i,
        i + pat.len() <= s.len(),
        s.subrange(i, i + pat.len()) == pat,
    ensures
        replace_seq(s.skip(i), pat, rep) == rep + replace_seq(s.skip(i + pat.len()), pat, rep),
{
    let t = s.skip(i);
    assert(t.take(pat.len() as int) =~= s.subrange(i, i + pat.len()));
    assert(t.skip(pat.len() as int) =~= s.skip(i + pat.len()));
}

proof fn lemma_step_no_match(s: Seq<u8>, pat: Seq<u8>, rep: Seq<u8>, i: int)
    requires
        pat.len() > 0,
        0 <= i < s.len(),
        i + pat.len() <= s.len() ==> s.subrange(i, i + pat.len()) != pat,
    ensures
        replace_seq(s.skip(i), pat, rep) == seq![s[i]] + replace_seq(s.skip(i + 1), pat, rep),
{
    let t = s.skip(i);
    assert(t[0] == s[i]);
    if t.len() < pat.len() {
        assert(replace_seq(t, pat, rep) == t);
        assert(s.skip(i + 1).len() < pat.len());
        assert(replace_seq(s.skip(i + 1), pat, rep) == s.skip(i + 1));
        assert(t =~= seq![s[i]] + s.skip(i + 1));
    } else {
        assert(t.take(pat.len() as int) =~= s.subrange(i, i + pat.len()));
        assert(t.skip(1) =~= s.skip(i + 1));
        assert(seq![t[0]] =~= seq![s[i]]);
    }
}

/// Replace every occurrence of `pat` in `s` by `rep`, leftmost first and
/// non-overlapping, exactly as `replace_seq` lays the result out.
pub fn replace_all(s: &Vec<u8>, pat: &Vec<u8>, rep: &Vec<u8>) -> (r: Vec<u8>)
    ensures
        r@ == replace_seq(s@, pat@, rep@),
{
    let mut out: Vec<u8> = Vec::new();
    if pat.len() == 0 {
        append_bytes(&mut out, s);
        proof {
            assert(out@ =~= s@);
        }
        return out;
    }
    let mut i: usize = 0;
    proof {
        assert(s@.skip(0) =~= s@);
        assert(out@ + replace_seq(s@, pat@, rep@) =~= replace_seq(s@, pat@, rep@));
    }
    while i < s.len()
        invariant
            pat@.len() > 0,
            i <= s@.len(),
            replace_seq(s@, pat@, rep@) == out@ + replace_seq(s@.skip(i as int), pat@, rep@),
        decreases s@.len() - i,
    {
        if pat.len() <= s.len() - i && match_at(s, i, pat) {
            proof {
                lemma_step_match(s@, pat@, rep@, i as int);
            }
            let ghost prev = out@;
            append_bytes(&mut out, rep);
            proof {
                assert(prev + (rep@ + replace_seq(s@.skip(i + pat@.len()), pat@, rep@)) =~= out@
                    + replace_seq(s@.skip(i + pat@.len()), pat@, rep@));
            }
            i = i + pat.len();
        } else {
            proof {
                lemma_step_no_match(s@, pat@, rep@, i as int);
            }
            let ghost prev = out@;
            out.push(s[i]);
            proof {
                assert(prev + (seq![s@[i as int]] + replace_seq(s@.skip(i + 1), pat@, rep@))
                    =~= out@ + replace_seq(s@.skip(i + 1), pat@, rep@));
            }
            i = i + 1;
        }
    }
    proof {
        assert(s@.skip(i as int) =~= Seq::<u8>::empty());
        assert(replace_seq(Seq::<u8>::empty(), pat@, rep@) == Seq::<u8>::empty());
        assert(out@ + Seq::<u8>::empty() =~= out@);
    }
    out
}

} // verus!
