use vstd::prelude::*;
use vstd::string::StrSliceExecFns;

verus! {

/// Character-for-character equality of two string slices.
pub fn str_eq(a: &str, b: &str) -> (r: bool)
    ensures
        r == (a@ == b@),
{
    let n = a.unicode_len();
    if n != b.unicode_len() {
        return false;
    }
    let mut i: usize = 0;
    while i < n
        invariant
            n == a@.len(),
            n == b@.len(),
            i <= n,
            forall|k: int| 0 <= k < i ==> a@[k] == b@[k],
        decreases n - i,
    {
        if a.get_char(i) != b.get_char(i) {
            return false;
        }
        i = i + 1;
    }
    proof {
        assert(a@ =~= b@);
    }
    true
}

/// Does `c` equal `t` up to ASCII case? `t` is the reference character and
/// is written in upper case where it is a letter.
pub open spec fn char_matches_upper(c: char, t: char) -> bool {
    c == t || ('A' <= t && t <= 'Z' && c as u32 == t as u32 + 32)
}

/// Does `name` equal `target` up to ASCII case? `target` is written in
/// upper case.
pub open spec fn matches_upper(name: Seq<char>, target: Seq<char>) -> bool {
    name.len() == target.len() && (forall|i: int|
        0 <= i < name.len() ==> char_matches_upper(name[i], target[i]))
}

fn char_match_upper(c: char, t: char) -> (r: bool)
    ensures
        r == char_matches_upper(c, t),
{
    c == t || ('A' <= t && t <= 'Z' && (c as u32) == (t as u32) + 32)
}

/// Does `name` equal the upper-case `target` up to ASCII case?
pub fn name_matches(name: &str, target: &str) -> (r: bool)
    ensures
        r == matches_upper(name@, target@),
{
    let n = name.unicode_len();
    if n != target.unicode_len() {
        return false;
    }
    let mut i: usize = 0;
    while i < n
        invariant
            n == name@.len(),
            n == target@.len(),
            i <= n,
            forall|k: int| 0 <= k < i ==> char_matches_upper(name@[k], target@[k]),
        decreases n - i,
    {
        if !char_match_upper(name.get_char(i), target.get_char(i)) {
            return false;
        }
        i = i + 1;
    }
    true
}

} // verus!
