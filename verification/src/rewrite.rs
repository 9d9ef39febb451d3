use vstd::prelude::*;
use vstd::utf8::{
    decode_first_codepoint, is_leading_byte_width_1, length_of_first_scalar, pop_first_scalar,
    valid_first_scalar, valid_utf8,
};

use crate::replace::{append_bytes, replace_all, replace_seq};

verus! {

/// The bytes of the literal `"https://"`.
pub open spec fn https_prefix() -> Seq<u8> {
    seq![104u8, 116u8, 116u8, 112u8, 115u8, 58u8, 47u8, 47u8]
}

/// The bytes of the literal `"http://"`.
pub open spec fn http_prefix() -> Seq<u8> {
    seq![104u8, 116u8, 116u8, 112u8, 58u8, 47u8, 47u8]
}

fn https_prefix_vec() -> (r: Vec<u8>)
    ensures
        r@ == https_prefix(),
{
    let mut v: Vec<u8> = Vec::new();
    v.push(104); // 'h'
    v.push(116); // 't'
    v.push(116); // 't'
    v.push(112); // 'p'
    v.push(115); // 's'
    v.push(58); // ':'
    v.push(47); // '/'
    v.push(47); // '/'
    proof {
        assert(v@ =~= https_prefix());
    }
    v
}

fn http_prefix_vec() -> (r: Vec<u8>)
    ensures
        r@ == http_prefix(),
{
    let mut v: Vec<u8> = Vec::new();
    v.push(104); // 'h'
    v.push(116); // 't'
    v.push(116); // 't'
    v.push(112); // 'p'
    v.push(58); // ':'
    v.push(47); // '/'
    v.push(47); // '/'
    proof {
        assert(v@ =~= http_prefix());
    }
    v
}

/// The rewrite policy's body transform, a plain substring substitution:
/// every `"https://"` becomes `"https://{host}/"`, then in that result every
/// `"http://"` becomes `"http://{host}/"`. It is deliberately not
/// URL-boundary-aware: prefixes inside unrelated text are rewritten too.
/// (The second pass cannot turn the first pass's `"https://"` markers into
/// rewrite sites of their own: after `"http"` comes an `'s'`.)
pub open spec fn rewritten(body: Seq<u8>, host: Seq<u8>) -> Seq<u8> {
    replace_seq(
        replace_seq(body, https_prefix(), https_prefix() + host + seq![47u8]),
        http_prefix(),
        http_prefix() + host + seq![47u8],
    )
}

/// Apply the rewrite policy's URL substitution to a buffered body, routing
/// absolute links back through `host`, the requesting host.
pub fn rewrite_body(body: &Vec<u8>, host: &Vec<u8>) -> (r: Vec<u8>)
    ensures
        r@ == rewritten(body@, host@),
{
    let https = https_prefix_vec();
    let http = http_prefix_vec();
    let mut https_rep = https_prefix_vec();
    append_bytes(&mut https_rep, host);
    https_rep.push(47); // '/'
    let mut http_rep = http_prefix_vec();
    append_bytes(&mut http_rep, host);
    http_rep.push(47); // '/'
    proof {
        assert(https_rep@ =~= https_prefix() + host@ + seq![47u8]);
        assert(http_rep@ =~= http_prefix() + host@ + seq![47u8]);
    }
    let pass1 = replace_all(body, &https, &https_rep);
    replace_all(&pass1, &http, &http_rep)
}

proof fn lemma_invalid_here(v: Seq<u8>, i: int)
    requires
        0 <= i < v.len(),
        valid_utf8(v) == valid_utf8(v.skip(i)),
        !valid_first_scalar(v.skip(i)),
    ensures
        !valid_utf8(v),
{
    assert(v.skip(i).len() > 0);
}

proof fn lemma_step_scalar(v: Seq<u8>, i: int, w: int)
    requires
        0 <= i < v.len(),
        valid_first_scalar(v.skip(i)),
        length_of_first_scalar(v.skip(i)) == w,
        i + w <= v.len(),
    ensures
        valid_utf8(v.skip(i)) == valid_utf8(v.skip(i + w)),
{
    assert(pop_first_scalar(v.skip(i)) =~= v.skip(i + w));
}

/// The rewrite policy's decode test: do the buffered bytes form valid
/// UTF-8? The scan mirrors the encoding rules scalar by scalar — leading
/// and continuation byte shapes, no overlong encodings, no surrogates.
pub fn utf8_valid(v: &Vec<u8>) -> (r: bool)
    ensures
        r == valid_utf8(v@),
{
    let n = v.len();
    let mut i: usize = 0;
    proof {
        assert(v@.skip(0) =~= v@);
    }
    while i < n
        invariant
            n == v@.len(),
            i <= n,
            valid_utf8(v@) == valid_utf8(v@.skip(i as int)),
        decreases n - i,
    {
        let ghost suf = v@.skip(i as int);
        proof {
            assert(suf.len() == n - i);
            assert(suf[0] == v@[i as int]);
        }
        let b0 = v[i];
        if b0 <= 0x7f {
            // one byte: the scalar is the byte itself
            proof {
                assert(is_leading_byte_width_1(suf[0]));
                assert(valid_first_scalar(suf));
                lemma_step_scalar(v@, i as int, 1);
            }
            i = i + 1;
        } else if 0xc0 <= b0 && b0 <= 0xdf {
            // two bytes: 110xxxxx 10xxxxxx, scalar at least 0x80
            if n - i >= 2 {
                let b1 = v[i + 1];
                proof {
                    assert(suf[1] == v@[i + 1]);
                }
                if 0x80 <= b1 && b1 <= 0xbf {
                    let cp: u32 = (((b0 & 0x1f) as u32) << 6u32) | ((b1 & 0x3f) as u32);
                    proof {
                        assert(decode_first_codepoint(suf) == cp);
                        // a two-byte scalar is below the surrogate range
                        assert(cp <= 0x7ff) by (bit_vector)
                            requires
                                cp == (((b0 & 0x1f) as u32) << 6u32) | ((b1 & 0x3f) as u32),
                        ;
                    }
                    if cp >= 0x80 {
                        proof {
                            assert(valid_first_scalar(suf));
                            lemma_step_scalar(v@, i as int, 2);
                        }
                        i = i + 2;
                    } else {
                        proof {
                            lemma_invalid_here(v@, i as int);
                        }
                        return false;
                    }
                } else {
                    proof {
                        lemma_invalid_here(v@, i as int);
                    }
                    return false;
                }
            } else {
                proof {
                    lemma_invalid_here(v@, i as int);
                }
                return false;
            }
        } else if 0xe0 <= b0 && b0 <= 0xef {
            // three bytes: 1110xxxx 10xxxxxx 10xxxxxx, scalar at least
            // 0x800 and outside the surrogate range
            if n - i >= 3 {
                let b1 = v[i + 1];
                let b2 = v[i + 2];
                proof {
                    assert(suf[1] == v@[i + 1]);
                    assert(suf[2] == v@[i + 2]);
                }
                if 0x80 <= b1 && b1 <= 0xbf && 0x80 <= b2 && b2 <= 0xbf {
                    let cp: u32 = (((b0 & 0x0f) as u32) << 12u32) | (((b1 & 0x3f) as u32) << 6u32)
                        | ((b2 & 0x3f) as u32);
                    proof {
                        assert(decode_first_codepoint(suf) == cp);
                    }
                    if cp >= 0x800 && !(0xd800 <= cp && cp <= 0xdfff) {
                        proof {
                            assert(valid_first_scalar(suf));
                            lemma_step_scalar(v@, i as int, 3);
                        }
                        i = i + 3;
                    } else {
                        proof {
                            lemma_invalid_here(v@, i as int);
                        }
                        return false;
                    }
                } else {
                    proof {
                        lemma_invalid_here(v@, i as int);
                    }
                    return false;
                }
            } else {
                proof {
                    lemma_invalid_here(v@, i as int);
                }
                return false;
            }
        } else if 0xf0 <= b0 && b0 <= 0xf7 {
            // four bytes: 11110xxx 10xxxxxx 10xxxxxx 10xxxxxx, scalar in
            // 0x10000 ..= 0x10ffff
            if n - i >= 4 {
                let b1 = v[i + 1];
                let b2 = v[i + 2];
                let b3 = v[i + 3];
                proof {
                    assert(suf[1] == v@[i + 1]);
                    assert(suf[2] == v@[i + 2]);
                    assert(suf[3] == v@[i + 3]);
                }
                if 0x80 <= b1 && b1 <= 0xbf && 0x80 <= b2 && b2 <= 0xbf && 0x80 <= b3 && b3
                    <= 0xbf {
                    let cp: u32 = (((b0 & 0x07) as u32) << 18u32) | (((b1 & 0x3f) as u32)
                        << 12u32) | (((b2 & 0x3f) as u32) << 6u32) | ((b3 & 0x3f) as u32);
                    proof {
                        assert(decode_first_codepoint(suf) == cp);
                    }
                    if 0x10000 <= cp && cp <= 0x10ffff {
                        proof {
                            assert(valid_first_scalar(suf));
                            lemma_step_scalar(v@, i as int, 4);
                        }
                        i = i + 4;
                    } else {
                        proof {
                            lemma_invalid_here(v@, i as int);
                        }
                        return false;
                    }
                } else {
                    proof {
                        lemma_invalid_here(v@, i as int);
                    }
                    return false;
                }
            } else {
                proof {
                    lemma_invalid_here(v@, i as int);
                }
                return false;
            }
        } else {
            // a bare continuation byte or an out-of-range leading byte
            proof {
                lemma_invalid_here(v@, i as int);
            }
            return false;
        }
    }
    proof {
        assert(v@.skip(n as int) =~= Seq::<u8>::empty());
    }
    true
}

} // verus!
