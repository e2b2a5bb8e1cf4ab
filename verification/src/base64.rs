//! Standard base64 with padding, as used by the Basic authentication scheme.

use vstd::prelude::*;
use crate::text::is_space;

verus! {

/// The base64 alphabet: the character for a six-bit value.
pub open spec fn sextet_char(n: u8) -> u8 {
    if n < 26 {
        (65 + n) as u8
    } else if n < 52 {
        (71 + n) as u8
    } else if n < 62 {
        (n - 4) as u8
    } else if n == 62 {
        43
    } else {
        47
    }
}

/// The four characters that encode the first group of `s`: three bytes, or
/// the one or two bytes that are left, padded with `=`.
pub open spec fn first_group(s: Seq<u8>) -> Seq<u8>
    recommends
        s.len() > 0,
{
    let a = s[0];
    if s.len() == 1 {
        seq![sextet_char(a / 4), sextet_char(((a % 4) * 16) as u8), 61u8, 61u8]
    } else {
        let b = s[1];
        if s.len() == 2 {
            seq![
                sextet_char(a / 4),
                sextet_char(((a % 4) * 16 + b / 16) as u8),
                sextet_char(((b % 16) * 4) as u8),
                61u8,
            ]
        } else {
            let c = s[2];
            seq![
                sextet_char(a / 4),
                sextet_char(((a % 4) * 16 + b / 16) as u8),
                sextet_char(((b % 16) * 4 + c / 64) as u8),
                sextet_char(c % 64),
            ]
        }
    }
}

/// The base64 encoding of `s`.
pub open spec fn base64_of(s: Seq<u8>) -> Seq<u8>
    decreases s.len(),
{
    if s.len() == 0 {
        Seq::<u8>::empty()
    } else if s.len() <= 3 {
        first_group(s)
    } else {
        first_group(s) + base64_of(s.skip(3))
    }
}

fn sextet(n: u8) -> (r: u8)
    requires
        n < 64,
    ensures
        r == sextet_char(n),
{
    if n < 26 {
        65 + n
    } else if n < 52 {
        71 + n
    } else if n < 62 {
        n - 4
    } else if n == 62 {
        43
    } else {
        47
    }
}

/// Encodes `s` in base64.
pub fn encode(s: &[u8]) -> (r: Vec<u8>)
    ensures
        r@ == base64_of(s@),
{
    let n: usize = s.len();
    let mut out: Vec<u8> = Vec::new();
    let mut i: usize = 0;
    proof {
        assert(s@.skip(0) =~= s@);
    }
    while n - i > 3
        invariant
            i <= n,
            n == s@.len(),
            out@ + base64_of(s@.skip(i as int)) == base64_of(s@),
        decreases n - i,
    {
        let a: u8 = s[i];
        let b: u8 = s[i + 1];
        let c: u8 = s[i + 2];
        let ghost before = out@;
        let ghost rest = s@.skip(i as int);
        out.push(sextet(a / 4));
        out.push(sextet((a % 4) * 16 + b / 16));
        out.push(sextet((b % 16) * 4 + c / 64));
        out.push(sextet(c % 64));
        proof {
            assert(rest.skip(3) =~= s@.skip(i + 3));
            assert(out@ =~= before + first_group(rest));
            assert(out@ + base64_of(rest.skip(3)) =~= before + base64_of(rest));
        }
        i += 3;
    }
    let ghost before = out@;
    let ghost rest = s@.skip(i as int);
    if n - i == 1 {
        let a: u8 = s[i];
        out.push(sextet(a / 4));
        out.push(sextet((a % 4) * 16));
        out.push(61);
        out.push(61);
    } else if n - i == 2 {
        let a: u8 = s[i];
        let b: u8 = s[i + 1];
        out.push(sextet(a / 4));
        out.push(sextet((a % 4) * 16 + b / 16));
        out.push(sextet((b % 16) * 4));
        out.push(61);
    } else if n - i == 3 {
        let a: u8 = s[i];
        let b: u8 = s[i + 1];
        let c: u8 = s[i + 2];
        out.push(sextet(a / 4));
        out.push(sextet((a % 4) * 16 + b / 16));
        out.push(sextet((b % 16) * 4 + c / 64));
        out.push(sextet(c % 64));
    }
    proof {
        assert(out@ =~= before + base64_of(rest));
    }
    out
}

/// An encoding holds no whitespace, and is empty only for empty input.
pub proof fn lemma_encoding_has_no_space(s: Seq<u8>)
    ensures
        forall|i: int| 0 <= i < base64_of(s).len() ==> !is_space(#[trigger] base64_of(s)[i]),
        s.len() > 0 ==> base64_of(s).len() >= 4,
    decreases s.len(),
{
    if s.len() > 3 {
        lemma_encoding_has_no_space(s.skip(3));
        assert(first_group(s).len() == 4);
        assert forall|i: int| 0 <= i < 4 implies !is_space(#[trigger] first_group(s)[i]) by {}
    } else if s.len() > 0 {
        assert(first_group(s).len() == 4);
        assert forall|i: int| 0 <= i < 4 implies !is_space(#[trigger] first_group(s)[i]) by {}
    }
}

/// The alphabet has no repeated character and does not hold the padding `=`.
pub proof fn lemma_alphabet_is_injective(m: u8, n: u8)
    requires
        m < 64,
        n < 64,
    ensures
        sextet_char(m) != 61,
        sextet_char(m) == sextet_char(n) ==> m == n,
{
}

/// Two byte strings with the same first group agree on the bytes that the
/// group encodes, and on how many of them there are.
pub proof fn lemma_first_group_is_injective(a: Seq<u8>, b: Seq<u8>)
    requires
        a.len() > 0,
        b.len() > 0,
        first_group(a) == first_group(b),
    ensures
        a[0] == b[0],
        a.len() == 1 <==> b.len() == 1,
        a.len() == 2 <==> b.len() == 2,
        a.len() >= 2 ==> a[1] == b[1],
        a.len() >= 3 ==> a[2] == b[2],
{
    let ga = first_group(a);
    let gb = first_group(b);
    assert(ga[0] == gb[0] && ga[1] == gb[1] && ga[2] == gb[2] && ga[3] == gb[3]);
    let a0 = a[0];
    let b0 = b[0];
    lemma_alphabet_is_injective(a0 / 4, b0 / 4);
    if a.len() == 1 {
        lemma_alphabet_is_injective(((a0 % 4) * 16) as u8, 0);
        if b.len() == 1 {
            lemma_alphabet_is_injective(((a0 % 4) * 16) as u8, ((b0 % 4) * 16) as u8);
        } else {
            let b1 = b[1];
            if b.len() == 2 {
                lemma_alphabet_is_injective(((b1 % 16) * 4) as u8, 0);
            } else {
                lemma_alphabet_is_injective(b[2] % 64, 0);
            }
        }
    } else {
        let a1 = a[1];
        if b.len() == 1 {
            if a.len() == 2 {
                lemma_alphabet_is_injective(((a1 % 16) * 4) as u8, 0);
            } else {
                lemma_alphabet_is_injective(a[2] % 64, 0);
            }
        } else {
            let b1 = b[1];
            lemma_alphabet_is_injective(
                ((a0 % 4) * 16 + a1 / 16) as u8,
                ((b0 % 4) * 16 + b1 / 16) as u8,
            );
            if a.len() == 2 {
                if b.len() == 2 {
                    lemma_alphabet_is_injective(((a1 % 16) * 4) as u8, ((b1 % 16) * 4) as u8);
                } else {
                    lemma_alphabet_is_injective(b[2] % 64, 0);
                }
            } else {
                let a2 = a[2];
                if b.len() == 2 {
                    lemma_alphabet_is_injective(a2 % 64, 0);
                } else {
                    let b2 = b[2];
                    lemma_alphabet_is_injective(
                        ((a1 % 16) * 4 + a2 / 64) as u8,
                        ((b1 % 16) * 4 + b2 / 64) as u8,
                    );
                    lemma_alphabet_is_injective(a2 % 64, b2 % 64);
                }
            }
        }
    }
}

/// Different byte strings have different encodings.
pub proof fn lemma_encoding_is_injective(a: Seq<u8>, b: Seq<u8>)
    requires
        base64_of(a) == base64_of(b),
    ensures
        a == b,
    decreases a.len(),
{
    lemma_encoding_has_no_space(a);
    lemma_encoding_has_no_space(b);
    if a.len() == 0 || b.len() == 0 {
        assert(base64_of(a).len() == 0 || base64_of(b).len() == 0);
        assert(a =~= b);
    } else {
        let ea = base64_of(a);
        let eb = base64_of(b);
        assert(first_group(a).len() == 4);
        assert(first_group(b).len() == 4);
        assert(ea.take(4) =~= first_group(a));
        assert(eb.take(4) =~= first_group(b));
        lemma_first_group_is_injective(a, b);
        if a.len() > 3 {
            lemma_encoding_has_no_space(a.skip(3));
            assert(ea.len() >= 8);
            assert(b.len() > 3);
            assert(ea.skip(4) =~= base64_of(a.skip(3)));
            assert(eb.skip(4) =~= base64_of(b.skip(3)));
            lemma_encoding_is_injective(a.skip(3), b.skip(3));
            assert forall|i: int| 0 <= i < a.len() implies a[i] == b[i] by {
                if i >= 3 {
                    assert(a[i] == a.skip(3)[i - 3]);
                    assert(b[i] == b.skip(3)[i - 3]);
                }
            }
            assert(a.len() == b.len()) by {
                assert(a.skip(3).len() == b.skip(3).len());
            }
            assert(a =~= b);
        } else {
            assert(ea.len() == 4);
            if b.len() > 3 {
                lemma_encoding_has_no_space(b.skip(3));
                assert(eb.len() >= 8);
            }
            assert(a =~= b);
        }
    }
}

} // verus!
