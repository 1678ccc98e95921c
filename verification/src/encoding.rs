//! The fixed text encoding of public keys: standard base64 with padding.
//!
//! `base64_spec` states the encoding exactly, byte for byte; the one call
//! into the base64 crate is proved against it.  A verified decoder and an
//! injectivity lemma give the round-trip law.

use vstd::prelude::*;

verus! {

/// The padding byte `'='`.
pub const PAD_BYTE: u8 = 61;

/// The ASCII byte that the standard alphabet assigns to a 6-bit value.
pub open spec fn b64_char(v: int) -> u8
    recommends
        0 <= v < 64,
{
    if v < 26 {
        (65 + v) as u8 // 'A'..='Z'
    } else if v < 52 {
        (97 + (v - 26)) as u8 // 'a'..='z'
    } else if v < 62 {
        (48 + (v - 52)) as u8 // '0'..='9'
    } else if v == 62 {
        43u8 // '+'
    } else {
        47u8 // '/'
    }
}

/// The 6-bit value of an alphabet byte, or -1 where the byte is not in the
/// alphabet.
pub open spec fn b64_value(c: u8) -> int {
    if 65 <= c <= 90 {
        c - 65
    } else if 97 <= c <= 122 {
        c - 97 + 26
    } else if 48 <= c <= 57 {
        c - 48 + 52
    } else if c == 43 {
        62
    } else if c == 47 {
        63
    } else {
        -1
    }
}

/// Whether a byte belongs to the encoding alphabet (padding excluded).
pub open spec fn is_b64_byte(c: u8) -> bool {
    b64_value(c) >= 0
}

/// The four alphabet bytes encoding one whole three-byte group.
pub open spec fn b64_group(b0: u8, b1: u8, b2: u8) -> Seq<u8> {
    seq![
        b64_char(b0 as int / 4),
        b64_char((b0 as int % 4) * 16 + b1 as int / 16),
        b64_char((b1 as int % 16) * 4 + b2 as int / 64),
        b64_char(b2 as int % 64),
    ]
}

/// Standard base64 with padding, as a function of the input bytes: four
/// output bytes for every three input bytes, `'='` filling a short tail.
pub open spec fn base64_spec(s: Seq<u8>) -> Seq<u8>
    decreases s.len(),
{
    if s.len() >= 3 {
        b64_group(s[0], s[1], s[2]) + base64_spec(s.skip(3))
    } else if s.len() == 2 {
        seq![
            b64_char(s[0] as int / 4),
            b64_char((s[0] as int % 4) * 16 + s[1] as int / 16),
            b64_char((s[1] as int % 16) * 4),
            PAD_BYTE,
        ]
    } else if s.len() == 1 {
        seq![
            b64_char(s[0] as int / 4),
            b64_char((s[0] as int % 4) * 16),
            PAD_BYTE,
            PAD_BYTE,
        ]
    } else {
        Seq::empty()
    }
}

/// Relies on the base64 crate's standard-alphabet, padded encoder
/// (`engine::general_purpose::STANDARD`), which renders the input bytes
/// exactly as `base64_spec` states.
#[verifier::external_body]
pub fn base64_encode(b: &Vec<u8>) -> (r: Vec<u8>)
    ensures
        r@ == base64_spec(b@),
{
    base64::Engine::encode(&base64::engine::general_purpose::STANDARD, b.as_slice()).into_bytes()
}

/// The alphabet byte of a 6-bit value decodes back to that value, is in the
/// alphabet, and is never the padding byte.
pub proof fn lemma_b64_char_inverse(v: int)
    requires
        0 <= v < 64,
    ensures
        b64_value(b64_char(v)) == v,
        is_b64_byte(b64_char(v)),
        b64_char(v) != PAD_BYTE,
{
}

/// Encoding a sequence that starts with whole three-byte groups encodes the
/// groups and the tail independently.
pub proof fn lemma_base64_append(s: Seq<u8>, t: Seq<u8>)
    requires
        s.len() % 3 == 0,
    ensures
        base64_spec(s + t) == base64_spec(s) + base64_spec(t),
    decreases s.len(),
{
    if s.len() == 0 {
        assert(s + t =~= t);
        assert(base64_spec(s) + base64_spec(t) =~= base64_spec(t));
    } else {
        assert((s + t).skip(3) =~= s.skip(3) + t);
        lemma_base64_append(s.skip(3), t);
        assert(base64_spec(s + t) =~= base64_spec(s) + base64_spec(t));
    }
}

/// Every byte of an encoding is ASCII: either an alphabet byte or padding.
pub proof fn lemma_base64_ascii(s: Seq<u8>)
    ensures
        forall|i: int|
            0 <= i < base64_spec(s).len() ==> (#[trigger] base64_spec(s)[i]) < 128,
    decreases s.len(),
{
    if s.len() >= 3 {
        lemma_base64_ascii(s.skip(3));
        assert forall|i: int| 0 <= i < base64_spec(s).len() implies (#[trigger] base64_spec(
            s,
        )[i]) < 128 by {
            if i >= 4 {
                assert(base64_spec(s)[i] == base64_spec(s.skip(3))[i - 4]);
            }
        }
    }
}

/// The encoding of 32 bytes is 44 bytes long: the first 43 are alphabet
/// bytes, the 43rd has a 6-bit value divisible by four, and the last is
/// padding.
pub proof fn lemma_base64_shape_32(s: Seq<u8>)
    requires
        s.len() == 32,
    ensures
        base64_spec(s).len() == 44,
        forall|i: int| 0 <= i < 43 ==> is_b64_byte(#[trigger] base64_spec(s)[i]),
        b64_value(base64_spec(s)[42]) % 4 == 0,
        base64_spec(s)[43] == PAD_BYTE,
{
    lemma_base64_shape_rec(s);
}

/// The shape of an encoding of any input two bytes past a group boundary.
proof fn lemma_base64_shape_rec(s: Seq<u8>)
    requires
        s.len() % 3 == 2,
    ensures
        base64_spec(s).len() == (s.len() / 3) * 4 + 4,
        forall|i: int|
            0 <= i < base64_spec(s).len() - 2 ==> is_b64_byte(#[trigger] base64_spec(s)[i]),
        b64_value(base64_spec(s)[base64_spec(s).len() - 2]) % 4 == 0,
        base64_spec(s)[base64_spec(s).len() - 1] == PAD_BYTE,
    decreases s.len(),
{
    if s.len() == 2 {
        lemma_b64_char_inverse(s[0] as int / 4);
        lemma_b64_char_inverse((s[0] as int % 4) * 16 + s[1] as int / 16);
        lemma_b64_char_inverse((s[1] as int % 16) * 4);
    } else {
        lemma_base64_shape_rec(s.skip(3));
        lemma_b64_char_inverse(s[0] as int / 4);
        lemma_b64_char_inverse((s[0] as int % 4) * 16 + s[1] as int / 16);
        lemma_b64_char_inverse((s[1] as int % 16) * 4 + s[2] as int / 64);
        lemma_b64_char_inverse(s[2] as int % 64);
        assert forall|i: int| 0 <= i < base64_spec(s).len() - 2 implies is_b64_byte(
            #[trigger] base64_spec(s)[i],
        ) by {
            if i >= 4 {
                assert(base64_spec(s)[i] == base64_spec(s.skip(3))[i - 4]);
            }
        }
        assert(base64_spec(s)[base64_spec(s).len() - 2] == base64_spec(s.skip(3))[base64_spec(
            s.skip(3),
        ).len() - 2]);
        assert(base64_spec(s)[base64_spec(s).len() - 1] == base64_spec(s.skip(3))[base64_spec(
            s.skip(3),
        ).len() - 1]);
    }
}

/// Encoding is injective: two inputs of equal length with the same encoding
/// are the same bytes.
pub proof fn lemma_base64_injective(a: Seq<u8>, b: Seq<u8>)
    requires
        a.len() == b.len(),
        base64_spec(a) == base64_spec(b),
    ensures
        a == b,
    decreases a.len(),
{
    let ea = base64_spec(a);
    let eb = base64_spec(b);
    if a.len() == 1 {
        assert(ea[0] == b64_char(a[0] as int / 4) && ea[1] == b64_char((a[0] as int % 4) * 16));
        assert(eb[0] == b64_char(b[0] as int / 4) && eb[1] == b64_char((b[0] as int % 4) * 16));
        lemma_b64_chars_equal(a[0] as int / 4, b[0] as int / 4);
        lemma_b64_chars_equal((a[0] as int % 4) * 16, (b[0] as int % 4) * 16);
        assert(a =~= b);
    } else if a.len() == 2 {
        assert(ea[0] == b64_char(a[0] as int / 4) && ea[1] == b64_char(
            (a[0] as int % 4) * 16 + a[1] as int / 16,
        ) && ea[2] == b64_char((a[1] as int % 16) * 4));
        assert(eb[0] == b64_char(b[0] as int / 4) && eb[1] == b64_char(
            (b[0] as int % 4) * 16 + b[1] as int / 16,
        ) && eb[2] == b64_char((b[1] as int % 16) * 4));
        lemma_b64_chars_equal(a[0] as int / 4, b[0] as int / 4);
        lemma_b64_chars_equal(
            (a[0] as int % 4) * 16 + a[1] as int / 16,
            (b[0] as int % 4) * 16 + b[1] as int / 16,
        );
        lemma_b64_chars_equal((a[1] as int % 16) * 4, (b[1] as int % 16) * 4);
        assert(a =~= b);
    } else if a.len() >= 3 {
        let ra = base64_spec(a.skip(3));
        let rb = base64_spec(b.skip(3));
        assert(ea == b64_group(a[0], a[1], a[2]) + ra);
        assert(eb == b64_group(b[0], b[1], b[2]) + rb);
        assert(ea[0] == b64_char(a[0] as int / 4) && ea[1] == b64_char(
            (a[0] as int % 4) * 16 + a[1] as int / 16,
        ) && ea[2] == b64_char((a[1] as int % 16) * 4 + a[2] as int / 64) && ea[3] == b64_char(
            a[2] as int % 64,
        ));
        assert(eb[0] == b64_char(b[0] as int / 4) && eb[1] == b64_char(
            (b[0] as int % 4) * 16 + b[1] as int / 16,
        ) && eb[2] == b64_char((b[1] as int % 16) * 4 + b[2] as int / 64) && eb[3] == b64_char(
            b[2] as int % 64,
        ));
        lemma_b64_chars_equal(a[0] as int / 4, b[0] as int / 4);
        lemma_b64_chars_equal(
            (a[0] as int % 4) * 16 + a[1] as int / 16,
            (b[0] as int % 4) * 16 + b[1] as int / 16,
        );
        lemma_b64_chars_equal(
            (a[1] as int % 16) * 4 + a[2] as int / 64,
            (b[1] as int % 16) * 4 + b[2] as int / 64,
        );
        lemma_b64_chars_equal(a[2] as int % 64, b[2] as int % 64);
        assert(ra.len() == rb.len());
        assert forall|i: int| 0 <= i < ra.len() implies ra[i] == rb[i] by {
            assert(ea[i + 4] == ra[i]);
            assert(eb[i + 4] == rb[i]);
        }
        assert(ra =~= rb);
        lemma_base64_injective(a.skip(3), b.skip(3));
        assert forall|i: int| 0 <= i < a.len() implies a[i] == b[i] by {
            if i >= 3 {
                assert(a.skip(3)[i - 3] == a[i]);
                assert(b.skip(3)[i - 3] == b[i]);
            }
        }
        assert(a =~= b);
    } else {
        assert(a =~= b);
    }
}

/// Two 6-bit values with the same alphabet byte are equal.
proof fn lemma_b64_chars_equal(v1: int, v2: int)
    requires
        0 <= v1 < 64,
        0 <= v2 < 64,
        b64_char(v1) == b64_char(v2),
    ensures
        v1 == v2,
{
    lemma_b64_char_inverse(v1);
    lemma_b64_char_inverse(v2);
}

/// An alphabet byte is the character of its own 6-bit value.
pub proof fn lemma_b64_value_inverse(c: u8)
    requires
        is_b64_byte(c),
    ensures
        0 <= b64_value(c) < 64,
        b64_char(b64_value(c)) == c,
{
}

/// No 32-byte input encodes to a sequence that is not 44 bytes long.
proof fn lemma_no_preimage_len(v: Seq<u8>)
    requires
        v.len() != 44,
    ensures
        forall|b: Seq<u8>| b.len() == 32 ==> #[trigger] base64_spec(b) != v,
{
    assert forall|b: Seq<u8>| b.len() == 32 implies #[trigger] base64_spec(b) != v by {
        lemma_base64_shape_32(b);
    }
}

/// No 32-byte input encodes to a sequence with a non-alphabet byte among its
/// first 43.
proof fn lemma_no_preimage_bad_byte(v: Seq<u8>, j: int)
    requires
        v.len() == 44,
        0 <= j < 43,
        !is_b64_byte(v[j]),
    ensures
        forall|b: Seq<u8>| b.len() == 32 ==> #[trigger] base64_spec(b) != v,
{
    assert forall|b: Seq<u8>| b.len() == 32 implies #[trigger] base64_spec(b) != v by {
        lemma_base64_shape_32(b);
        if base64_spec(b) == v {
            assert(is_b64_byte(base64_spec(b)[j]));
            assert(false);
        }
    }
}

/// No 32-byte input encodes to a sequence whose 43rd byte carries a 6-bit
/// value not divisible by four.
proof fn lemma_no_preimage_tail(v: Seq<u8>)
    requires
        v.len() == 44,
        b64_value(v[42]) % 4 != 0,
    ensures
        forall|b: Seq<u8>| b.len() == 32 ==> #[trigger] base64_spec(b) != v,
{
    assert forall|b: Seq<u8>| b.len() == 32 implies #[trigger] base64_spec(b) != v by {
        lemma_base64_shape_32(b);
        if base64_spec(b) == v {
            assert(b64_value(base64_spec(b)[42]) % 4 == 0);
            assert(false);
        }
    }
}

/// No 32-byte input encodes to a sequence that does not end in padding.
proof fn lemma_no_preimage_pad(v: Seq<u8>)
    requires
        v.len() == 44,
        v[43] != PAD_BYTE,
    ensures
        forall|b: Seq<u8>| b.len() == 32 ==> #[trigger] base64_spec(b) != v,
{
    assert forall|b: Seq<u8>| b.len() == 32 implies #[trigger] base64_spec(b) != v by {
        lemma_base64_shape_32(b);
        if base64_spec(b) == v {
            assert(base64_spec(b)[43] == PAD_BYTE);
            assert(false);
        }
    }
}

/// The 6-bit value of an alphabet byte, or `None` where the byte is not in
/// the alphabet.
pub fn byte_value(c: u8) -> (r: Option<u8>)
    ensures
        match r {
            Some(v) => b64_value(c) == v as int && v < 64,
            None => !is_b64_byte(c),
        },
{
    if 65 <= c && c <= 90 {
        Some(c - 65)
    } else if 97 <= c && c <= 122 {
        Some(c - 97 + 26)
    } else if 48 <= c && c <= 57 {
        Some(c - 48 + 52)
    } else if c == 43 {
        Some(62)
    } else if c == 47 {
        Some(63)
    } else {
        None
    }
}

/// The four alphabet bytes of a whole group decode to the three bytes that
/// encode back to exactly those four.
proof fn lemma_decode_group(c0: u8, c1: u8, c2: u8, c3: u8, b0: u8, b1: u8, b2: u8)
    requires
        is_b64_byte(c0),
        is_b64_byte(c1),
        is_b64_byte(c2),
        is_b64_byte(c3),
        b0 as int == b64_value(c0) * 4 + b64_value(c1) / 16,
        b1 as int == (b64_value(c1) % 16) * 16 + b64_value(c2) / 4,
        b2 as int == (b64_value(c2) % 4) * 64 + b64_value(c3),
    ensures
        base64_spec(seq![b0, b1, b2]) == seq![c0, c1, c2, c3],
{
    lemma_b64_value_inverse(c0);
    lemma_b64_value_inverse(c1);
    lemma_b64_value_inverse(c2);
    lemma_b64_value_inverse(c3);
    assert(b64_group(b0, b1, b2)[0] == b64_char(b64_value(c0)));
    assert((b0 as int % 4) * 16 + b1 as int / 16 == b64_value(c1));
    assert(b64_group(b0, b1, b2)[1] == b64_char(b64_value(c1)));
    assert((b1 as int % 16) * 4 + b2 as int / 64 == b64_value(c2));
    assert(b64_group(b0, b1, b2)[2] == b64_char(b64_value(c2)));
    assert(b64_group(b0, b1, b2)[3] == b64_char(b64_value(c3)));
    assert(seq![b0, b1, b2].skip(3) =~= Seq::<u8>::empty());
    assert(base64_spec(Seq::<u8>::empty()) =~= Seq::<u8>::empty());
    assert(base64_spec(seq![b0, b1, b2]) =~= b64_group(b0, b1, b2));
    assert(base64_spec(seq![b0, b1, b2]) =~= seq![c0, c1, c2, c3]);
}

/// The three alphabet bytes of the final short group decode to the two bytes
/// that encode back to exactly those three, padding appended.
proof fn lemma_decode_tail(c0: u8, c1: u8, c2: u8, b0: u8, b1: u8)
    requires
        is_b64_byte(c0),
        is_b64_byte(c1),
        is_b64_byte(c2),
        b64_value(c2) % 4 == 0,
        b0 as int == b64_value(c0) * 4 + b64_value(c1) / 16,
        b1 as int == (b64_value(c1) % 16) * 16 + b64_value(c2) / 4,
    ensures
        base64_spec(seq![b0, b1]) == seq![c0, c1, c2, PAD_BYTE],
{
    lemma_b64_value_inverse(c0);
    lemma_b64_value_inverse(c1);
    lemma_b64_value_inverse(c2);
    assert(base64_spec(seq![b0, b1])[0] == b64_char(b0 as int / 4));
    assert((b0 as int % 4) * 16 + b1 as int / 16 == b64_value(c1));
    assert((b1 as int % 16) * 4 == b64_value(c2));
    assert(base64_spec(seq![b0, b1]) =~= seq![c0, c1, c2, PAD_BYTE]);
}

/// Decode the 44-byte rendering of 32 bytes.  Succeeds exactly on the
/// sequences that are the encoding of some 32-byte input, and recovers that
/// input; together with `lemma_base64_injective` this is the round trip.
#[verifier::rlimit(60)]
pub fn base64_decode_32(v: &Vec<u8>) -> (r: Option<Vec<u8>>)
    ensures
        match r {
            Some(b) => b@.len() == 32 && base64_spec(b@) == v@,
            None => forall|b: Seq<u8>| b.len() == 32 ==> #[trigger] base64_spec(b) != v@,
        },
{
    if v.len() != 44 {
        proof {
            lemma_no_preimage_len(v@);
        }
        return None;
    }
    let mut out: Vec<u8> = Vec::new();
    let mut i: usize = 0;
    while i < 10
        invariant
            i <= 10,
            v@.len() == 44,
            out@.len() == 3 * i,
            base64_spec(out@) == v@.subrange(0, 4 * i as int),
        decreases 10 - i,
    {
        let c0 = v[4 * i];
        let c1 = v[4 * i + 1];
        let c2 = v[4 * i + 2];
        let c3 = v[4 * i + 3];
        let v0 = match byte_value(c0) {
            Some(x) => x,
            None => {
                proof {
                    lemma_no_preimage_bad_byte(v@, 4 * i as int);
                }
                return None;
            },
        };
        let v1 = match byte_value(c1) {
            Some(x) => x,
            None => {
                proof {
                    lemma_no_preimage_bad_byte(v@, 4 * i + 1);
                }
                return None;
            },
        };
        let v2 = match byte_value(c2) {
            Some(x) => x,
            None => {
                proof {
                    lemma_no_preimage_bad_byte(v@, 4 * i + 2);
                }
                return None;
            },
        };
        let v3 = match byte_value(c3) {
            Some(x) => x,
            None => {
                proof {
                    lemma_no_preimage_bad_byte(v@, 4 * i + 3);
                }
                return None;
            },
        };
        let b0 = v0 * 4 + v1 / 16;
        let b1 = (v1 % 16) * 16 + v2 / 4;
        let b2 = (v2 % 4) * 64 + v3;
        let ghost prefix = out@;
        out.push(b0);
        out.push(b1);
        out.push(b2);
        proof {
            assert(out@ =~= prefix + seq![b0, b1, b2]);
            lemma_base64_append(prefix, seq![b0, b1, b2]);
            lemma_decode_group(c0, c1, c2, c3, b0, b1, b2);
            assert(base64_spec(out@) =~= v@.subrange(0, 4 * (i + 1) as int));
        }
        i = i + 1;
    }
    let c0 = v[40];
    let c1 = v[41];
    let c2 = v[42];
    let v0 = match byte_value(c0) {
        Some(x) => x,
        None => {
            proof {
                lemma_no_preimage_bad_byte(v@, 40);
            }
            return None;
        },
    };
    let v1 = match byte_value(c1) {
        Some(x) => x,
        None => {
            proof {
                lemma_no_preimage_bad_byte(v@, 41);
            }
            return None;
        },
    };
    let v2 = match byte_value(c2) {
        Some(x) => x,
        None => {
            proof {
                lemma_no_preimage_bad_byte(v@, 42);
            }
            return None;
        },
    };
    if v2 % 4 != 0 {
        proof {
            lemma_no_preimage_tail(v@);
        }
        return None;
    }
    if v[43] != PAD_BYTE {
        proof {
            lemma_no_preimage_pad(v@);
        }
        return None;
    }
    let b0 = v0 * 4 + v1 / 16;
    let b1 = (v1 % 16) * 16 + v2 / 4;
    let ghost prefix = out@;
    out.push(b0);
    out.push(b1);
    proof {
        assert(out@ =~= prefix + seq![b0, b1]);
        lemma_base64_append(prefix, seq![b0, b1]);
        lemma_decode_tail(c0, c1, c2, b0, b1);
        assert(base64_spec(out@) =~= v@);
    }
    Some(out)
}

} // verus!
