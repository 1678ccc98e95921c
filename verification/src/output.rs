//! Rendering results as ASCII bytes: the one-line match report and the
//! human-scaled throughput figure.
//!
//! A match line is built as a single contiguous byte sequence, so the
//! writer can emit it in one write and no line is ever interleaved with
//! another's characters.

use vstd::prelude::*;
use crate::rate::RATE_SCALE;

verus! {

/// The decimal digits of a non-negative number, most significant first.
pub open spec fn dec_spec(n: int) -> Seq<u8>
    decreases n,
{
    if n < 0 {
        Seq::empty()
    } else if n < 10 {
        seq![(48 + n) as u8]
    } else {
        dec_spec(n / 10) + seq![(48 + n % 10) as u8]
    }
}

/// Render a number in decimal.
pub fn dec_string(n: u128) -> (r: Vec<u8>)
    ensures
        r@ == dec_spec(n as int),
    decreases n,
{
    if n < 10 {
        let mut v: Vec<u8> = Vec::new();
        v.push(48 + n as u8);
        proof {
            assert(v@ =~= dec_spec(n as int));
        }
        v
    } else {
        let mut v = dec_string(n / 10);
        v.push(48 + (n % 10) as u8);
        proof {
            assert(v@ =~= dec_spec(n as int));
        }
        v
    }
}

/// A number of hundredths rendered with two decimal places.
pub open spec fn dec_two_spec(h: int) -> Seq<u8> {
    dec_spec(h / 100) + seq![46u8, (48 + (h % 100) / 10) as u8, (48 + h % 10) as u8]
}

/// Render a number of hundredths with two decimal places.
pub fn dec_two(h: u128) -> (r: Vec<u8>)
    ensures
        r@ == dec_two_spec(h as int),
{
    let mut v = dec_string(h / 100);
    let f = (h % 100) as u8;
    v.push(46); // '.'
    v.push(48 + f / 10);
    v.push(48 + f % 10);
    proof {
        assert(v@ =~= dec_two_spec(h as int));
    }
    v
}

/// A number of thousandths rendered with three decimal places.
pub open spec fn dec_three_spec(t: int) -> Seq<u8> {
    dec_spec(t / 1000)
        + seq![
        46u8,
        (48 + (t % 1000) / 100) as u8,
        (48 + ((t % 1000) / 10) % 10) as u8,
        (48 + (t % 1000) % 10) as u8,
    ]
}

/// Render a number of thousandths with three decimal places.
pub fn dec_three(t: u128) -> (r: Vec<u8>)
    ensures
        r@ == dec_three_spec(t as int),
{
    let mut v = dec_string(t / 1000);
    let f = (t % 1000) as u16;
    v.push(46); // '.'
    v.push(48 + (f / 100) as u8);
    v.push(48 + ((f / 10) % 10) as u8);
    v.push(48 + (f % 10) as u8);
    proof {
        assert(v@ =~= dec_three_spec(t as int));
    }
    v
}

/// Append the bytes of `src` to `dst`.
pub fn append_bytes(dst: &mut Vec<u8>, src: &Vec<u8>)
    ensures
        final(dst)@ == old(dst)@ + src@,
{
    let ghost dst0: Seq<u8> = dst@;
    let mut i: usize = 0;
    while i < src.len()
        invariant
            i <= src@.len(),
            dst@ == dst0 + src@.subrange(0, i as int),
        decreases src@.len() - i,
    {
        dst.push(src[i]);
        proof {
            assert(dst@ =~= dst0 + src@.subrange(0, i + 1 as int));
        }
        i = i + 1;
    }
    proof {
        assert(dst@ =~= dst0 + src@);
    }
}

/// The bytes of `" keys/s"`.
pub open spec fn keys_unit_spec() -> Seq<u8> {
    seq![32u8, 107, 101, 121, 115, 47, 115]
}

/// The bytes of `"public "`.
pub open spec fn public_label_spec() -> Seq<u8> {
    seq![112u8, 117, 98, 108, 105, 99, 32]
}

/// The bytes of `"  private "`.
pub open spec fn private_label_spec() -> Seq<u8> {
    seq![32u8, 32, 112, 114, 105, 118, 97, 116, 101, 32]
}

/// One match report: the encoded public key and encoded private scalar on a
/// single newline-terminated line.
pub open spec fn match_line_spec(public_b64: Seq<u8>, private_b64: Seq<u8>) -> Seq<u8> {
    public_label_spec() + public_b64 + private_label_spec() + private_b64 + seq![10u8]
}

/// Build a match report as one contiguous line, ready for a single write.
pub fn format_match_line(public_b64: &Vec<u8>, private_b64: &Vec<u8>) -> (r: Vec<u8>)
    ensures
        r@ == match_line_spec(public_b64@, private_b64@),
{
    let mut v: Vec<u8> = Vec::new();
    v.push(112); // 'p'
    v.push(117); // 'u'
    v.push(98); // 'b'
    v.push(108); // 'l'
    v.push(105); // 'i'
    v.push(99); // 'c'
    v.push(32); // ' '
    proof {
        assert(v@ =~= public_label_spec());
    }
    append_bytes(&mut v, public_b64);
    let mut label: Vec<u8> = Vec::new();
    label.push(32); // ' '
    label.push(32); // ' '
    label.push(112); // 'p'
    label.push(114); // 'r'
    label.push(105); // 'i'
    label.push(118); // 'v'
    label.push(97); // 'a'
    label.push(116); // 't'
    label.push(101); // 'e'
    label.push(32); // ' '
    proof {
        assert(label@ =~= private_label_spec());
    }
    append_bytes(&mut v, &label);
    append_bytes(&mut v, private_b64);
    v.push(10); // newline
    proof {
        assert(v@ =~= match_line_spec(public_b64@, private_b64@));
    }
    v
}

/// The human-scaled rendering of a rate in nano-keys per second: two
/// decimal places against the nearest thousands power, or three against
/// the smallest scale.
pub open spec fn format_rate_spec(r: int) -> Seq<u8> {
    if r > 1_000_000_000_000_000_000 {
        dec_two_spec(r / 10_000_000_000_000_000) + seq![101u8, 57] + keys_unit_spec()
    } else if r > 1_000_000_000_000_000 {
        dec_two_spec(r / 10_000_000_000_000) + seq![101u8, 54] + keys_unit_spec()
    } else if r > 1_000_000_000_000 {
        dec_two_spec(r / 10_000_000_000) + seq![101u8, 51] + keys_unit_spec()
    } else if r > 1_000_000_000 {
        dec_two_spec(r / 10_000_000) + keys_unit_spec()
    } else if r > 1_000_000 {
        dec_two_spec(r / 10_000) + seq![101u8, 45, 51] + keys_unit_spec()
    } else if r > 1_000 {
        dec_two_spec(r / 10) + seq![101u8, 45, 54] + keys_unit_spec()
    } else if r > 1 {
        dec_two_spec(r * 100) + seq![101u8, 45, 57] + keys_unit_spec()
    } else {
        dec_three_spec(r * 1_000_000) + seq![101u8, 45, 49, 50] + keys_unit_spec()
    }
}

/// Render a rate in nano-keys per second in human-scaled units, with an
/// exponent suffix naming the scale.
pub fn format_rate(r: u128) -> (out: Vec<u8>)
    requires
        r <= u64::MAX as u128 * RATE_SCALE,
    ensures
        out@ == format_rate_spec(r as int),
{
    let mut v: Vec<u8>;
    let mut tail: Vec<u8> = Vec::new();
    if r > 1_000_000_000_000_000_000 {
        v = dec_two(r / 10_000_000_000_000_000);
        tail.push(101); // 'e'
        tail.push(57); // '9'
    } else if r > 1_000_000_000_000_000 {
        v = dec_two(r / 10_000_000_000_000);
        tail.push(101); // 'e'
        tail.push(54); // '6'
    } else if r > 1_000_000_000_000 {
        v = dec_two(r / 10_000_000_000);
        tail.push(101); // 'e'
        tail.push(51); // '3'
    } else if r > 1_000_000_000 {
        v = dec_two(r / 10_000_000);
    } else if r > 1_000_000 {
        v = dec_two(r / 10_000);
        tail.push(101); // 'e'
        tail.push(45); // '-'
        tail.push(51); // '3'
    } else if r > 1_000 {
        v = dec_two(r / 10);
        tail.push(101); // 'e'
        tail.push(45); // '-'
        tail.push(54); // '6'
    } else if r > 1 {
        v = dec_two(r * 100);
        tail.push(101); // 'e'
        tail.push(45); // '-'
        tail.push(57); // '9'
    } else {
        v = dec_three(r * 1_000_000);
        tail.push(101); // 'e'
        tail.push(45); // '-'
        tail.push(49); // '1'
        tail.push(50); // '2'
    }
    tail.push(32); // ' '
    tail.push(107); // 'k'
    tail.push(101); // 'e'
    tail.push(121); // 'y'
    tail.push(115); // 's'
    tail.push(47); // '/'
    tail.push(115); // 's'
    append_bytes(&mut v, &tail);
    proof {
        assert(v@ =~= format_rate_spec(r as int));
    }
    v
}

} // verus!
