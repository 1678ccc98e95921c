//! Key generation: a fresh random clamped scalar and the public key derived
//! from it by scalar multiplication of the curve's base point.

use vstd::prelude::*;

verus! {

/// What scalar multiplication of the base point returns for a 32-byte
/// scalar: a pure function of the scalar bytes.
pub uninterp spec fn curve_public_of(scalar: Seq<u8>) -> Seq<u8>;

/// A 32-byte scalar is clamped when its low three bits are cleared and the
/// top two bits of its last byte are set to 01.
pub open spec fn is_clamped(s: Seq<u8>) -> bool {
    &&& s.len() == 32
    &&& s[0] as int % 8 == 0
    &&& 64 <= s[31] < 128
}

/// One search attempt's key pair: a clamped private scalar and the public
/// key derived from it.
pub struct Candidate {
    pub private: Vec<u8>,
    pub public: Vec<u8>,
}

impl Candidate {
    /// The stored public key is exactly what the stored scalar derives to.
    pub open spec fn wf(self) -> bool {
        &&& is_clamped(self.private@)
        &&& self.public@.len() == 32
        &&& self.public@ == curve_public_of(self.private@)
    }
}

/// Relies on rand's per-thread generator `rand::rng()`, a cryptographically
/// secure generator seeded independently for each thread, and on
/// `fill_bytes`, which fills the whole buffer.  Aborts only if the operating
/// system's entropy source fails.
#[verifier::external_body]
fn random_bytes_32() -> (r: Vec<u8>)
    ensures
        r@.len() == 32,
{
    let mut b = vec![0u8; 32];
    rand::Rng::fill_bytes(&mut rand::rng(), b.as_mut_slice());
    b
}

/// Relies on `x25519_dalek::x25519` applied to `X25519_BASEPOINT_BYTES`:
/// scalar multiplication of the base point, a pure function of the 32
/// scalar bytes.
#[verifier::external_body]
fn scalar_mult_base(scalar: &Vec<u8>) -> (r: Vec<u8>)
    requires
        scalar@.len() == 32,
    ensures
        r@ == curve_public_of(scalar@),
        r@.len() == 32,
{
    let mut k = [0u8; 32];
    k.copy_from_slice(scalar.as_slice());
    x25519_dalek::x25519(k, x25519_dalek::X25519_BASEPOINT_BYTES).to_vec()
}

/// Force the bit pattern the curve's scalar-multiplication convention
/// requires: all other bytes keep their value.
pub fn clamp(s: &mut Vec<u8>)
    requires
        old(s)@.len() == 32,
    ensures
        is_clamped(final(s)@),
        final(s)@.len() == 32,
        final(s)@[0] == old(s)@[0] & 248,
        final(s)@[31] == (old(s)@[31] & 127) | 64,
        forall|i: int| 1 <= i < 31 ==> final(s)@[i] == old(s)@[i],
{
    let b0 = s[0] & 248;
    s.set(0, b0);
    let b31 = (s[31] & 127) | 64;
    s.set(31, b31);
    proof {
        let x = old(s)@[0];
        let y = old(s)@[31];
        assert((x & 248) as int % 8 == 0) by (bit_vector);
        assert(64 <= ((y & 127) | 64) < 128) by (bit_vector);
    }
}

/// Produce a fresh key pair: random bytes, clamped, with the public key
/// derived from the clamped scalar.
pub fn generate() -> (c: Candidate)
    ensures
        c.wf(),
{
    let mut s = random_bytes_32();
    clamp(&mut s);
    let p = scalar_mult_base(&s);
    Candidate { private: s, public: p }
}

/// Re-derive the public key from a candidate's stored scalar: on a
/// well-formed candidate it reproduces the stored public key exactly.
pub fn rederive(c: &Candidate) -> (p: Vec<u8>)
    requires
        c.private@.len() == 32,
    ensures
        p@ == curve_public_of(c.private@),
        c.wf() ==> p@ == c.public@,
{
    scalar_mult_base(&c.private)
}

/// Two well-formed candidates with the same private scalar carry the same
/// public key: the derivation is a pure function of the scalar.
pub proof fn lemma_public_key_deterministic(c1: Candidate, c2: Candidate)
    requires
        c1.wf(),
        c2.wf(),
        c1.private@ == c2.private@,
    ensures
        c1.public@ == c2.public@,
{
}

} // verus!
