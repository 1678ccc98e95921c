use wireguard_vanity::keys::{clamp, generate, rederive};

#[test]
fn generated_candidate_rederives() {
    let c = generate();
    assert_eq!(c.private.len(), 32);
    assert_eq!(c.public.len(), 32);
    let p = rederive(&c);
    assert_eq!(p, c.public);
}

#[test]
fn generated_scalar_is_clamped() {
    let c = generate();
    assert_eq!(c.private[0] % 8, 0);
    assert!(c.private[31] >= 64);
    assert!(c.private[31] < 128);
}

#[test]
fn clamp_forces_exact_bits() {
    let mut s = vec![0xffu8; 32];
    clamp(&mut s);
    assert_eq!(s[0], 0xf8);
    for i in 1..31 {
        assert_eq!(s[i], 0xff);
    }
    assert_eq!(s[31], 0x7f);
}

#[test]
fn derivation_matches_the_curve() {
    let c = generate();
    let mut k = [0u8; 32];
    k.copy_from_slice(&c.private);
    let p = x25519_dalek::x25519(k, x25519_dalek::X25519_BASEPOINT_BYTES);
    assert_eq!(p.to_vec(), c.public);
}

#[test]
fn fresh_candidates_differ() {
    let c1 = generate();
    let c2 = generate();
    assert_ne!(c1.private, c2.private);
}
