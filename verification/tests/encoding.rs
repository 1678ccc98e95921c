use wireguard_vanity::encoding::{base64_decode_32, base64_encode};

#[test]
fn encode_all_zero_bytes() {
    let b = vec![0u8; 32];
    let e = base64_encode(&b);
    let mut expected = vec![b'A'; 43];
    expected.push(b'=');
    assert_eq!(e, expected);
}

#[test]
fn encode_known_vector() {
    let b: Vec<u8> = (0u8..32).collect();
    let e = base64_encode(&b);
    assert_eq!(e, b"AAECAwQFBgcICQoLDA0ODxAREhMUFRYXGBkaGxwdHh8=".to_vec());
}

#[test]
fn encode_is_deterministic() {
    let b: Vec<u8> = (100u8..132).collect();
    let e1 = base64_encode(&b);
    let e2 = base64_encode(&b);
    assert_eq!(e1, e2);
}

#[test]
fn encode_is_injective_on_nearby_inputs() {
    let a = vec![0u8; 32];
    let mut b = vec![0u8; 32];
    b[0] = 1;
    assert_ne!(base64_encode(&a), base64_encode(&b));
}

#[test]
fn decode_round_trip() {
    let b: Vec<u8> = (0u8..32).collect();
    let e = base64_encode(&b);
    let back = base64_decode_32(&e).unwrap();
    assert_eq!(back, b);
}

#[test]
fn decode_round_trip_high_bytes() {
    let b: Vec<u8> = (224u8..=255).collect();
    let e = base64_encode(&b);
    let back = base64_decode_32(&e).unwrap();
    assert_eq!(back, b);
}

#[test]
fn decode_rejects_wrong_length() {
    let v = vec![b'A'; 43];
    assert!(base64_decode_32(&v).is_none());
}

#[test]
fn decode_rejects_bad_byte() {
    let b = vec![0u8; 32];
    let mut e = base64_encode(&b);
    e[5] = b'!';
    assert!(base64_decode_32(&e).is_none());
}

#[test]
fn decode_rejects_bad_tail_value() {
    let b = vec![0u8; 32];
    let mut e = base64_encode(&b);
    // 'B' has 6-bit value 1, not a multiple of four, so no 32-byte input
    // ends its encoding this way
    e[42] = b'B';
    assert!(base64_decode_32(&e).is_none());
}

#[test]
fn decode_rejects_missing_padding() {
    let b = vec![0u8; 32];
    let mut e = base64_encode(&b);
    e[43] = b'A';
    assert!(base64_decode_32(&e).is_none());
}
