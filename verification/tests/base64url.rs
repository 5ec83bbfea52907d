use oidc_core::base64url::{decode, encode};

#[test]
fn encode_known_vectors() {
    assert_eq!(encode(b""), b"".to_vec());
    assert_eq!(encode(b"f"), b"Zg".to_vec());
    assert_eq!(encode(b"fo"), b"Zm8".to_vec());
    assert_eq!(encode(b"foo"), b"Zm9v".to_vec());
    assert_eq!(encode(b"foob"), b"Zm9vYg".to_vec());
    assert_eq!(encode(b"fooba"), b"Zm9vYmE".to_vec());
    assert_eq!(encode(b"foobar"), b"Zm9vYmFy".to_vec());
    assert_eq!(encode(&[0xfb, 0xff, 0xfe]), b"-__-".to_vec());
}

#[test]
fn decode_known_vectors() {
    assert_eq!(decode(b""), Some(vec![]));
    assert_eq!(decode(b"Zg"), Some(b"f".to_vec()));
    assert_eq!(decode(b"Zm8"), Some(b"fo".to_vec()));
    assert_eq!(decode(b"Zm9vYmFy"), Some(b"foobar".to_vec()));
    assert_eq!(decode(b"-__-"), Some(vec![0xfb, 0xff, 0xfe]));
}

#[test]
fn decode_rejects_what_encode_never_writes() {
    // one character alone
    assert_eq!(decode(b"Z"), None);
    // padding
    assert_eq!(decode(b"Zg=="), None);
    // the standard alphabet
    assert_eq!(decode(b"+//+"), None);
    // bits that encoding leaves zero
    assert_eq!(decode(b"Zh"), None);
    assert_eq!(decode(b"Zm9"), None);
}

#[test]
fn decode_inverts_encode_on_every_short_input() {
    for a in 0..=255u8 {
        assert_eq!(decode(&encode(&[a])), Some(vec![a]));
        assert_eq!(decode(&encode(&[a, a ^ 0x5a])), Some(vec![a, a ^ 0x5a]));
        assert_eq!(decode(&encode(&[a, 7, a])), Some(vec![a, 7, a]));
    }
}
