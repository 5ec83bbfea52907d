use oidc_core::ident::{
    id_millis, id_text, new_id, new_id_at_millis, random_bytes, timestamp_ms, MAX_RANDOM_BYTES,
};
use rand::rngs::StdRng;
use rand::SeedableRng;

#[test]
fn id_text_is_crockford_base_32() {
    assert_eq!(id_text(0), b"00000000000000000000000000".to_vec());
    assert_eq!(id_text(1), b"00000000000000000000000001".to_vec());
    assert_eq!(id_text(31), b"0000000000000000000000000Z".to_vec());
    assert_eq!(id_text(32), b"00000000000000000000000010".to_vec());
    assert_eq!(id_text(u128::MAX), b"7ZZZZZZZZZZZZZZZZZZZZZZZZZ".to_vec());
    // the example of the ULID specification
    let id = ulid::Ulid::from_string("01D39ZY06FGSCTVN4T2V9PKHFZ").unwrap().0;
    assert_eq!(id_text(id), b"01D39ZY06FGSCTVN4T2V9PKHFZ".to_vec());
}

#[test]
fn id_text_uses_every_character_of_the_alphabet() {
    let alphabet = b"0123456789ABCDEFGHJKMNPQRSTVWXYZ";
    for (value, character) in alphabet.iter().enumerate() {
        let text = id_text(value as u128);
        assert_eq!(text.len(), 26);
        assert_eq!(text[25], *character);
    }
}

#[test]
fn an_identifier_holds_the_time_of_its_making() {
    let mut rng = StdRng::seed_from_u64(1);
    let id = new_id(1_700_000_000, &mut rng);
    assert_eq!(timestamp_ms(id), 1_700_000_000_000);
    assert_eq!(id >> 80, 1_700_000_000_000);
    let early = new_id(0, &mut rng);
    assert_eq!(timestamp_ms(early), 0);
}

#[test]
fn an_identifier_made_too_late_holds_the_largest_time() {
    let mut rng = StdRng::seed_from_u64(1);
    assert_eq!(id_millis(5), 5000);
    assert_eq!(id_millis(u64::MAX), 0xFFFF_FFFF_FFFF);
    assert_eq!(id_millis(281_474_976_710), 281_474_976_710_000);
    assert_eq!(id_millis(281_474_976_711), 0xFFFF_FFFF_FFFF);
    let id = new_id(u64::MAX, &mut rng);
    assert_eq!(timestamp_ms(id), 0xFFFF_FFFF_FFFF);
}

#[test]
fn identifiers_differ_and_sort_by_time() {
    let mut rng = StdRng::seed_from_u64(7);
    let a = new_id(10, &mut rng);
    let b = new_id(10, &mut rng);
    let c = new_id(11, &mut rng);
    assert_ne!(a, b);
    assert!(a < c && b < c);
}

#[test]
fn random_bytes_have_the_length_asked_for() {
    let mut rng = StdRng::seed_from_u64(3);
    assert_eq!(random_bytes(&mut rng, 0), Some(vec![]));
    assert_eq!(random_bytes(&mut rng, 32).unwrap().len(), 32);
    assert_eq!(random_bytes(&mut rng, MAX_RANDOM_BYTES).unwrap().len(), MAX_RANDOM_BYTES);
    assert_eq!(random_bytes(&mut rng, MAX_RANDOM_BYTES + 1), None);
    assert_eq!(random_bytes(&mut rng, usize::MAX), None);
}

#[test]
fn random_bytes_are_drawn_anew_each_time() {
    let mut rng = StdRng::seed_from_u64(3);
    let a = random_bytes(&mut rng, 32).unwrap();
    let b = random_bytes(&mut rng, 32).unwrap();
    assert_ne!(a, b);
    assert_ne!(a, vec![0u8; 32]);
}

#[test]
fn an_identifier_holds_the_time_to_the_millisecond() {
    let mut rng = StdRng::seed_from_u64(2);
    let a = new_id_at_millis(1_700_000_000_001, &mut rng);
    let b = new_id_at_millis(1_700_000_000_002, &mut rng);
    assert_eq!(timestamp_ms(a), 1_700_000_000_001);
    assert_eq!(timestamp_ms(b), 1_700_000_000_002);
    assert!(a < b);
    let late = new_id_at_millis(u64::MAX, &mut rng);
    assert_eq!(timestamp_ms(late), 0xFFFF_FFFF_FFFF);
    let edge = new_id_at_millis(0xFFFF_FFFF_FFFF, &mut rng);
    assert_eq!(timestamp_ms(edge), 0xFFFF_FFFF_FFFF);
}
