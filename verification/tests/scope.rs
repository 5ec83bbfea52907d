use oidc_core::scope::{is_token, InvalidScope, Scope};

fn tokens(scope: &Scope) -> Vec<Vec<u8>> {
    (0..scope.len()).map(|i| scope.token(i).clone()).collect()
}

#[test]
fn parse_reads_tokens_in_order() {
    let scope = Scope::parse(b"openid profile email").unwrap();
    assert_eq!(
        tokens(&scope),
        vec![b"openid".to_vec(), b"profile".to_vec(), b"email".to_vec()]
    );
}

#[test]
fn parse_keeps_a_repeated_token_once_where_it_first_occurs() {
    let scope = Scope::parse(b"b a b c a").unwrap();
    assert_eq!(tokens(&scope), vec![b"b".to_vec(), b"a".to_vec(), b"c".to_vec()]);
}

#[test]
fn parse_rejects_the_empty_text() {
    assert_eq!(Scope::parse(b"").err(), Some(InvalidScope));
}

#[test]
fn parse_rejects_empty_pieces() {
    assert!(Scope::parse(b"a  b").is_err());
    assert!(Scope::parse(b" a").is_err());
    assert!(Scope::parse(b"a ").is_err());
}

#[test]
fn parse_rejects_characters_outside_the_token_alphabet() {
    assert!(Scope::parse(b"a\"b").is_err());
    assert!(Scope::parse(b"a\\b").is_err());
    assert!(Scope::parse(b"a\tb").is_err());
    assert!(Scope::parse(&[0x61, 0x7f]).is_err());
    assert!(Scope::parse(&[0x61, 0x80]).is_err());
}

#[test]
fn is_token_accepts_the_whole_alphabet() {
    assert!(is_token(b"!#$%&'()*+,-./0123456789:;<=>?@AZ[]^_`az{|}~"));
    assert!(!is_token(b""));
    assert!(!is_token(b"a b"));
}

#[test]
fn to_bytes_joins_with_single_spaces() {
    let scope = Scope::parse(b"openid offline_access").unwrap();
    assert_eq!(scope.to_bytes(), b"openid offline_access".to_vec());
    assert_eq!(Scope::new().to_bytes(), Vec::<u8>::new());
    assert_eq!(Scope::parse(b"one").unwrap().to_bytes(), b"one".to_vec());
}

#[test]
fn text_round_trips_through_parse() {
    let scope = Scope::parse(b"urn:a:b openid x").unwrap();
    let again = Scope::parse(&scope.to_bytes()).unwrap();
    assert_eq!(tokens(&again), tokens(&scope));
}

#[test]
fn insert_adds_new_tokens_only() {
    let mut scope = Scope::new();
    assert!(scope.insert(b"a"));
    assert!(scope.insert(b"b"));
    assert!(scope.insert(b"a"));
    assert_eq!(tokens(&scope), vec![b"a".to_vec(), b"b".to_vec()]);
    assert!(!scope.insert(b"not a token"));
    assert!(!scope.insert(b""));
    assert_eq!(scope.len(), 2);
}

#[test]
fn contains_and_subset() {
    let small = Scope::parse(b"openid email").unwrap();
    let large = Scope::parse(b"email profile openid").unwrap();
    assert!(small.contains(b"openid"));
    assert!(!small.contains(b"profile"));
    assert!(!small.contains(b"open"));
    assert!(small.is_subset_of(&large));
    assert!(!large.is_subset_of(&small));
    assert!(Scope::new().is_subset_of(&small));
    assert!(small.is_subset_of(&small.clone()));
}
