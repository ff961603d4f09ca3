use rps_escrow::errors::GameError;
use rps_escrow::game::{assert_minimum_fee, resolve, Choice, Contract, Winner};

fn unit() -> Contract {
    Contract::new(
        String::from("bob"),
        String::from("alice"),
        String::from("factory"),
    )
}

#[test]
fn test_make_commitment_hash() {
    let mut contract = unit();
    let commitment_hash = contract.get_commitment_hash(Choice::Paper, 10u128);
    let til = String::from("til");
    let r = contract.make_commitment(&til, commitment_hash);
    assert!(matches!(r, Err(GameError::Authorization)));
    assert!(contract.commitment1.is_none());
    assert!(contract.commitment2.is_none());
}

#[test]
fn test_reveal_commitment_bad_secret() {
    let mut contract = unit();
    let bob = String::from("bob");
    let commitment_hash = contract.get_commitment_hash(Choice::Paper, 10u128);
    contract.make_commitment(&bob, commitment_hash).unwrap();
    let r = contract.reveal_commitment(&bob, Choice::Paper, 100u128);
    assert!(matches!(r, Err(GameError::CommitmentMismatch)));
}

#[test]
fn test_reveal_commitment_bad_choice() {
    let mut contract = unit();
    let bob = String::from("bob");
    let commitment_hash = contract.get_commitment_hash(Choice::Paper, 10u128);
    contract.make_commitment(&bob, commitment_hash).unwrap();
    let r = contract.reveal_commitment(&bob, Choice::Rock, 10u128);
    assert!(matches!(r, Err(GameError::CommitmentMismatch)));
}

#[test]
fn test_commitment_hash_deterministic_and_distinct() {
    let contract = unit();
    let a = contract.get_commitment_hash(Choice::Rock, 42u128);
    let b = contract.get_commitment_hash(Choice::Rock, 42u128);
    assert_eq!(a, b);
    assert_eq!(a.len(), 64);
    assert!(a.chars().all(|c| c.is_ascii_hexdigit() && !c.is_ascii_uppercase()));
    let other_choice = contract.get_commitment_hash(Choice::Paper, 42u128);
    let other_secret = contract.get_commitment_hash(Choice::Rock, 43u128);
    assert_ne!(a, other_choice);
    assert_ne!(a, other_secret);
    assert_ne!(other_choice, other_secret);
}

#[test]
fn test_commitment_hash_matches_host_digest() {
    // The same bytes, hashed and encoded directly through the host's
    // own primitives, must agree with the library's commitment.
    let contract = unit();
    let secret: u128 = 10;
    let mut bytes: Vec<u8> = vec![1u8];
    bytes.extend_from_slice(&secret.to_be_bytes());
    let expected = hex::encode(near_sdk::env::keccak256(&bytes));
    assert_eq!(contract.get_commitment_hash(Choice::Paper, secret), expected);
}

#[test]
fn test_resolver_all_pairs() {
    assert_eq!(resolve(Choice::Rock, Choice::Rock), None);
    assert_eq!(resolve(Choice::Paper, Choice::Paper), None);
    assert_eq!(resolve(Choice::Scissors, Choice::Scissors), None);
    assert_eq!(resolve(Choice::Rock, Choice::Scissors), Some(Winner::First));
    assert_eq!(resolve(Choice::Scissors, Choice::Paper), Some(Winner::First));
    assert_eq!(resolve(Choice::Paper, Choice::Rock), Some(Winner::First));
    assert_eq!(resolve(Choice::Scissors, Choice::Rock), Some(Winner::Second));
    assert_eq!(resolve(Choice::Paper, Choice::Scissors), Some(Winner::Second));
    assert_eq!(resolve(Choice::Rock, Choice::Paper), Some(Winner::Second));
}

#[test]
fn test_commit_reveal_round_trip() {
    let mut contract = unit();
    let bob = String::from("bob");
    let alice = String::from("alice");
    let h1 = contract.get_commitment_hash(Choice::Rock, 7u128);
    let h2 = contract.get_commitment_hash(Choice::Scissors, 9u128);
    contract.make_commitment(&bob, h1).unwrap();
    contract.make_commitment(&alice, h2).unwrap();
    let first = contract.reveal_commitment(&bob, Choice::Rock, 7u128).unwrap();
    assert!(first.is_none());
    let second = contract
        .reveal_commitment(&alice, Choice::Scissors, 9u128)
        .unwrap();
    let report = second.expect("both revealed: a report is owed");
    assert_eq!(report.recipient, "factory");
    assert_eq!(report.winner.as_deref(), Some("bob"));
}

#[test]
fn test_commit_reveal_draw_reports_no_winner() {
    let mut contract = unit();
    let bob = String::from("bob");
    let alice = String::from("alice");
    let h1 = contract.get_commitment_hash(Choice::Paper, 1u128);
    let h2 = contract.get_commitment_hash(Choice::Paper, 2u128);
    contract.make_commitment(&bob, h1).unwrap();
    contract.make_commitment(&alice, h2).unwrap();
    contract.reveal_commitment(&bob, Choice::Paper, 1u128).unwrap();
    let report = contract
        .reveal_commitment(&alice, Choice::Paper, 2u128)
        .unwrap()
        .expect("both revealed: a report is owed");
    assert_eq!(report.recipient, "factory");
    assert_eq!(report.winner, None);
}

#[test]
fn test_reveal_without_commitment() {
    let mut contract = unit();
    let alice = String::from("alice");
    let r = contract.reveal_commitment(&alice, Choice::Rock, 3u128);
    assert!(matches!(r, Err(GameError::CommitmentMissing)));
}

#[test]
fn test_reveal_unknown_caller() {
    let mut contract = unit();
    let eve = String::from("eve");
    let r = contract.reveal_commitment(&eve, Choice::Rock, 3u128);
    assert!(matches!(r, Err(GameError::Authorization)));
}

#[test]
fn test_choice_from_code() {
    assert_eq!(Choice::from_code(0), Ok(Choice::Rock));
    assert_eq!(Choice::from_code(1), Ok(Choice::Paper));
    assert_eq!(Choice::from_code(2), Ok(Choice::Scissors));
    assert_eq!(Choice::from_code(3), Err(GameError::InvalidChoice));
}

#[test]
fn test_assert_minimum_fee() {
    assert!(assert_minimum_fee(5, 5).is_ok());
    assert!(matches!(
        assert_minimum_fee(4, 5),
        Err(GameError::InsufficientDeposit)
    ));
}

#[test]
fn test_commitment_overwrite_before_reveal() {
    // A repeated commitment silently overwrites the earlier one, and a
    // reveal is checked against the latest value.
    let mut contract = unit();
    let bob = String::from("bob");
    let first = contract.get_commitment_hash(Choice::Rock, 1u128);
    let second = contract.get_commitment_hash(Choice::Scissors, 2u128);
    contract.make_commitment(&bob, first).unwrap();
    contract.make_commitment(&bob, second).unwrap();
    let stale = contract.reveal_commitment(&bob, Choice::Rock, 1u128);
    assert!(matches!(stale, Err(GameError::CommitmentMismatch)));
    let fresh = contract.reveal_commitment(&bob, Choice::Scissors, 2u128);
    assert!(matches!(fresh, Ok(None)));
}
