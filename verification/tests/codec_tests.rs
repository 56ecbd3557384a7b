use rps_game::codec::check_commitment;
use rps_game::contract::Contract;

#[test]
fn commit_verify_round_trip() {
    let choice = "rock".to_string();
    let secret = "my password".to_string();
    let commitment = Contract::encrypt_option(&choice, &secret);
    assert!(check_commitment(&commitment, &choice, &secret));
}

#[test]
fn verify_rejects_wrong_secret() {
    let choice = "rock".to_string();
    let secret = "my password".to_string();
    let commitment = Contract::encrypt_option(&choice, &secret);
    assert!(!check_commitment(&commitment, &choice, &"other password".to_string()));
}

#[test]
fn verify_rejects_wrong_choice() {
    let choice = "rock".to_string();
    let secret = "my password".to_string();
    let commitment = Contract::encrypt_option(&choice, &secret);
    assert!(!check_commitment(&commitment, &"paper".to_string(), &secret));
}

#[test]
fn commitment_is_a_digest_not_the_plaintext() {
    let choice = "rock".to_string();
    let secret = "s".to_string();
    let commitment = Contract::encrypt_option(&choice, &secret);
    assert_eq!(commitment.len(), 32);
    assert_ne!(commitment, b"rocks".to_vec());
    assert_ne!(commitment, b"rock".to_vec());
    let other = Contract::encrypt_option(&choice, &"t".to_string());
    assert_ne!(commitment, other);
}

#[test]
fn same_pair_same_commitment() {
    let choice = "scissors".to_string();
    let secret = "deterministic".to_string();
    let first = Contract::encrypt_option(&choice, &secret);
    let second = Contract::encrypt_option(&choice, &secret);
    assert_eq!(first, second);
}
