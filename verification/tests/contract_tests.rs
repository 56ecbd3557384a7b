use rps_game::contract::Contract;
use rps_game::game::{GameState, RPSGame};
use rps_game::outcome::GameOutcome;
use rps_game::RPSError;

fn commit(choice: &str, secret: &str) -> Vec<u8> {
    Contract::encrypt_option(&choice.to_string(), &secret.to_string())
}

#[test]
fn start_game_then_get() {
    let gamer_id = "bob.near".to_string();
    let mut contract = Contract::default();
    let commitment = commit("rock", "s1");
    contract.start_game(gamer_id.clone(), commitment.clone()).unwrap();
    assert_eq!(contract.get_player_game(gamer_id).unwrap().primary_commit, commitment);
}

#[test]
fn start_respond_get() {
    let gamer_id = "bob.near".to_string();
    let mut contract = Contract::default();
    contract.start_game(gamer_id.clone(), commit("rock", "s1")).unwrap();
    let second = commit("paper", "s2");
    contract.respond("alice.near".to_string(), &gamer_id, second.clone()).unwrap();
    let game = contract.get_player_game(gamer_id).unwrap();
    assert_eq!(game.secondary_commit.unwrap(), second);
    assert!(matches!(game.state, GameState::AwaitingReveal));
}

#[test]
fn cant_start_two_games() {
    let gamer_id = "bob.near".to_string();
    let mut contract = Contract::default();
    let first = commit("rock", "s1");
    contract.start_game(gamer_id.clone(), first.clone()).unwrap();
    let second_attempt = contract.start_game(gamer_id.clone(), commit("scissors", "s2"));
    assert_eq!(second_attempt.is_err(), true);
    assert!(matches!(second_attempt, Err(RPSError::AlreadyActive)));
    assert_eq!(contract.get_player_game(gamer_id).unwrap().primary_commit, first);
}

fn joined_contract() -> (Contract, String, String) {
    let alice = "alice.near".to_string();
    let bob = "bob.near".to_string();
    let mut contract = Contract::default();
    contract.start_game(alice.clone(), commit("rock", "s1")).unwrap();
    contract.respond(bob.clone(), &alice, commit("scissors", "s2")).unwrap();
    (contract, alice, bob)
}

#[test]
fn end_to_end_scenario() {
    let (mut contract, alice, bob) = joined_contract();
    contract
        .reveal_choice(alice.clone(), &alice, "rock".to_string(), "s1".to_string())
        .unwrap();
    contract
        .reveal_choice(bob.clone(), &alice, "scissors".to_string(), "s2".to_string())
        .unwrap();
    assert_eq!(contract.resolve(&alice), Ok(GameOutcome::P1Win));
    let game: RPSGame = contract.get_player_game(alice.clone()).unwrap();
    assert!(matches!(game.state, GameState::Resolved(GameOutcome::P1Win)));
    assert_eq!(game.winner, Some(alice));
    assert_eq!(game.real_p1, Some(3));
    assert_eq!(game.real_p2, Some(2));
}

#[test]
fn draw_has_no_winner() {
    let alice = "alice.near".to_string();
    let bob = "bob.near".to_string();
    let mut contract = Contract::default();
    contract.start_game(alice.clone(), commit("paper", "s1")).unwrap();
    contract.respond(bob.clone(), &alice, commit("paper", "s2")).unwrap();
    contract
        .reveal_choice(alice.clone(), &alice, "paper".to_string(), "s1".to_string())
        .unwrap();
    contract
        .reveal_choice(bob.clone(), &alice, "paper".to_string(), "s2".to_string())
        .unwrap();
    assert_eq!(contract.resolve(&alice), Ok(GameOutcome::Draw));
    let game = contract.get_player_game(alice).unwrap();
    assert_eq!(game.winner, None);
}

#[test]
fn reveal_mismatch_keeps_record() {
    let (mut contract, alice, _bob) = joined_contract();
    let result = contract.reveal_choice(
        alice.clone(),
        &alice,
        "rock".to_string(),
        "wrong secret".to_string(),
    );
    assert_eq!(result, Err(RPSError::CommitmentMismatch));
    let game = contract.get_player_game(alice).unwrap();
    assert_eq!(game.real_p1, None);
    assert!(matches!(game.state, GameState::AwaitingReveal));
}

#[test]
fn reveal_other_choice_than_committed_fails() {
    let (mut contract, alice, _bob) = joined_contract();
    let result = contract.reveal_choice(
        alice.clone(),
        &alice,
        "paper".to_string(),
        "s1".to_string(),
    );
    assert_eq!(result, Err(RPSError::CommitmentMismatch));
    assert_eq!(contract.get_player_game(alice).unwrap().real_p1, None);
}

#[test]
fn resolve_before_both_reveals_not_ready() {
    let alice = "alice.near".to_string();
    let mut contract = Contract::default();
    contract.start_game(alice.clone(), commit("rock", "s1")).unwrap();
    assert_eq!(contract.resolve(&alice), Err(RPSError::NotReady));
    contract.respond("bob.near".to_string(), &alice, commit("scissors", "s2")).unwrap();
    assert_eq!(contract.resolve(&alice), Err(RPSError::NotReady));
    contract
        .reveal_choice(alice.clone(), &alice, "rock".to_string(), "s1".to_string())
        .unwrap();
    assert_eq!(contract.resolve(&alice), Err(RPSError::NotReady));
}

#[test]
fn reveal_twice_already_revealed() {
    let (mut contract, alice, _bob) = joined_contract();
    contract
        .reveal_choice(alice.clone(), &alice, "rock".to_string(), "s1".to_string())
        .unwrap();
    let again = contract.reveal_choice(
        alice.clone(),
        &alice,
        "rock".to_string(),
        "s1".to_string(),
    );
    assert_eq!(again, Err(RPSError::AlreadyRevealed));
}

#[test]
fn reveal_invalid_choice() {
    let alice = "alice.near".to_string();
    let bob = "bob.near".to_string();
    let mut contract = Contract::default();
    contract.start_game(alice.clone(), commit("lizard", "s1")).unwrap();
    contract.respond(bob, &alice, commit("scissors", "s2")).unwrap();
    let result = contract.reveal_choice(
        alice.clone(),
        &alice,
        "lizard".to_string(),
        "s1".to_string(),
    );
    assert_eq!(result, Err(RPSError::InvalidChoice));
}

#[test]
fn reveal_by_stranger_not_found() {
    let (mut contract, alice, _bob) = joined_contract();
    let result = contract.reveal_choice(
        "mallory.near".to_string(),
        &alice,
        "rock".to_string(),
        "s1".to_string(),
    );
    assert_eq!(result, Err(RPSError::NotFound));
}

#[test]
fn respond_errors() {
    let alice = "alice.near".to_string();
    let mut contract = Contract::default();
    let missing = contract.respond("bob.near".to_string(), &alice, commit("paper", "s2"));
    assert_eq!(missing, Err(RPSError::NotFound));
    contract.start_game(alice.clone(), commit("rock", "s1")).unwrap();
    let self_join = contract.respond(alice.clone(), &alice, commit("paper", "s2"));
    assert_eq!(self_join, Err(RPSError::SelfJoin));
    contract.respond("bob.near".to_string(), &alice, commit("paper", "s2")).unwrap();
    let too_late = contract.respond("carol.near".to_string(), &alice, commit("rock", "s3"));
    assert_eq!(too_late, Err(RPSError::WrongState));
}

#[test]
fn archive_frees_the_slot() {
    let (mut contract, alice, bob) = joined_contract();
    let premature = contract.archive_game(&alice);
    assert_eq!(premature, Err(RPSError::WrongState));
    contract
        .reveal_choice(alice.clone(), &alice, "rock".to_string(), "s1".to_string())
        .unwrap();
    contract
        .reveal_choice(bob.clone(), &alice, "scissors".to_string(), "s2".to_string())
        .unwrap();
    contract.archive_game(&alice).unwrap();
    assert!(contract.get_player_game(alice.clone()).is_none());
    assert_eq!(contract.resolve(&alice), Ok(GameOutcome::P1Win));
    contract.start_game(alice.clone(), commit("paper", "s3")).unwrap();
    assert!(contract.get_player_game(alice).is_some());
}

#[test]
fn abandon_then_not_ready() {
    let alice = "alice.near".to_string();
    let mut contract = Contract::default();
    contract.start_game(alice.clone(), commit("rock", "s1")).unwrap();
    contract.abandon_game(&alice).unwrap();
    assert_eq!(contract.resolve(&alice), Err(RPSError::NotReady));
    let again = contract.abandon_game(&alice);
    assert_eq!(again, Err(RPSError::WrongState));
    let respond_after = contract.respond("bob.near".to_string(), &alice, commit("paper", "s2"));
    assert_eq!(respond_after, Err(RPSError::WrongState));
}

#[test]
fn resolve_unknown_game_not_found() {
    let contract = Contract::default();
    assert_eq!(contract.resolve(&"nobody.near".to_string()), Err(RPSError::NotFound));
}
