use rps_game::contract::Contract;
use rps_game::outcome::GameOutcome;

#[test]
fn test_outcomes() {
    let rock = "rock".to_string();
    let paper = "paper".to_string();
    let scissors = "scissors".to_string();
    let rock_num = Contract::choice_to_number(&rock).unwrap();
    let scissors_num = Contract::choice_to_number(&scissors).unwrap();
    let paper_num = Contract::choice_to_number(&paper).unwrap();
    assert_eq!(Contract::resolve_game(&rock_num, &paper_num), GameOutcome::P2Win);
    assert_eq!(Contract::resolve_game(&rock_num, &scissors_num), GameOutcome::P1Win);
    assert_eq!(Contract::resolve_game(&scissors_num, &paper_num), GameOutcome::P1Win);
    assert_eq!(Contract::resolve_game(&paper_num, &paper_num), GameOutcome::Draw);
}

#[test]
fn choice_ranks() {
    assert_eq!(Contract::choice_to_number(&"rock".to_string()), Some(3));
    assert_eq!(Contract::choice_to_number(&"scissors".to_string()), Some(2));
    assert_eq!(Contract::choice_to_number(&"paper".to_string()), Some(1));
    assert_eq!(Contract::choice_to_number(&"lizard".to_string()), None);
    assert_eq!(Contract::choice_to_number(&"Rock".to_string()), None);
    assert_eq!(Contract::choice_to_number(&"".to_string()), None);
}

#[test]
fn draw_iff_equal_choices() {
    let ranks: [i8; 3] = [1, 2, 3];
    for a in ranks {
        for b in ranks {
            let outcome = Contract::resolve_game(&a, &b);
            assert_eq!(outcome == GameOutcome::Draw, a == b);
        }
    }
}

#[test]
fn resolution_antisymmetric() {
    let ranks: [i8; 3] = [1, 2, 3];
    for a in ranks {
        for b in ranks {
            let forward = Contract::resolve_game(&a, &b);
            let backward = Contract::resolve_game(&b, &a);
            let flipped = match backward {
                GameOutcome::P1Win => GameOutcome::P2Win,
                GameOutcome::P2Win => GameOutcome::P1Win,
                GameOutcome::Draw => GameOutcome::Draw,
            };
            assert_eq!(forward, flipped);
        }
    }
}
