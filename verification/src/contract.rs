//! The contract facade: the externally callable operations.
//!
//! The host authenticates the caller and hands the identity in as a plain
//! argument; the facade validates it against the stored record, drives the
//! state machine, and keeps the two record collections (active and completed)
//! well-formed. Every operation either performs exactly the transition its
//! contract names or fails with a typed error and leaves both collections
//! exactly as they were.

use vstd::prelude::*;

use crate::codec::{commit_digest, commitment_matches, check_commitment, sha256_commit};
use crate::game::{
    abandoned_game, is_terminal, joined_game, lemma_abandoned_game_wf, lemma_joined_game_wf,
    lemma_revealed_game_wf, lemma_started_game_wf, revealed_game, started_game, GameState,
    GameView, RPSGame,
};
use crate::outcome::{choice_rank, resolve_ranks, GameOutcome};
use crate::store::{clone_game, GameStore};
use crate::RPSError;

verus! {

/// Every record is well-formed and stored under its initiator's identity.
pub open spec fn wf_game_map(m: Map<Seq<char>, GameView>) -> bool {
    forall|k: Seq<char>| #[trigger] m.contains_key(k) ==> m[k].wf() && m[k].initiator == k
}

/// A completed-games collection additionally holds terminal records only.
pub open spec fn wf_completed_map(m: Map<Seq<char>, GameView>) -> bool {
    &&& wf_game_map(m)
    &&& forall|k: Seq<char>| #[trigger] m.contains_key(k) ==> is_terminal(m[k].state)
}

proof fn lemma_wf_game_map_insert(m: Map<Seq<char>, GameView>, k: Seq<char>, g: GameView)
    requires
        wf_game_map(m),
        g.wf(),
        g.initiator == k,
    ensures
        wf_game_map(m.insert(k, g)),
{
    assert forall|k2: Seq<char>| #[trigger] m.insert(k, g).contains_key(k2) implies m.insert(
        k,
        g,
    )[k2].wf() && m.insert(k, g)[k2].initiator == k2 by {
        if k2 != k {
            assert(m.contains_key(k2));
        }
    }
}

proof fn lemma_wf_game_map_remove(m: Map<Seq<char>, GameView>, k: Seq<char>)
    requires
        wf_game_map(m),
    ensures
        wf_game_map(m.remove(k)),
{
    assert forall|k2: Seq<char>| #[trigger] m.remove(k).contains_key(k2) implies m.remove(
        k,
    )[k2].wf() && m.remove(k)[k2].initiator == k2 by {
        assert(m.contains_key(k2));
    }
}

proof fn lemma_wf_completed_map_insert(m: Map<Seq<char>, GameView>, k: Seq<char>, g: GameView)
    requires
        wf_completed_map(m),
        g.wf(),
        g.initiator == k,
        is_terminal(g.state),
    ensures
        wf_completed_map(m.insert(k, g)),
{
    lemma_wf_game_map_insert(m, k, g);
    assert forall|k2: Seq<char>| #[trigger] m.insert(k, g).contains_key(k2) implies is_terminal(
        m.insert(k, g)[k2].state,
    ) by {
        if k2 != k {
            assert(m.contains_key(k2));
        }
    }
}

/// The engine's persisted state: the active games and the archived ones, each
/// keyed by the initiating player's identity.
pub struct Contract {
    active_games: GameStore,
    completed_games: GameStore,
}

impl Contract {
    /// The active collection, as the map it denotes.
    pub closed spec fn active_map(&self) -> Map<Seq<char>, GameView> {
        self.active_games@
    }

    /// The completed collection, as the map it denotes.
    pub closed spec fn completed_map(&self) -> Map<Seq<char>, GameView> {
        self.completed_games@
    }

    /// The contract's invariant: every stored record is well-formed and keyed
    /// by its initiator, and archived records are terminal.
    pub open spec fn wf(&self) -> bool {
        &&& wf_game_map(self.active_map())
        &&& wf_completed_map(self.completed_map())
    }

    /// The commitment that binds `option` with the private `password`: the
    /// one-way digest a player puts down before the reveal phase.
    pub fn encrypt_option(option: &String, password: &String) -> (r: Vec<u8>)
        ensures
            r@ == commit_digest(option@, password@),
            r@.len() == 32,
    {
        sha256_commit(option.as_str(), password.as_str())
    }

    /// The rank of a canonical choice string: `rock` is 3, `scissors` 2,
    /// `paper` 1; anything else is rejected.
    pub fn choice_to_number(choice: &String) -> (r: Option<i8>)
        ensures
            r == choice_rank(choice@),
    {
        let rock: String = "rock".to_owned();
        let scissors: String = "scissors".to_owned();
        let paper: String = "paper".to_owned();
        if *choice == rock {
            Some(3)
        } else if *choice == scissors {
            Some(2)
        } else if *choice == paper {
            Some(1)
        } else {
            None
        }
    }

    /// The pure resolution engine over two revealed ranks: equal ranks draw,
    /// adjacent ranks go to the higher, non-adjacent ranks to the lower.
    pub fn resolve_game(option1: &i8, option2: &i8) -> (r: GameOutcome)
        ensures
            r == resolve_ranks(*option1 as int, *option2 as int),
    {
        let a = *option1 as i32;
        let b = *option2 as i32;
        if a == b {
            GameOutcome::Draw
        } else if a - b == 1 || b - a == 1 {
            if a > b {
                GameOutcome::P1Win
            } else {
                GameOutcome::P2Win
            }
        } else {
            if a < b {
                GameOutcome::P1Win
            } else {
                GameOutcome::P2Win
            }
        }
    }

    /// Starts a game for `caller`, who puts down a commitment. Fails with
    /// `AlreadyActive`, changing nothing, while any game started by the same
    /// identity is still in the active collection.
    pub fn start_game(&mut self, caller: String, commitment: Vec<u8>) -> (r: Result<
        RPSGame,
        RPSError,
    >)
        requires
            old(self).wf(),
        ensures
            final(self).wf(),
            final(self).completed_map() == old(self).completed_map(),
            old(self).active_map().contains_key(caller@) ==> {
                &&& r == Err::<RPSGame, RPSError>(RPSError::AlreadyActive)
                &&& final(self).active_map() == old(self).active_map()
            },
            !old(self).active_map().contains_key(caller@) ==> {
                &&& (r matches Ok(g) && g@ == started_game(caller@, commitment@))
                &&& final(self).active_map() == old(self).active_map().insert(
                    caller@,
                    started_game(caller@, commitment@),
                )
            },
    {
        if self.active_games.contains_key(&caller) {
            return Err(RPSError::AlreadyActive);
        }
        let game = RPSGame {
            initiator_id: caller.clone(),
            responder_id: None,
            primary_commit: commitment,
            secondary_commit: None,
            real_p1: None,
            real_p2: None,
            state: GameState::AwaitingOpponent,
            winner: None,
        };
        let stored = clone_game(&game);
        proof {
            lemma_started_game_wf(caller@, game.primary_commit@);
            lemma_wf_game_map_insert(
                self.active_map(),
                caller@,
                started_game(caller@, game.primary_commit@),
            );
        }
        self.active_games.insert(caller, stored);
        Ok(game)
    }

    /// The active game started by `gamer_id`, if any, as a copy.
    pub fn get_player_game(&self, gamer_id: String) -> (r: Option<RPSGame>)
        ensures
            match r {
                Some(g) => self.active_map().contains_key(gamer_id@) && g@ == self.active_map()[
                    gamer_id@
                ],
                None => !self.active_map().contains_key(gamer_id@),
            },
    {
        match self.active_games.get(&gamer_id) {
            Some(g) => Some(clone_game(g)),
            None => None,
        }
    }

    /// Joins `caller` to the game `gamer_id` started, putting down the second
    /// commitment and opening the reveal phase. Fails, changing nothing, with
    /// `NotFound` when no such game is active, `WrongState` when the game is
    /// past waiting for an opponent, and `SelfJoin` when the initiator tries
    /// to play against themselves.
    pub fn respond(&mut self, caller: String, gamer_id: &String, commitment: Vec<u8>) -> (r: Result<
        (),
        RPSError,
    >)
        requires
            old(self).wf(),
        ensures
            final(self).wf(),
            final(self).completed_map() == old(self).completed_map(),
            ({
                let m = old(self).active_map();
                if !m.contains_key(gamer_id@) {
                    r == Err::<(), RPSError>(RPSError::NotFound) && final(self).active_map() == m
                } else if !(m[gamer_id@].state is AwaitingOpponent) {
                    r == Err::<(), RPSError>(RPSError::WrongState) && final(self).active_map() == m
                } else if caller@ == gamer_id@ {
                    r == Err::<(), RPSError>(RPSError::SelfJoin) && final(self).active_map() == m
                } else {
                    r == Ok::<(), RPSError>(()) && final(self).active_map() == m.insert(
                        gamer_id@,
                        joined_game(m[gamer_id@], caller@, commitment@),
                    )
                }
            }),
    {
        let existing = self.active_games.get(gamer_id);
        let g = match existing {
            None => {
                return Err(RPSError::NotFound);
            },
            Some(g) => g,
        };
        match g.state {
            GameState::AwaitingOpponent => {},
            _ => {
                return Err(RPSError::WrongState);
            },
        }
        if caller == *gamer_id {
            return Err(RPSError::SelfJoin);
        }
        let mut updated = clone_game(g);
        updated.responder_id = Some(caller);
        updated.secondary_commit = Some(commitment);
        updated.state = GameState::AwaitingReveal;
        proof {
            let m = self.active_map();
            assert(updated@ == joined_game(m[gamer_id@], caller@, commitment@));
            lemma_joined_game_wf(m[gamer_id@], caller@, commitment@);
            lemma_wf_game_map_insert(m, gamer_id@, updated@);
        }
        self.active_games.insert(gamer_id.clone(), updated);
        Ok(())
    }

    /// Reveals `caller`'s choice for the game `gamer_id` started. The caller
    /// must be one of the two parties; the pair `(choice, secret)` must hash
    /// to that party's stored commitment; each party reveals once. The moment
    /// the second valid reveal lands the game resolves. Every failure leaves
    /// the record exactly as it was, so a mismatching reveal can never plant
    /// a bogus choice.
    pub fn reveal_choice(&mut self, caller: String, gamer_id: &String, choice: String, secret: String)
        -> (r: Result<(), RPSError>)
        requires
            old(self).wf(),
        ensures
            final(self).wf(),
            final(self).completed_map() == old(self).completed_map(),
            ({
                let m = old(self).active_map();
                if !m.contains_key(gamer_id@) {
                    r == Err::<(), RPSError>(RPSError::NotFound) && final(self).active_map() == m
                } else {
                    let g = m[gamer_id@];
                    let first_slot = caller@ == g.initiator;
                    if !(g.state is AwaitingReveal) {
                        r == Err::<(), RPSError>(RPSError::WrongState) && final(self).active_map()
                            == m
                    } else if !first_slot && g.responder != Some(caller@) {
                        r == Err::<(), RPSError>(RPSError::NotFound) && final(self).active_map()
                            == m
                    } else if first_slot && g.real_p1 is Some || !first_slot && g.real_p2 is Some {
                        r == Err::<(), RPSError>(RPSError::AlreadyRevealed)
                            && final(self).active_map() == m
                    } else if choice_rank(choice@) is None {
                        r == Err::<(), RPSError>(RPSError::InvalidChoice)
                            && final(self).active_map() == m
                    } else if !commitment_matches(
                        if first_slot {
                            g.primary_commit
                        } else {
                            g.secondary_commit->0
                        },
                        choice@,
                        secret@,
                    ) {
                        r == Err::<(), RPSError>(RPSError::CommitmentMismatch)
                            && final(self).active_map() == m
                    } else {
                        r == Ok::<(), RPSError>(()) && final(self).active_map() == m.insert(
                            gamer_id@,
                            revealed_game(g, first_slot, choice_rank(choice@)->0),
                        )
                    }
                }
            }),
    {
        let existing = self.active_games.get(gamer_id);
        let g = match existing {
            None => {
                return Err(RPSError::NotFound);
            },
            Some(g) => g,
        };
        match g.state {
            GameState::AwaitingReveal => {},
            _ => {
                return Err(RPSError::WrongState);
            },
        }
        let first_slot = caller == g.initiator_id;
        if !first_slot {
            let is_responder = match &g.responder_id {
                Some(id) => *id == caller,
                None => false,
            };
            if !is_responder {
                return Err(RPSError::NotFound);
            }
        }
        let already = if first_slot {
            g.real_p1.is_some()
        } else {
            g.real_p2.is_some()
        };
        if already {
            return Err(RPSError::AlreadyRevealed);
        }
        let rank = match Contract::choice_to_number(&choice) {
            None => {
                return Err(RPSError::InvalidChoice);
            },
            Some(rank) => rank,
        };
        let matches_commit = if first_slot {
            check_commitment(&g.primary_commit, &choice, &secret)
        } else {
            match &g.secondary_commit {
                Some(c) => check_commitment(c, &choice, &secret),
                None => false,
            }
        };
        if !matches_commit {
            return Err(RPSError::CommitmentMismatch);
        }
        let ghost old_view = g@;
        let mut updated = clone_game(g);
        if first_slot {
            updated.real_p1 = Some(rank);
        } else {
            updated.real_p2 = Some(rank);
        }
        match (updated.real_p1, updated.real_p2) {
            (Some(r1), Some(r2)) => {
                let o = Contract::resolve_game(&r1, &r2);
                updated.state = GameState::Resolved(o);
                updated.winner = match o {
                    GameOutcome::P1Win => Some(updated.initiator_id.clone()),
                    GameOutcome::P2Win => match &updated.responder_id {
                        Some(id) => Some(id.clone()),
                        None => None,
                    },
                    GameOutcome::Draw => None,
                };
            },
            _ => {},
        }
        proof {
            assert(updated@ == revealed_game(old_view, first_slot, rank));
            lemma_revealed_game_wf(old_view, first_slot, rank);
            lemma_wf_game_map_insert(self.active_map(), gamer_id@, updated@);
        }
        self.active_games.insert(gamer_id.clone(), updated);
        Ok(())
    }

    /// The outcome of the game `gamer_id` started. Read-only: succeeds once
    /// the game is resolved, fails with `NotReady` while it is not, and with
    /// `NotFound` when no record exists in either collection.
    pub fn resolve(&self, gamer_id: &String) -> (r: Result<GameOutcome, RPSError>)
        ensures
            ({
                let m = self.active_map();
                let c = self.completed_map();
                if m.contains_key(gamer_id@) {
                    match m[gamer_id@].state {
                        GameState::Resolved(o) => r == Ok::<GameOutcome, RPSError>(o),
                        _ => r == Err::<GameOutcome, RPSError>(RPSError::NotReady),
                    }
                } else if c.contains_key(gamer_id@) {
                    match c[gamer_id@].state {
                        GameState::Resolved(o) => r == Ok::<GameOutcome, RPSError>(o),
                        _ => r == Err::<GameOutcome, RPSError>(RPSError::NotReady),
                    }
                } else {
                    r == Err::<GameOutcome, RPSError>(RPSError::NotFound)
                }
            }),
    {
        let g = match self.active_games.get(gamer_id) {
            Some(g) => g,
            None => match self.completed_games.get(gamer_id) {
                Some(g) => g,
                None => {
                    return Err(RPSError::NotFound);
                },
            },
        };
        match g.state {
            GameState::Resolved(o) => Ok(o),
            _ => Err(RPSError::NotReady),
        }
    }

    /// Marks the game `gamer_id` started as given up. Fails with `NotFound`
    /// when no such game is active and with `WrongState` when the game is
    /// already terminal.
    pub fn abandon_game(&mut self, gamer_id: &String) -> (r: Result<(), RPSError>)
        requires
            old(self).wf(),
        ensures
            final(self).wf(),
            final(self).completed_map() == old(self).completed_map(),
            ({
                let m = old(self).active_map();
                if !m.contains_key(gamer_id@) {
                    r == Err::<(), RPSError>(RPSError::NotFound) && final(self).active_map() == m
                } else if is_terminal(m[gamer_id@].state) {
                    r == Err::<(), RPSError>(RPSError::WrongState) && final(self).active_map() == m
                } else {
                    r == Ok::<(), RPSError>(()) && final(self).active_map() == m.insert(
                        gamer_id@,
                        abandoned_game(m[gamer_id@]),
                    )
                }
            }),
    {
        let g = match self.active_games.get(gamer_id) {
            Some(g) => g,
            None => {
                return Err(RPSError::NotFound);
            },
        };
        match g.state {
            GameState::Resolved(_) | GameState::Abandoned => {
                return Err(RPSError::WrongState);
            },
            _ => {},
        }
        let mut updated = clone_game(g);
        updated.state = GameState::Abandoned;
        proof {
            let m = self.active_map();
            assert(updated@ == abandoned_game(m[gamer_id@]));
            lemma_abandoned_game_wf(m[gamer_id@]);
            lemma_wf_game_map_insert(m, gamer_id@, updated@);
        }
        self.active_games.insert(gamer_id.clone(), updated);
        Ok(())
    }

    /// Moves the terminal game `gamer_id` started out of the active
    /// collection and into the completed one, so the same identity can start
    /// a fresh game. Fails with `NotFound` when no such game is active and
    /// with `WrongState` while the game is not terminal.
    pub fn archive_game(&mut self, gamer_id: &String) -> (r: Result<(), RPSError>)
        requires
            old(self).wf(),
        ensures
            final(self).wf(),
            ({
                let m = old(self).active_map();
                if !m.contains_key(gamer_id@) {
                    r == Err::<(), RPSError>(RPSError::NotFound) && final(self).active_map() == m
                        && final(self).completed_map() == old(self).completed_map()
                } else if !is_terminal(m[gamer_id@].state) {
                    r == Err::<(), RPSError>(RPSError::WrongState) && final(self).active_map() == m
                        && final(self).completed_map() == old(self).completed_map()
                } else {
                    r == Ok::<(), RPSError>(()) && final(self).active_map() == m.remove(gamer_id@)
                        && final(self).completed_map() == old(self).completed_map().insert(
                        gamer_id@,
                        m[gamer_id@],
                    )
                }
            }),
    {
        let g = match self.active_games.get(gamer_id) {
            Some(g) => g,
            None => {
                return Err(RPSError::NotFound);
            },
        };
        match g.state {
            GameState::Resolved(_) | GameState::Abandoned => {},
            _ => {
                return Err(RPSError::WrongState);
            },
        }
        let archived = clone_game(g);
        proof {
            let m = self.active_map();
            lemma_wf_game_map_remove(m, gamer_id@);
            lemma_wf_completed_map_insert(self.completed_map(), gamer_id@, archived@);
        }
        self.active_games.remove(gamer_id);
        self.completed_games.insert(gamer_id.clone(), archived);
        Ok(())
    }
}

impl Default for Contract {
    /// A fresh contract: both collections empty.
    fn default() -> (c: Contract)
        ensures
            c.wf(),
            c.active_map() == Map::<Seq<char>, GameView>::empty(),
            c.completed_map() == Map::<Seq<char>, GameView>::empty(),
    {
        Contract { active_games: GameStore::new(), completed_games: GameStore::new() }
    }
}

} // verus!
