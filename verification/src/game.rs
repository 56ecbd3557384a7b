//! The game record and its state machine.
//!
//! A record is created when an initiator starts a game, gains a second
//! commitment when an opponent joins, gains revealed choices one reveal at a
//! time, and resolves automatically the moment the second valid reveal lands.
//! `Resolved` and `Abandoned` are terminal.

use vstd::prelude::*;

use crate::outcome::{resolve_ranks, valid_rank, GameOutcome};

verus! {

/// Where a game stands in its lifecycle.
#[derive(Debug, Clone, Copy, PartialEq, Eq, Structural)]
pub enum GameState {
    /// The initiator has committed; nobody has joined yet.
    AwaitingOpponent,
    /// Both commitments are down; fewer than two valid reveals have arrived.
    AwaitingReveal,
    /// Both parties revealed and the outcome is fixed. Terminal.
    Resolved(GameOutcome),
    /// Given up before both reveals arrived. Terminal.
    Abandoned,
}

/// One game, keyed in the store by the initiator's identity.
#[derive(Debug)]
pub struct RPSGame {
    /// The identity of the player who started the game.
    pub initiator_id: String,
    /// The identity of the player who joined, once one has.
    pub responder_id: Option<String>,
    /// The initiator's commitment.
    pub primary_commit: Vec<u8>,
    /// The joiner's commitment, once one has joined.
    pub secondary_commit: Option<Vec<u8>>,
    /// The initiator's revealed choice, as its rank, once revealed.
    pub real_p1: Option<i8>,
    /// The joiner's revealed choice, as its rank, once revealed.
    pub real_p2: Option<i8>,
    /// Where the game stands.
    pub state: GameState,
    /// The winning player's identity; set exactly in a non-drawn `Resolved`
    /// game.
    pub winner: Option<String>,
}

/// The mathematical shape of a game record: every identity and commitment as
/// the sequence it holds.
pub ghost struct GameView {
    pub initiator: Seq<char>,
    pub responder: Option<Seq<char>>,
    pub primary_commit: Seq<u8>,
    pub secondary_commit: Option<Seq<u8>>,
    pub real_p1: Option<i8>,
    pub real_p2: Option<i8>,
    pub state: GameState,
    pub winner: Option<Seq<char>>,
}

impl View for RPSGame {
    type V = GameView;

    open spec fn view(&self) -> GameView {
        GameView {
            initiator: self.initiator_id@,
            responder: match self.responder_id {
                Some(id) => Some(id@),
                None => None,
            },
            primary_commit: self.primary_commit@,
            secondary_commit: match self.secondary_commit {
                Some(c) => Some(c@),
                None => None,
            },
            real_p1: self.real_p1,
            real_p2: self.real_p2,
            state: self.state,
            winner: match self.winner {
                Some(id) => Some(id@),
                None => None,
            },
        }
    }
}

impl GameView {
    /// Well-formedness of a record. Constructors establish it and every
    /// transition preserves it. In particular a game is `Resolved` only with
    /// two valid reveals on the table, and its outcome is exactly what the
    /// resolution rule says of them.
    pub open spec fn wf(self) -> bool {
        &&& (self.responder is Some <==> self.secondary_commit is Some)
        &&& (self.real_p1 matches Some(r) ==> valid_rank(r))
        &&& (self.real_p2 matches Some(r) ==> valid_rank(r))
        &&& (self.real_p1 is Some ==> self.secondary_commit is Some)
        &&& (self.real_p2 is Some ==> self.secondary_commit is Some)
        &&& (self.state is AwaitingOpponent ==> {
            &&& self.secondary_commit is None
            &&& self.real_p1 is None
            &&& self.real_p2 is None
        })
        &&& (self.state is AwaitingReveal ==> {
            &&& self.secondary_commit is Some
            &&& !(self.real_p1 is Some && self.real_p2 is Some)
        })
        &&& (match self.state {
            GameState::Resolved(o) => {
                &&& self.real_p1 is Some
                &&& self.real_p2 is Some
                &&& o == resolve_ranks(self.real_p1->0 as int, self.real_p2->0 as int)
                &&& self.winner == resolved_winner(self, o)
            },
            _ => self.winner is None,
        })
    }
}

/// Whether a state admits no further transition.
pub open spec fn is_terminal(s: GameState) -> bool {
    s is Resolved || s is Abandoned
}

/// Who won a resolved game: the initiator on `P1Win`, the joiner on `P2Win`,
/// nobody on a draw.
pub open spec fn resolved_winner(g: GameView, o: GameOutcome) -> Option<Seq<char>> {
    match o {
        GameOutcome::P1Win => Some(g.initiator),
        GameOutcome::P2Win => g.responder,
        GameOutcome::Draw => None,
    }
}

/// The record a start call creates: one commitment down, waiting for an
/// opponent.
pub open spec fn started_game(initiator: Seq<char>, commitment: Seq<u8>) -> GameView {
    GameView {
        initiator: initiator,
        responder: None,
        primary_commit: commitment,
        secondary_commit: None,
        real_p1: None,
        real_p2: None,
        state: GameState::AwaitingOpponent,
        winner: None,
    }
}

/// The record after an opponent joins with their commitment.
pub open spec fn joined_game(g: GameView, responder: Seq<char>, commitment: Seq<u8>) -> GameView {
    GameView {
        responder: Some(responder),
        secondary_commit: Some(commitment),
        state: GameState::AwaitingReveal,
        ..g
    }
}

/// The record after one valid reveal lands in the given slot: the rank is
/// recorded, and if it was the second reveal the game resolves on the spot.
pub open spec fn revealed_game(g: GameView, first_slot: bool, rank: i8) -> GameView {
    let g1 = if first_slot {
        GameView { real_p1: Some(rank), ..g }
    } else {
        GameView { real_p2: Some(rank), ..g }
    };
    if g1.real_p1 is Some && g1.real_p2 is Some {
        let o = resolve_ranks(g1.real_p1->0 as int, g1.real_p2->0 as int);
        GameView { state: GameState::Resolved(o), winner: resolved_winner(g1, o), ..g1 }
    } else {
        g1
    }
}

/// The record after the game is given up.
pub open spec fn abandoned_game(g: GameView) -> GameView {
    GameView { state: GameState::Abandoned, ..g }
}

/// A freshly started game is well-formed.
pub proof fn lemma_started_game_wf(initiator: Seq<char>, commitment: Seq<u8>)
    ensures
        started_game(initiator, commitment).wf(),
{
}

/// Joining preserves well-formedness of a game that is awaiting an opponent.
pub proof fn lemma_joined_game_wf(g: GameView, responder: Seq<char>, commitment: Seq<u8>)
    requires
        g.wf(),
        g.state is AwaitingOpponent,
    ensures
        joined_game(g, responder, commitment).wf(),
{
}

/// A valid reveal into an empty slot preserves well-formedness of a game that
/// is awaiting reveals.
pub proof fn lemma_revealed_game_wf(g: GameView, first_slot: bool, rank: i8)
    requires
        g.wf(),
        g.state is AwaitingReveal,
        valid_rank(rank),
        first_slot ==> g.real_p1 is None,
        !first_slot ==> g.real_p2 is None,
    ensures
        revealed_game(g, first_slot, rank).wf(),
{
}

/// Abandoning preserves well-formedness of a non-terminal game.
pub proof fn lemma_abandoned_game_wf(g: GameView)
    requires
        g.wf(),
        g.state is AwaitingOpponent || g.state is AwaitingReveal,
    ensures
        abandoned_game(g).wf(),
{
}

/// A game cannot be `Resolved` with fewer than two valid reveals: in every
/// well-formed resolved record both revealed ranks are present and valid.
pub proof fn lemma_resolved_needs_two_reveals(g: GameView)
    requires
        g.wf(),
        g.state matches GameState::Resolved(_),
    ensures
        g.real_p1 matches Some(r1) && valid_rank(r1),
        g.real_p2 matches Some(r2) && valid_rank(r2),
{
}

} // verus!
