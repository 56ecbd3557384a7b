//! The resolution engine: a pure, total function from two revealed choices to
//! an outcome.
//!
//! Choices are mapped to ordinal ranks (`rock = 3`, `scissors = 2`,
//! `paper = 1`) so that "beats" is arithmetic: equal ranks draw, ranks one
//! apart give the win to the higher rank (rock beats scissors, scissors beat
//! paper), and ranks further apart give the win to the lower rank (paper
//! beats rock).

use vstd::prelude::*;

verus! {

/// How a finished game came out, seen from the two player positions.
#[derive(Debug, Clone, Copy, PartialEq, Eq, Structural)]
pub enum GameOutcome {
    P1Win,
    P2Win,
    Draw,
}

/// The ranks that the three canonical choices map to.
pub open spec fn valid_rank(r: i8) -> bool {
    1 <= r <= 3
}

/// The rank of a choice string: `rock = 3`, `scissors = 2`, `paper = 1`,
/// anything else is rejected.
pub open spec fn choice_rank(c: Seq<char>) -> Option<i8> {
    if c == "rock"@ {
        Some(3i8)
    } else if c == "scissors"@ {
        Some(2i8)
    } else if c == "paper"@ {
        Some(1i8)
    } else {
        None
    }
}

/// The tie-break rule over ranks: equal ranks draw; adjacent ranks go to the
/// higher one; non-adjacent ranks go to the lower one.
pub open spec fn resolve_ranks(r1: int, r2: int) -> GameOutcome {
    if r1 == r2 {
        GameOutcome::Draw
    } else if r1 - r2 == 1 || r2 - r1 == 1 {
        if r1 > r2 {
            GameOutcome::P1Win
        } else {
            GameOutcome::P2Win
        }
    } else {
        if r1 < r2 {
            GameOutcome::P1Win
        } else {
            GameOutcome::P2Win
        }
    }
}

/// The same outcome seen from the other side of the table.
pub open spec fn flip_outcome(o: GameOutcome) -> GameOutcome {
    match o {
        GameOutcome::P1Win => GameOutcome::P2Win,
        GameOutcome::P2Win => GameOutcome::P1Win,
        GameOutcome::Draw => GameOutcome::Draw,
    }
}

/// Two valid choices resolve to a draw exactly when they are the same choice.
pub proof fn lemma_resolve_draw_iff_equal(c1: Seq<char>, c2: Seq<char>, r1: i8, r2: i8)
    requires
        choice_rank(c1) == Some(r1),
        choice_rank(c2) == Some(r2),
    ensures
        (resolve_ranks(r1 as int, r2 as int) == GameOutcome::Draw) <==> c1 == c2,
{
}

/// Resolution is anti-symmetric: swapping the two choices names the same
/// winner by the swapped position.
pub proof fn lemma_resolve_antisymmetric(r1: i8, r2: i8)
    requires
        valid_rank(r1),
        valid_rank(r2),
    ensures
        resolve_ranks(r1 as int, r2 as int) == flip_outcome(resolve_ranks(r2 as int, r1 as int)),
{
}

} // verus!
