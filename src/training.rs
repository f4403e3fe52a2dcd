//! Bookkeeping of self-play training: which opponent a game faces and how
//! finished games are counted.
use vstd::prelude::*;

use crate::board::Board;

verus! {

/// Attacker-training games, and as many defender-training games, per epoch.
pub const DOUBLE_GAMES_PER_EPOCH: usize = 50;

/// Length cap of a training episode.
pub const TRAINING_MAX_GAME_LENGTH: isize = 5000;

/// How a finished game ended.
#[derive(Clone, Copy, Debug, PartialEq, Eq, Structural)]
pub enum Outcome {
    /// The king was captured.
    Capture,
    /// The king escaped.
    Escape,
    /// The countdown ran out, or the side to move had no move.
    Draw,
}

pub open spec fn spec_outcome(b: Board) -> Outcome {
    if b.king.is_none() {
        Outcome::Capture
    } else if b.king_escaped {
        Outcome::Escape
    } else {
        Outcome::Draw
    }
}

/// Classifies the final position of a game.
pub fn outcome(board: &Board) -> (r: Outcome)
    ensures
        r == spec_outcome(*board),
{
    if board.king.is_none() {
        Outcome::Capture
    } else if board.king_escaped {
        Outcome::Escape
    } else {
        Outcome::Draw
    }
}

/// Whether game number `game` (counted from one) of a training half-epoch
/// faces an opponent that plays its learned values; the others face a
/// uniformly random opponent.
pub fn opponent_uses_values(game: usize) -> (r: bool)
    ensures
        r == (game % 2 == 1),
{
    game % 2 == 1
}

/// Running totals of finished games.
pub struct Tally {
    pub escape_wins: u64,
    pub capture_wins: u64,
    pub draws: u64,
}

impl Tally {
    pub fn new() -> (r: Tally)
        ensures
            r.escape_wins == 0,
            r.capture_wins == 0,
            r.draws == 0,
    {
        Tally { escape_wins: 0, capture_wins: 0, draws: 0 }
    }

    /// Counts one finished game ending on `board`.
    pub fn record(&mut self, board: &Board)
        requires
            old(self).escape_wins < u64::MAX,
            old(self).capture_wins < u64::MAX,
            old(self).draws < u64::MAX,
        ensures
            final(self).capture_wins == old(self).capture_wins + (if spec_outcome(*board)
                == Outcome::Capture {
                1int
            } else {
                0int
            }),
            final(self).escape_wins == old(self).escape_wins + (if spec_outcome(*board)
                == Outcome::Escape {
                1int
            } else {
                0int
            }),
            final(self).draws == old(self).draws + (if spec_outcome(*board) == Outcome::Draw {
                1int
            } else {
                0int
            }),
    {
        match outcome(board) {
            Outcome::Capture => self.capture_wins = self.capture_wins + 1,
            Outcome::Escape => self.escape_wins = self.escape_wins + 1,
            Outcome::Draw => self.draws = self.draws + 1,
        }
    }

    /// Number of games counted.
    pub fn games(&self) -> (r: u128)
        ensures
            r == self.escape_wins + self.capture_wins + self.draws,
    {
        self.escape_wins as u128 + self.capture_wins as u128 + self.draws as u128
    }
}

} // verus!
