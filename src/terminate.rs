//! When an episode ends.
use vstd::prelude::*;

use crate::board::BoardState;

verus! {

/// Length cap of an episode when none is given.
pub const DEFAULT_MAX_GAME_LENGTH: isize = 1000;

/// Decides when an episode ends: a per-episode countdown of half-moves,
/// together with the end of the game itself.
pub struct HnefataflTerminator(isize);

/// The game cannot go on from `s`: the king is gone or has escaped, or the
/// side to move has no legal move.
pub open spec fn spec_game_over(s: BoardState) -> bool {
    s.board.spec_finished() || s.board.legal_moves@.len() == 0
}

impl HnefataflTerminator {
    /// The number of inspections left before the countdown alone stops the episode.
    pub closed spec fn remaining(&self) -> int {
        self.0 as int
    }

    pub fn new(max_game_length: isize) -> (r: Self)
        ensures
            r.remaining() == max_game_length,
    {
        HnefataflTerminator(max_game_length)
    }

    /// The inspections left on the countdown.
    pub fn left(&self) -> (r: isize)
        ensures
            r == self.remaining(),
    {
        self.0
    }

    /// Counts one more half-move and reports whether the episode ends at `state`.
    pub fn should_stop(&mut self, state: &BoardState) -> (r: bool)
        requires
            old(self).remaining() > isize::MIN,
        ensures
            final(self).remaining() == old(self).remaining() - 1,
            r == (spec_game_over(*state) || final(self).remaining() <= 0),
    {
        self.0 = self.0 - 1;
        state.board.finished() || state.board.legal_moves.len() == 0 || self.0 <= 0
    }
}

impl Default for HnefataflTerminator {
    fn default() -> (r: Self)
        ensures
            r.remaining() == DEFAULT_MAX_GAME_LENGTH,
    {
        HnefataflTerminator::new(DEFAULT_MAX_GAME_LENGTH)
    }
}

} // verus!
