//! Board snapshots as plain values, and the learning state built on them.
use vstd::prelude::*;

verus! {

/// Number of cells along each side of the board.
pub const BOARD_SIZE: u8 = 11;

/// Index of the middle row and column.
pub const CENTER: u8 = 5;

/// The two sides: `Black` attacks, `White` defends the king.
#[derive(Clone, Copy, Debug, PartialEq, Eq, Hash, Structural)]
pub enum Player {
    Black,
    White,
}

impl Player {
    pub open spec fn spec_opposite(&self) -> Player {
        match self {
            Player::Black => Player::White,
            Player::White => Player::Black,
        }
    }

    /// The other side.
    #[verifier::when_used_as_spec(spec_opposite)]
    pub fn opposite(&self) -> (r: Player)
        ensures
            r == self.spec_opposite(),
    {
        match self {
            Player::Black => Player::White,
            Player::White => Player::Black,
        }
    }
}

/// A cell, by column `x` and row `y`.
#[derive(Clone, Copy, Debug, PartialEq, Eq, Hash, Structural)]
pub struct Position {
    pub x: u8,
    pub y: u8,
}

/// A move of one piece from one cell to another.
#[derive(Clone, Copy, Debug, PartialEq, Eq, Hash, Structural)]
pub struct Move {
    pub from: Position,
    pub to: Position,
}

/// An action of the learning problem: one move of the rules engine.
#[derive(Clone, Copy, Debug, PartialEq, Eq, Hash, Structural)]
pub struct BoardMove {
    pub piece_move: Move,
}

/// The zero-length move that stands for "nothing left to do".
pub open spec fn spec_sentinel() -> BoardMove {
    BoardMove { piece_move: Move { from: Position { x: 0, y: 0 }, to: Position { x: 0, y: 0 } } }
}

impl BoardMove {
    /// The no-op action offered by finished games.
    pub fn sentinel() -> (r: BoardMove)
        ensures
            r == spec_sentinel(),
    {
        BoardMove { piece_move: Move { from: Position { x: 0, y: 0 }, to: Position { x: 0, y: 0 } } }
    }
}

/// What the training logic reads of a position, as the rules engine reports it:
/// where the attackers stand, where the king stands (if still on the board),
/// whether the king has escaped, whose turn it is and the legal moves of that side.
#[derive(Clone, Debug, PartialEq, Eq, Hash)]
pub struct Board {
    pub attackers: Vec<Position>,
    pub king: Option<Position>,
    pub king_escaped: bool,
    pub next: Player,
    pub legal_moves: Vec<Move>,
}

impl Board {
    /// An escaped king is still on the board.
    pub open spec fn wf(&self) -> bool {
        self.king_escaped ==> self.king.is_some()
    }

    /// The game is over: the king was captured or escaped.
    pub open spec fn spec_finished(&self) -> bool {
        self.king.is_none() || self.king_escaped
    }

    pub fn finished(&self) -> (r: bool)
        ensures
            r == self.spec_finished(),
    {
        self.king.is_none() || self.king_escaped
    }
}

/// One position seen by one side, with the number of half-moves played so far.
/// Positions that differ only in `num_moves` are different states.
#[derive(Clone, Debug, PartialEq, Eq, Hash)]
pub struct BoardState {
    pub board: Board,
    pub player: Player,
    pub num_moves: usize,
}

/// The actions offered in a state: the sentinel alone once the game is over,
/// else every legal move, in the engine's order.
pub open spec fn spec_actions(s: BoardState) -> Seq<BoardMove> {
    if s.board.spec_finished() {
        seq![spec_sentinel()]
    } else {
        s.board.legal_moves@.map_values(|m: Move| BoardMove { piece_move: m })
    }
}

impl BoardState {
    /// A fresh episode on `board`, seen by the attacker.
    pub fn new(board: Board) -> (r: BoardState)
        ensures
            r.board == board,
            r.player == Player::Black,
            r.num_moves == 0,
    {
        BoardState { board, player: Player::Black, num_moves: 0 }
    }

    pub fn actions(&self) -> (r: Vec<BoardMove>)
        ensures
            r@ == spec_actions(*self),
    {
        if self.board.finished() {
            return vec![BoardMove::sentinel()];
        }
        let mut r: Vec<BoardMove> = Vec::new();
        let n = self.board.legal_moves.len();
        for i in 0..n
            invariant
                n == self.board.legal_moves@.len(),
                r@ == self.board.legal_moves@.take(i as int).map_values(
                    |m: Move| BoardMove { piece_move: m },
                ),
        {
            r.push(BoardMove { piece_move: self.board.legal_moves[i] });
            assert(self.board.legal_moves@.take(i as int + 1) == self.board.legal_moves@.take(
                i as int,
            ).push(self.board.legal_moves@[i as int]));
        }
        assert(self.board.legal_moves@.take(n as int) == self.board.legal_moves@);
        r
    }

    /// Counts the half-move just played and hands the view to the other side.
    pub fn hand_over(&mut self)
        requires
            old(self).num_moves < usize::MAX,
        ensures
            final(self).board == old(self).board,
            final(self).player == old(self).player.opposite(),
            final(self).num_moves == old(self).num_moves + 1,
    {
        self.num_moves = self.num_moves + 1;
        self.player = self.player.opposite();
    }

    /// Counts the opponent's reply, keeping the point of view.
    pub fn count_reply(&mut self)
        requires
            old(self).num_moves < usize::MAX,
        ensures
            final(self).board == old(self).board,
            final(self).player == old(self).player,
            final(self).num_moves == old(self).num_moves + 1,
    {
        self.num_moves = self.num_moves + 1;
    }
}

/// Every state offers at least one action, unless the game is still running
/// and the engine reports no legal move.
pub proof fn lemma_actions_nonempty(s: BoardState)
    requires
        s.board.spec_finished() || s.board.legal_moves@.len() > 0,
    ensures
        spec_actions(s).len() > 0,
{
}

} // verus!
