//! The shaped reward of a state.
//!
//! Rewards are counted in quarter points, so that the penalty of a quarter
//! point per half-move played stays an exact integer: a reward of `r`
//! quarter points is `r / 4` points.
use vstd::prelude::*;

use crate::board::{BoardState, Player, Position, CENTER};

verus! {

/// How many of the nearest attackers count towards the pressure on the king.
pub const NEAREST_COUNT: usize = 10;

/// The reward of a decided game, in quarter points (1000 points).
pub const DECISIVE_QUARTERS: i128 = 4000;

pub open spec fn abs_diff(a: int, b: int) -> int {
    if a >= b {
        a - b
    } else {
        b - a
    }
}

pub open spec fn manhattan(a: Position, b: Position) -> int {
    abs_diff(a.x as int, b.x as int) + abs_diff(a.y as int, b.y as int)
}

pub open spec fn center() -> Position {
    Position { x: CENTER, y: CENTER }
}

/// Distance from `k` to each piece of `s`, in order.
pub open spec fn distances_from(k: Position, s: Seq<Position>) -> Seq<int> {
    s.map_values(|p: Position| manhattan(k, p))
}

pub open spec fn ints(s: Seq<u64>) -> Seq<int> {
    s.map_values(|v: u64| v as int)
}

/// Index of the first smallest element.
pub open spec fn first_min_index(s: Seq<int>) -> int
    decreases s.len(),
{
    if s.len() <= 1 {
        0
    } else {
        let j = first_min_index(s.drop_last());
        if s.last() < s[j] {
            s.len() - 1
        } else {
            j
        }
    }
}

/// Sum of the `n` smallest elements of `s`, or of all of them if there are fewer.
pub open spec fn smallest_sum(s: Seq<int>, n: nat) -> int
    decreases n,
{
    if n == 0 || s.len() == 0 {
        0
    } else {
        let i = first_min_index(s);
        s[i] + smallest_sum(s.remove(i), (n - 1) as nat)
    }
}

pub open spec fn min_int(a: int, b: int) -> int {
    if a <= b {
        a
    } else {
        b
    }
}

/// The reward of `s` from the point of view of `s.player`, in quarter points.
/// An escape wins for the defender, a capture for the attacker; otherwise the
/// attacker is rewarded for its numbers and for crowding the king with its
/// nearest pieces, the defender for a king far from the middle and for
/// thinning the attackers, and both lose a quarter point per half-move.
pub open spec fn spec_reward_quarters(s: BoardState) -> int {
    let b = s.board.attackers@.len() as int;
    if s.board.king_escaped {
        if s.player == Player::Black {
            -DECISIVE_QUARTERS
        } else {
            DECISIVE_QUARTERS as int
        }
    } else if s.board.king.is_none() {
        if s.player == Player::Black {
            DECISIVE_QUARTERS as int
        } else {
            -DECISIVE_QUARTERS
        }
    } else {
        let k = s.board.king.unwrap();
        if s.player == Player::Black {
            let kd = smallest_sum(distances_from(k, s.board.attackers@), NEAREST_COUNT as nat);
            4 * (b + (min_int(NEAREST_COUNT as int, b) * 10 - kd) * 2) - s.num_moves
        } else {
            4 * (manhattan(k, center()) * 10 - b) - s.num_moves
        }
    }
}

fn abs_diff_u8(a: u8, b: u8) -> (r: u64)
    ensures
        r as int == abs_diff(a as int, b as int),
{
    if a >= b {
        (a - b) as u64
    } else {
        (b - a) as u64
    }
}

/// Manhattan distance between two cells.
pub fn distance(a: Position, b: Position) -> (r: u64)
    ensures
        r as int == manhattan(a, b),
        r <= 510,
{
    abs_diff_u8(a.x, b.x) + abs_diff_u8(a.y, b.y)
}

fn first_min_index_of(d: &Vec<u64>) -> (r: usize)
    requires
        d.len() > 0,
    ensures
        r < d.len(),
        r as int == first_min_index(ints(d@)),
{
    let mut best: usize = 0;
    let mut i: usize = 1;
    while i < d.len()
        invariant
            1 <= i <= d.len(),
            best < i,
            best as int == first_min_index(ints(d@).take(i as int)),
        decreases d.len() - i,
    {
        proof {
            let t = ints(d@).take(i as int + 1);
            assert(t.drop_last() =~= ints(d@).take(i as int));
        }
        if d[i] < d[best] {
            best = i;
        }
        i = i + 1;
    }
    proof {
        assert(ints(d@).take(d.len() as int) =~= ints(d@));
    }
    best
}

/// Sum of the `n` smallest values of `d`.
fn sum_of_smallest(d: Vec<u64>, n: usize) -> (r: u64)
    requires
        n <= NEAREST_COUNT,
        forall|k: int| 0 <= k < d@.len() ==> d@[k] <= 510,
    ensures
        r as int == smallest_sum(ints(d@), n as nat),
{
    let ghost whole = ints(d@);
    let mut d = d;
    let mut acc: u64 = 0;
    let mut k: usize = 0;
    while k < n && d.len() > 0
        invariant
            k <= n,
            n <= NEAREST_COUNT,
            forall|j: int| 0 <= j < d@.len() ==> d@[j] <= 510,
            acc <= k * 510,
            acc as int + smallest_sum(ints(d@), (n - k) as nat) == smallest_sum(whole, n as nat),
        decreases n - k,
    {
        let i = first_min_index_of(&d);
        proof {
            assert(ints(d@.remove(i as int)) =~= ints(d@).remove(i as int));
        }
        let v = d.remove(i);
        acc = acc + v;
        k = k + 1;
    }
    acc
}

impl BoardState {
    /// The reward of this state for `self.player`, in quarter points.
    pub fn reward_quarters(&self) -> (r: i128)
        ensures
            r as int == spec_reward_quarters(*self),
    {
        let b = self.board.attackers.len() as i128;
        if self.board.king_escaped {
            return if self.player == Player::Black {
                -DECISIVE_QUARTERS
            } else {
                DECISIVE_QUARTERS
            };
        }
        let k = match self.board.king {
            None => {
                return if self.player == Player::Black {
                    DECISIVE_QUARTERS
                } else {
                    -DECISIVE_QUARTERS
                };
            },
            Some(k) => k,
        };
        match self.player {
            Player::Black => {
                let mut d: Vec<u64> = Vec::new();
                let n = self.board.attackers.len();
                for i in 0..n
                    invariant
                        n == self.board.attackers@.len(),
                        ints(d@) =~= distances_from(k, self.board.attackers@.take(i as int)),
                        forall|j: int| 0 <= j < d@.len() ==> d@[j] <= 510,
                {
                    let ghost before = ints(d@);
                    let dist = distance(k, self.board.attackers[i]);
                    d.push(dist);
                    proof {
                        assert(ints(d@) =~= before.push(dist as int));
                        assert(self.board.attackers@.take(i as int + 1) =~= self.board.attackers@.take(
                            i as int,
                        ).push(self.board.attackers@[i as int]));
                        assert(ints(d@) =~= distances_from(
                            k,
                            self.board.attackers@.take(i as int + 1),
                        ));
                    }
                }
                proof {
                    assert(self.board.attackers@.take(n as int) =~= self.board.attackers@);
                }
                let kd = sum_of_smallest(d, NEAREST_COUNT) as i128;
                let near = if b < 10 {
                    b
                } else {
                    10
                };
                4 * (b + (near * 10 - kd) * 2) - self.num_moves as i128
            },
            Player::White => {
                let c = Position { x: CENTER, y: CENTER };
                let m = distance(k, c) as i128;
                4 * (m * 10 - b) - self.num_moves as i128
            },
        }
    }
}

/// Once the king is captured the attacker gains 1000 points and the defender loses 1000.
pub proof fn lemma_capture_reward(s: BoardState)
    requires
        s.board.wf(),
        s.board.king.is_none(),
    ensures
        s.player == Player::Black ==> spec_reward_quarters(s) == 4 * 1000,
        s.player == Player::White ==> spec_reward_quarters(s) == -4 * 1000,
{
}

/// Once the king has escaped the defender gains 1000 points and the attacker loses 1000.
pub proof fn lemma_escape_reward(s: BoardState)
    requires
        s.board.king_escaped,
    ensures
        s.player == Player::Black ==> spec_reward_quarters(s) == -4 * 1000,
        s.player == Player::White ==> spec_reward_quarters(s) == 4 * 1000,
{
}

} // verus!
