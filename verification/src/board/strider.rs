//! Directional ray-scanning: a [`Strider`] walks the board in a straight
//! line away from a center cell, one cell per step, until the edge is
//! reached.

use crate::board::{Board, Disc};
use crate::position::{
    coords_in_bounds, lemma_index_decomposition, lemma_pack_round_trip, pack_index, Position,
};
use vstd::prelude::*;

verus! {

/// One of the eight compass directions.
#[derive(Debug, Clone, Copy, PartialEq, Eq, Structural)]
pub enum Direction {
    Up,
    UpRight,
    Right,
    DownRight,
    Down,
    DownLeft,
    Left,
    UpLeft,
}

/// The per-step `(row, column)` offset of a direction.
pub open spec fn dir_delta(d: Direction) -> (int, int) {
    match d {
        Direction::Up => (-1, 0),
        Direction::UpRight => (-1, 1),
        Direction::Right => (0, 1),
        Direction::DownRight => (1, 1),
        Direction::Down => (1, 0),
        Direction::DownLeft => (1, -1),
        Direction::Left => (0, -1),
        Direction::UpLeft => (-1, -1),
    }
}

/// The direction whose per-step offset is `(dr, dc)`; meaningful only for
/// the eight unit offsets of adjacent cells.
pub open spec fn dir_towards(dr: int, dc: int) -> Direction {
    if dr == -1 && dc == 0 {
        Direction::Up
    } else if dr == -1 && dc == 1 {
        Direction::UpRight
    } else if dr == 0 && dc == 1 {
        Direction::Right
    } else if dr == 1 && dc == 1 {
        Direction::DownRight
    } else if dr == 1 && dc == 0 {
        Direction::Down
    } else if dr == 1 && dc == -1 {
        Direction::DownLeft
    } else if dr == 0 && dc == -1 {
        Direction::Left
    } else {
        Direction::UpLeft
    }
}

/// The row reached after `k` steps from row `r` in direction `d`.
pub open spec fn ray_row(r: int, d: Direction, k: int) -> int {
    r + k * dir_delta(d).0
}

/// The column reached after `k` steps from column `c` in direction `d`.
pub open spec fn ray_col(c: int, d: Direction, k: int) -> int {
    c + k * dir_delta(d).1
}

/// Whether the cell `k` steps from `(r, c)` in direction `d` is on the
/// board.
pub open spec fn ray_in_bounds(r: int, c: int, d: Direction, k: int) -> bool {
    coords_in_bounds(ray_row(r, d, k), ray_col(c, d, k))
}

/// Whether one more step from `(r, c)` in direction `d` would leave the
/// board.
pub open spec fn blocked(r: int, c: int, d: Direction) -> bool {
    !ray_in_bounds(r, c, d, 1)
}

/// A ray starts at its center cell, and its first step lands one offset
/// away.
pub proof fn lemma_ray_start(r: int, c: int, d: Direction)
    ensures
        ray_row(r, d, 0) == r,
        ray_col(c, d, 0) == c,
        ray_row(r, d, 1) == r + dir_delta(d).0,
        ray_col(c, d, 1) == c + dir_delta(d).1,
{
    assert(0 * dir_delta(d).0 == 0) by (nonlinear_arith);
    assert(0 * dir_delta(d).1 == 0) by (nonlinear_arith);
    assert(1 * dir_delta(d).0 == dir_delta(d).0) by (nonlinear_arith);
    assert(1 * dir_delta(d).1 == dir_delta(d).1) by (nonlinear_arith);
}

/// Taking one more step moves the ray by one offset.
pub proof fn lemma_ray_step(r: int, c: int, d: Direction, k: int)
    ensures
        ray_row(r, d, k + 1) == ray_row(r, d, k) + dir_delta(d).0,
        ray_col(c, d, k + 1) == ray_col(c, d, k) + dir_delta(d).1,
{
    assert((k + 1) * dir_delta(d).0 == k * dir_delta(d).0 + dir_delta(d).0) by (nonlinear_arith);
    assert((k + 1) * dir_delta(d).1 == k * dir_delta(d).1 + dir_delta(d).1) by (nonlinear_arith);
}

/// For each unit offset, `dir_towards` picks the direction with exactly that
/// offset.
pub proof fn lemma_dir_towards_delta(dr: int, dc: int)
    requires
        -1 <= dr <= 1,
        -1 <= dc <= 1,
        !(dr == 0 && dc == 0),
    ensures
        dir_delta(dir_towards(dr, dc)) == (dr, dc),
{
}

/// Reading a direction's offset back through `dir_towards` recovers the
/// direction.
pub proof fn lemma_dir_roundtrip(d: Direction)
    ensures
        dir_towards(dir_delta(d).0, dir_delta(d).1) == d,
{
}

/// A ray can stay on the board for at most seven steps.
pub proof fn lemma_ray_steps_bounded(r: int, c: int, d: Direction, k: int)
    requires
        coords_in_bounds(r, c),
        0 <= k,
        ray_in_bounds(r, c, d, k),
    ensures
        k <= 7,
{
}

/// A lazy walk from `pos` in direction `dir`: each step advances one cell
/// and yields the cell reached with its disc, ending at the board edge.
#[derive(Debug)]
pub struct Strider {
    pub board: Board,
    pub pos: Position,
    pub dir: Direction,
}

impl Strider {
    /// Advances one cell in `dir` and yields the cell reached with its
    /// contents, or yields `None` (and stays put) when the next cell would
    /// be off the board.
    pub fn next(&mut self) -> (r: Option<(Position, Disc)>)
        ensures
            final(self).board == old(self).board,
            final(self).dir == old(self).dir,
            blocked(old(self).pos.row_spec(), old(self).pos.col_spec(), old(self).dir) ==> (r
                is None && final(self).pos == old(self).pos),
            !blocked(old(self).pos.row_spec(), old(self).pos.col_spec(), old(self).dir) ==> ({
                &&& final(self).pos.row_spec() == old(self).pos.row_spec() + dir_delta(
                    old(self).dir,
                ).0
                &&& final(self).pos.col_spec() == old(self).pos.col_spec() + dir_delta(
                    old(self).dir,
                ).1
                &&& coords_in_bounds(final(self).pos.row_spec(), final(self).pos.col_spec())
                &&& final(self).pos@ == pack_index(
                    final(self).pos.row_spec(),
                    final(self).pos.col_spec(),
                )
                &&& r === Some((final(self).pos, old(self).board@[final(self).pos@]))
            }),
    {
        let row = self.pos.row();
        let col = self.pos.col();
        let idx = self.pos.index();
        proof {
            lemma_index_decomposition(idx as int);
        }
        let step_idx: u8 = match self.dir {
            Direction::Up => {
                if row == 0 {
                    return None;
                }
                idx - 8
            },
            Direction::UpRight => {
                if row == 0 || col == 7 {
                    return None;
                }
                idx - 8 + 1
            },
            Direction::Right => {
                if col == 7 {
                    return None;
                }
                idx + 1
            },
            Direction::DownRight => {
                if col == 7 || row == 7 {
                    return None;
                }
                idx + 8 + 1
            },
            Direction::Down => {
                if row == 7 {
                    return None;
                }
                idx + 8
            },
            Direction::DownLeft => {
                if row == 7 || col == 0 {
                    return None;
                }
                idx + 8 - 1
            },
            Direction::Left => {
                if col == 0 {
                    return None;
                }
                idx - 1
            },
            Direction::UpLeft => {
                if col == 0 || row == 0 {
                    return None;
                }
                idx - 8 - 1
            },
        };
        proof {
            let r1 = row as int + dir_delta(self.dir).0;
            let c1 = col as int + dir_delta(self.dir).1;
            lemma_pack_round_trip(r1, c1);
            assert(step_idx as int == pack_index(r1, c1));
        }
        let p = Position::from_index(step_idx);
        self.pos = p;
        let d = self.board.get_piece(p);
        Some((p, d))
    }
}

} // verus!
