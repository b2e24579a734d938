//! Packed board coordinates.
//!
//! A [`Position`] stores a `(row, col)` pair, each in `[0, 7]`, as the single
//! 6-bit index `row * 8 + col`. Construction is bounds-checked, so every
//! `Position` value holds a valid index.

use vstd::prelude::*;

verus! {

/// The packed index of the cell at `(row, col)`.
pub open spec fn pack_index(row: int, col: int) -> int {
    8 * row + col
}

/// The row encoded in a packed index.
pub open spec fn row_of_index(idx: int) -> int {
    idx / 8
}

/// The column encoded in a packed index.
pub open spec fn col_of_index(idx: int) -> int {
    idx % 8
}

/// Whether `(row, col)` lies on the 8x8 board.
pub open spec fn coords_in_bounds(row: int, col: int) -> bool {
    0 <= row < 8 && 0 <= col < 8
}

/// Whether `(r2, c2)` is one of the up-to-eight geometric neighbours of
/// `(r1, c1)`.
pub open spec fn adjacent(r1: int, c1: int, r2: int, c2: int) -> bool {
    &&& -1 <= r2 - r1 <= 1
    &&& -1 <= c2 - c1 <= 1
    &&& !(r2 == r1 && c2 == c1)
}

/// The error raised when a coordinate pair or packed index is rejected at a
/// boundary. Both conditions are caller-contract violations, not recoverable
/// runtime states.
#[derive(Debug, Clone, Copy, PartialEq, Eq, Structural)]
pub enum BoardError {
    IndexOutOfBounds,
}

/// A cell of the board, packed as a single index in `[0, 63]`.
///
/// The last three bits of the index are the column and the upper three bits
/// are the row.
#[derive(Debug, Clone, Copy, PartialEq, Eq, Structural)]
pub struct Position {
    idx: u8,
}

impl View for Position {
    type V = int;

    /// A `Position` is modelled by its packed index.
    closed spec fn view(&self) -> int {
        self.idx as int
    }
}

impl Position {
    #[verifier::type_invariant]
    spec fn index_in_range(self) -> bool {
        self.idx < 64
    }

    /// The row this position denotes.
    pub open spec fn row_spec(self) -> int {
        row_of_index(self@)
    }

    /// The column this position denotes.
    pub open spec fn col_spec(self) -> int {
        col_of_index(self@)
    }

    /// Bounds-checked construction from a `(row, col)` pair. Rejects any pair
    /// with a coordinate above 7.
    pub fn new(row: u8, col: u8) -> (r: Result<Position, BoardError>)
        ensures
            coords_in_bounds(row as int, col as int) ==> (r matches Ok(p)
                && p@ == pack_index(row as int, col as int)
                && 0 <= p@ < 64
                && p.row_spec() == row as int
                && p.col_spec() == col as int),
            !coords_in_bounds(row as int, col as int) ==> r === Err(
                BoardError::IndexOutOfBounds,
            ),
    {
        if row > 7 || col > 7 {
            return Err(BoardError::IndexOutOfBounds);
        }
        let p = Position { idx: row * 8 + col };
        proof {
            lemma_pack_round_trip(row as int, col as int);
        }
        Ok(p)
    }

    /// Crate-internal construction from coordinates already known to be in
    /// bounds.
    pub(crate) fn from_coords(row: usize, col: usize) -> (p: Position)
        requires
            coords_in_bounds(row as int, col as int),
        ensures
            p@ == pack_index(row as int, col as int),
            p.row_spec() == row as int,
            p.col_spec() == col as int,
    {
        let p = Position { idx: (row * 8 + col) as u8 };
        proof {
            lemma_pack_round_trip(row as int, col as int);
        }
        p
    }

    /// Crate-internal construction from a packed index already known to be in
    /// bounds.
    pub(crate) fn from_index(idx: u8) -> (p: Position)
        requires
            idx < 64,
        ensures
            p@ == idx as int,
    {
        Position { idx }
    }

    /// Crate-internal read of the packed index.
    pub(crate) fn index(&self) -> (i: u8)
        ensures
            i as int == self@,
            i < 64,
    {
        proof {
            use_type_invariant(&*self);
        }
        self.idx
    }

    /// The row, recovered from the packed form.
    pub fn row(&self) -> (r: usize)
        ensures
            r == self.row_spec(),
            0 <= r < 8,
    {
        proof {
            use_type_invariant(&*self);
        }
        let i = self.idx;
        proof {
            assert(i < 64 ==> ((i >> 3) & 0b111) == i / 8) by (bit_vector);
        }
        ((i >> 3) & 0b111) as usize
    }

    /// The column, recovered from the packed form.
    pub fn col(&self) -> (c: usize)
        ensures
            c == self.col_spec(),
            0 <= c < 8,
    {
        proof {
            use_type_invariant(&*self);
        }
        let i = self.idx;
        proof {
            assert((i & 0b111) == i % 8) by (bit_vector);
        }
        (i & 0b111) as usize
    }
}

/// Packing then unpacking recovers the original coordinates: for every valid
/// `(row, col)`, the packed index `row * 8 + col` decodes back to `row` and
/// `col`.
pub proof fn lemma_pack_round_trip(row: int, col: int)
    requires
        coords_in_bounds(row, col),
    ensures
        row_of_index(pack_index(row, col)) == row,
        col_of_index(pack_index(row, col)) == col,
        0 <= pack_index(row, col) < 64,
{
}

/// Every packed index in `[0, 63]` decomposes as `8 * row + col` with the row
/// and column it encodes, both in bounds.
pub proof fn lemma_index_decomposition(idx: int)
    requires
        0 <= idx < 64,
    ensures
        idx == pack_index(row_of_index(idx), col_of_index(idx)),
        coords_in_bounds(row_of_index(idx), col_of_index(idx)),
{
}

} // verus!
