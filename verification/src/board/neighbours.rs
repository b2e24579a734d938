//! Adjacency enumeration: the geometric neighbours of a cell together with
//! their contents, handling the nine structurally distinct placements
//! (four corners, four edges, interior).

use crate::board::{Board, Disc};
use crate::position::{adjacent, coords_in_bounds, pack_index, Position};
use vstd::prelude::*;

verus! {

/// Whether `(r, c)` is one of the four corner cells.
pub open spec fn is_corner(r: int, c: int) -> bool {
    (r == 0 || r == 7) && (c == 0 || c == 7)
}

/// Whether `(r, c)` is a non-corner cell on one of the four edges.
pub open spec fn is_edge(r: int, c: int) -> bool {
    &&& coords_in_bounds(r, c)
    &&& !is_corner(r, c)
    &&& (r == 0 || r == 7 || c == 0 || c == 7)
}

/// The neighbours of `(r, c)`, as absolute coordinates, in the fixed order
/// in which the enumerators produce them.
pub open spec fn neighbour_list(r: int, c: int) -> Seq<(int, int)> {
    if r == 0 && c == 0 {
        seq![(0int, 1int), (1int, 1int), (1int, 0int)]
    } else if r == 0 && c == 7 {
        seq![(1int, 7int), (1int, 6int), (0int, 6int)]
    } else if r == 7 && c == 0 {
        seq![(6int, 0int), (6int, 1int), (7int, 1int)]
    } else if r == 7 && c == 7 {
        seq![(6int, 7int), (7int, 6int), (6int, 6int)]
    } else if r == 0 {
        seq![(0int, c + 1), (1int, c + 1), (1int, c), (1int, c - 1), (0int, c - 1)]
    } else if c == 7 {
        seq![(r - 1, 7int), (r + 1, 7int), (r + 1, 6int), (r, 6int), (r - 1, 6int)]
    } else if r == 7 {
        seq![(6int, c), (6int, c + 1), (7int, c + 1), (7int, c - 1), (6int, c - 1)]
    } else if c == 0 {
        seq![(r - 1, 0int), (r - 1, 1int), (r, 1int), (r + 1, 1int), (r + 1, 0int)]
    } else {
        seq![
            (r - 1, c),
            (r - 1, c + 1),
            (r, c + 1),
            (r + 1, c + 1),
            (r + 1, c),
            (r + 1, c - 1),
            (r, c - 1),
            (r - 1, c - 1),
        ]
    }
}

/// What one call of an enumerator's `next` yields and how its cursor moves:
/// before the list is exhausted it yields the `k`-th listed neighbour with
/// the disc the board holds there and advances by one, afterwards it yields
/// `None` and stays put.
pub open spec fn step_result(
    b: Board,
    center: (int, int),
    k: int,
    r: Option<(Position, Disc)>,
    k2: int,
) -> bool {
    let items = neighbour_list(center.0, center.1);
    if k < items.len() {
        &&& k2 == k + 1
        &&& (r matches Some(pd) && pd.0@ == pack_index(items[k].0, items[k].1) && pd.1 == b@[
            pack_index(items[k].0, items[k].1)
        ])
    } else {
        r is None && k2 == k
    }
}

/// Corner cells have exactly 3 neighbours, non-corner edge cells exactly 5,
/// interior cells exactly 8.
pub proof fn lemma_neighbour_count(r: int, c: int)
    requires
        coords_in_bounds(r, c),
    ensures
        is_corner(r, c) ==> neighbour_list(r, c).len() == 3,
        is_edge(r, c) ==> neighbour_list(r, c).len() == 5,
        !is_corner(r, c) && !is_edge(r, c) ==> neighbour_list(r, c).len() == 8,
{
}

/// Every listed neighbour of an on-board cell is itself an on-board cell
/// adjacent to it.
pub proof fn lemma_neighbour_list_valid(r: int, c: int)
    requires
        coords_in_bounds(r, c),
    ensures
        forall|j: int|
            0 <= j < neighbour_list(r, c).len() ==> coords_in_bounds(
                (#[trigger] neighbour_list(r, c)[j]).0,
                neighbour_list(r, c)[j].1,
            ) && adjacent(r, c, neighbour_list(r, c)[j].0, neighbour_list(r, c)[j].1),
{
}

/// Completeness: every adjacent on-board cell of `(r, c)` occurs in its
/// neighbour list.
pub proof fn lemma_neighbour_list_complete(r: int, c: int, nr: int, nc: int)
    requires
        coords_in_bounds(r, c),
        coords_in_bounds(nr, nc),
        adjacent(r, c, nr, nc),
    ensures
        exists|j: int|
            0 <= j < neighbour_list(r, c).len() && #[trigger] neighbour_list(r, c)[j] == (nr, nc),
{
    let items = neighbour_list(r, c);
    if r == 0 && c == 0 {
        assert(items[0] == (0int, 1int));
        assert(items[1] == (1int, 1int));
        assert(items[2] == (1int, 0int));
    } else if r == 0 && c == 7 {
        assert(items[0] == (1int, 7int));
        assert(items[1] == (1int, 6int));
        assert(items[2] == (0int, 6int));
    } else if r == 7 && c == 0 {
        assert(items[0] == (6int, 0int));
        assert(items[1] == (6int, 1int));
        assert(items[2] == (7int, 1int));
    } else if r == 7 && c == 7 {
        assert(items[0] == (6int, 7int));
        assert(items[1] == (7int, 6int));
        assert(items[2] == (6int, 6int));
    } else if r == 0 {
        assert(items[0] == (0int, c + 1));
        assert(items[1] == (1int, c + 1));
        assert(items[2] == (1int, c));
        assert(items[3] == (1int, c - 1));
        assert(items[4] == (0int, c - 1));
    } else if c == 7 {
        assert(items[0] == (r - 1, 7int));
        assert(items[1] == (r + 1, 7int));
        assert(items[2] == (r + 1, 6int));
        assert(items[3] == (r, 6int));
        assert(items[4] == (r - 1, 6int));
    } else if r == 7 {
        assert(items[0] == (6int, c));
        assert(items[1] == (6int, c + 1));
        assert(items[2] == (7int, c + 1));
        assert(items[3] == (7int, c - 1));
        assert(items[4] == (6int, c - 1));
    } else if c == 0 {
        assert(items[0] == (r - 1, 0int));
        assert(items[1] == (r - 1, 1int));
        assert(items[2] == (r, 1int));
        assert(items[3] == (r + 1, 1int));
        assert(items[4] == (r + 1, 0int));
    } else {
        assert(items[0] == (r - 1, c));
        assert(items[1] == (r - 1, c + 1));
        assert(items[2] == (r, c + 1));
        assert(items[3] == (r + 1, c + 1));
        assert(items[4] == (r + 1, c));
        assert(items[5] == (r + 1, c - 1));
        assert(items[6] == (r, c - 1));
        assert(items[7] == (r - 1, c - 1));
    }
}

/// Neighbour enumerator for the corner cell (0, 0).
#[derive(Debug)]
pub struct TopLeftCorner {
    board: Board,
    count: u8,
}

impl TopLeftCorner {
    #[verifier::type_invariant]
    spec fn inv(self) -> bool {
        self.count <= 3
    }

    /// The board being read.
    pub closed spec fn board(self) -> Board {
        self.board
    }

    /// The center cell whose neighbours are produced.
    pub closed spec fn center(self) -> (int, int) {
        (0int, 0int)
    }

    /// How many neighbours have been produced so far.
    pub closed spec fn seen(self) -> int {
        self.count as int
    }

    /// The next neighbour of (0, 0) with its disc, or `None` after all 3.
    pub fn next(&mut self) -> (r: Option<(Position, Disc)>)
        ensures
            final(self).board() == old(self).board(),
            final(self).center() == old(self).center(),
            step_result(
                old(self).board(),
                old(self).center(),
                old(self).seen(),
                r,
                final(self).seen(),
            ),
    {
        let (out_r, out_c): (usize, usize) = match self.count {
            0 => (0, 1),
            1 => (1, 1),
            2 => (1, 0),
            _ => {
                return None;
            },
        };
        self.count = self.count + 1;
        let p = Position::from_coords(out_r, out_c);
        let d = self.board.get_piece(p);
        Some((p, d))
    }
}

/// Neighbour enumerator for the corner cell (0, 7).
#[derive(Debug)]
pub struct TopRightCorner {
    board: Board,
    count: u8,
}

impl TopRightCorner {
    #[verifier::type_invariant]
    spec fn inv(self) -> bool {
        self.count <= 3
    }

    /// The board being read.
    pub closed spec fn board(self) -> Board {
        self.board
    }

    /// The center cell whose neighbours are produced.
    pub closed spec fn center(self) -> (int, int) {
        (0int, 7int)
    }

    /// How many neighbours have been produced so far.
    pub closed spec fn seen(self) -> int {
        self.count as int
    }

    /// The next neighbour of (0, 7) with its disc, or `None` after all 3.
    pub fn next(&mut self) -> (r: Option<(Position, Disc)>)
        ensures
            final(self).board() == old(self).board(),
            final(self).center() == old(self).center(),
            step_result(
                old(self).board(),
                old(self).center(),
                old(self).seen(),
                r,
                final(self).seen(),
            ),
    {
        let (out_r, out_c): (usize, usize) = match self.count {
            0 => (1, 7),
            1 => (1, 6),
            2 => (0, 6),
            _ => {
                return None;
            },
        };
        self.count = self.count + 1;
        let p = Position::from_coords(out_r, out_c);
        let d = self.board.get_piece(p);
        Some((p, d))
    }
}

/// Neighbour enumerator for the corner cell (7, 0).
#[derive(Debug)]
pub struct BottomLeftCorner {
    board: Board,
    count: u8,
}

impl BottomLeftCorner {
    #[verifier::type_invariant]
    spec fn inv(self) -> bool {
        self.count <= 3
    }

    /// The board being read.
    pub closed spec fn board(self) -> Board {
        self.board
    }

    /// The center cell whose neighbours are produced.
    pub closed spec fn center(self) -> (int, int) {
        (7int, 0int)
    }

    /// How many neighbours have been produced so far.
    pub closed spec fn seen(self) -> int {
        self.count as int
    }

    /// The next neighbour of (7, 0) with its disc, or `None` after all 3.
    pub fn next(&mut self) -> (r: Option<(Position, Disc)>)
        ensures
            final(self).board() == old(self).board(),
            final(self).center() == old(self).center(),
            step_result(
                old(self).board(),
                old(self).center(),
                old(self).seen(),
                r,
                final(self).seen(),
            ),
    {
        let (out_r, out_c): (usize, usize) = match self.count {
            0 => (6, 0),
            1 => (6, 1),
            2 => (7, 1),
            _ => {
                return None;
            },
        };
        self.count = self.count + 1;
        let p = Position::from_coords(out_r, out_c);
        let d = self.board.get_piece(p);
        Some((p, d))
    }
}

/// Neighbour enumerator for the corner cell (7, 7).
#[derive(Debug)]
pub struct BottomRightCorner {
    board: Board,
    count: u8,
}

impl BottomRightCorner {
    #[verifier::type_invariant]
    spec fn inv(self) -> bool {
        self.count <= 3
    }

    /// The board being read.
    pub closed spec fn board(self) -> Board {
        self.board
    }

    /// The center cell whose neighbours are produced.
    pub closed spec fn center(self) -> (int, int) {
        (7int, 7int)
    }

    /// How many neighbours have been produced so far.
    pub closed spec fn seen(self) -> int {
        self.count as int
    }

    /// The next neighbour of (7, 7) with its disc, or `None` after all 3.
    pub fn next(&mut self) -> (r: Option<(Position, Disc)>)
        ensures
            final(self).board() == old(self).board(),
            final(self).center() == old(self).center(),
            step_result(
                old(self).board(),
                old(self).center(),
                old(self).seen(),
                r,
                final(self).seen(),
            ),
    {
        let (out_r, out_c): (usize, usize) = match self.count {
            0 => (6, 7),
            1 => (7, 6),
            2 => (6, 6),
            _ => {
                return None;
            },
        };
        self.count = self.count + 1;
        let p = Position::from_coords(out_r, out_c);
        let d = self.board.get_piece(p);
        Some((p, d))
    }
}

/// Neighbour enumerator for a non-corner cell on the top edge.
#[derive(Debug)]
pub struct TopEdge {
    board: Board,
    pos: Position,
    count: u8,
}

impl TopEdge {
    #[verifier::type_invariant]
    spec fn inv(self) -> bool {
        &&& self.pos.row_spec() == 0
        &&& 0 < self.pos.col_spec() < 7
        &&& self.count <= 5
    }

    /// The board being read.
    pub closed spec fn board(self) -> Board {
        self.board
    }

    /// The center cell whose neighbours are produced.
    pub closed spec fn center(self) -> (int, int) {
        (self.pos.row_spec(), self.pos.col_spec())
    }

    /// How many neighbours have been produced so far.
    pub closed spec fn seen(self) -> int {
        self.count as int
    }

    /// The next neighbour of the center with its disc, or `None` after all 5.
    pub fn next(&mut self) -> (r: Option<(Position, Disc)>)
        ensures
            final(self).board() == old(self).board(),
            final(self).center() == old(self).center(),
            step_result(
                old(self).board(),
                old(self).center(),
                old(self).seen(),
                r,
                final(self).seen(),
            ),
    {
        proof {
            use_type_invariant(&*self);
        }
        let col = self.pos.col();
        let (out_r, out_c): (usize, usize) = match self.count {
            0 => (0, col + 1),
            1 => (1, col + 1),
            2 => (1, col),
            3 => (1, col - 1),
            4 => (0, col - 1),
            _ => {
                return None;
            },
        };
        self.count = self.count + 1;
        let p = Position::from_coords(out_r, out_c);
        let d = self.board.get_piece(p);
        Some((p, d))
    }
}

/// Neighbour enumerator for a non-corner cell on the right edge.
#[derive(Debug)]
pub struct RightEdge {
    board: Board,
    pos: Position,
    count: u8,
}

impl RightEdge {
    #[verifier::type_invariant]
    spec fn inv(self) -> bool {
        &&& 0 < self.pos.row_spec() < 7
        &&& self.pos.col_spec() == 7
        &&& self.count <= 5
    }

    /// The board being read.
    pub closed spec fn board(self) -> Board {
        self.board
    }

    /// The center cell whose neighbours are produced.
    pub closed spec fn center(self) -> (int, int) {
        (self.pos.row_spec(), self.pos.col_spec())
    }

    /// How many neighbours have been produced so far.
    pub closed spec fn seen(self) -> int {
        self.count as int
    }

    /// The next neighbour of the center with its disc, or `None` after all 5.
    pub fn next(&mut self) -> (r: Option<(Position, Disc)>)
        ensures
            final(self).board() == old(self).board(),
            final(self).center() == old(self).center(),
            step_result(
                old(self).board(),
                old(self).center(),
                old(self).seen(),
                r,
                final(self).seen(),
            ),
    {
        proof {
            use_type_invariant(&*self);
        }
        let row = self.pos.row();
        let (out_r, out_c): (usize, usize) = match self.count {
            0 => (row - 1, 7),
            1 => (row + 1, 7),
            2 => (row + 1, 6),
            3 => (row, 6),
            4 => (row - 1, 6),
            _ => {
                return None;
            },
        };
        self.count = self.count + 1;
        let p = Position::from_coords(out_r, out_c);
        let d = self.board.get_piece(p);
        Some((p, d))
    }
}

/// Neighbour enumerator for a non-corner cell on the bottom edge.
#[derive(Debug)]
pub struct BottomEdge {
    board: Board,
    pos: Position,
    count: u8,
}

impl BottomEdge {
    #[verifier::type_invariant]
    spec fn inv(self) -> bool {
        &&& self.pos.row_spec() == 7
        &&& 0 < self.pos.col_spec() < 7
        &&& self.count <= 5
    }

    /// The board being read.
    pub closed spec fn board(self) -> Board {
        self.board
    }

    /// The center cell whose neighbours are produced.
    pub closed spec fn center(self) -> (int, int) {
        (self.pos.row_spec(), self.pos.col_spec())
    }

    /// How many neighbours have been produced so far.
    pub closed spec fn seen(self) -> int {
        self.count as int
    }

    /// The next neighbour of the center with its disc, or `None` after all 5.
    pub fn next(&mut self) -> (r: Option<(Position, Disc)>)
        ensures
            final(self).board() == old(self).board(),
            final(self).center() == old(self).center(),
            step_result(
                old(self).board(),
                old(self).center(),
                old(self).seen(),
                r,
                final(self).seen(),
            ),
    {
        proof {
            use_type_invariant(&*self);
        }
        let col = self.pos.col();
        let (out_r, out_c): (usize, usize) = match self.count {
            0 => (6, col),
            1 => (6, col + 1),
            2 => (7, col + 1),
            3 => (7, col - 1),
            4 => (6, col - 1),
            _ => {
                return None;
            },
        };
        self.count = self.count + 1;
        let p = Position::from_coords(out_r, out_c);
        let d = self.board.get_piece(p);
        Some((p, d))
    }
}

/// Neighbour enumerator for a non-corner cell on the left edge.
#[derive(Debug)]
pub struct LeftEdge {
    board: Board,
    pos: Position,
    count: u8,
}

impl LeftEdge {
    #[verifier::type_invariant]
    spec fn inv(self) -> bool {
        &&& 0 < self.pos.row_spec() < 7
        &&& self.pos.col_spec() == 0
        &&& self.count <= 5
    }

    /// The board being read.
    pub closed spec fn board(self) -> Board {
        self.board
    }

    /// The center cell whose neighbours are produced.
    pub closed spec fn center(self) -> (int, int) {
        (self.pos.row_spec(), self.pos.col_spec())
    }

    /// How many neighbours have been produced so far.
    pub closed spec fn seen(self) -> int {
        self.count as int
    }

    /// The next neighbour of the center with its disc, or `None` after all 5.
    pub fn next(&mut self) -> (r: Option<(Position, Disc)>)
        ensures
            final(self).board() == old(self).board(),
            final(self).center() == old(self).center(),
            step_result(
                old(self).board(),
                old(self).center(),
                old(self).seen(),
                r,
                final(self).seen(),
            ),
    {
        proof {
            use_type_invariant(&*self);
        }
        let row = self.pos.row();
        let (out_r, out_c): (usize, usize) = match self.count {
            0 => (row - 1, 0),
            1 => (row - 1, 1),
            2 => (row, 1),
            3 => (row + 1, 1),
            4 => (row + 1, 0),
            _ => {
                return None;
            },
        };
        self.count = self.count + 1;
        let p = Position::from_coords(out_r, out_c);
        let d = self.board.get_piece(p);
        Some((p, d))
    }
}

/// Neighbour enumerator for an interior cell.
#[derive(Debug)]
pub struct InnerPoint {
    board: Board,
    pos: Position,
    count: u8,
}

impl InnerPoint {
    #[verifier::type_invariant]
    spec fn inv(self) -> bool {
        &&& 0 < self.pos.row_spec() < 7
        &&& 0 < self.pos.col_spec() < 7
        &&& self.count <= 8
    }

    /// The board being read.
    pub closed spec fn board(self) -> Board {
        self.board
    }

    /// The center cell whose neighbours are produced.
    pub closed spec fn center(self) -> (int, int) {
        (self.pos.row_spec(), self.pos.col_spec())
    }

    /// How many neighbours have been produced so far.
    pub closed spec fn seen(self) -> int {
        self.count as int
    }

    /// The next neighbour of the center with its disc, or `None` after all 8.
    pub fn next(&mut self) -> (r: Option<(Position, Disc)>)
        ensures
            final(self).board() == old(self).board(),
            final(self).center() == old(self).center(),
            step_result(
                old(self).board(),
                old(self).center(),
                old(self).seen(),
                r,
                final(self).seen(),
            ),
    {
        proof {
            use_type_invariant(&*self);
        }
        let row = self.pos.row();
        let col = self.pos.col();
        let (out_r, out_c): (usize, usize) = match self.count {
            0 => (row - 1, col),
            1 => (row - 1, col + 1),
            2 => (row, col + 1),
            3 => (row + 1, col + 1),
            4 => (row + 1, col),
            5 => (row + 1, col - 1),
            6 => (row, col - 1),
            7 => (row - 1, col - 1),
            _ => {
                return None;
            },
        };
        self.count = self.count + 1;
        let p = Position::from_coords(out_r, out_c);
        let d = self.board.get_piece(p);
        Some((p, d))
    }
}

/// The neighbours of a cell: a tagged union over the nine structurally
/// distinct placements, each variant its own bounded enumerator.
#[derive(Debug)]
pub enum Neighbours {
    TopLeftCorner(TopLeftCorner),
    TopRightCorner(TopRightCorner),
    BottomLeftCorner(BottomLeftCorner),
    BottomRightCorner(BottomRightCorner),
    TopEdge(TopEdge),
    RightEdge(RightEdge),
    BottomEdge(BottomEdge),
    LeftEdge(LeftEdge),
    InnerPoint(InnerPoint),
}

impl Neighbours {
    /// The board being read.
    pub closed spec fn board(self) -> Board {
        match self {
            Neighbours::TopLeftCorner(a) => a.board(),
            Neighbours::TopRightCorner(a) => a.board(),
            Neighbours::BottomLeftCorner(a) => a.board(),
            Neighbours::BottomRightCorner(a) => a.board(),
            Neighbours::TopEdge(a) => a.board(),
            Neighbours::RightEdge(a) => a.board(),
            Neighbours::BottomEdge(a) => a.board(),
            Neighbours::LeftEdge(a) => a.board(),
            Neighbours::InnerPoint(a) => a.board(),
        }
    }

    /// The center cell whose neighbours are produced.
    pub closed spec fn center(self) -> (int, int) {
        match self {
            Neighbours::TopLeftCorner(a) => a.center(),
            Neighbours::TopRightCorner(a) => a.center(),
            Neighbours::BottomLeftCorner(a) => a.center(),
            Neighbours::BottomRightCorner(a) => a.center(),
            Neighbours::TopEdge(a) => a.center(),
            Neighbours::RightEdge(a) => a.center(),
            Neighbours::BottomEdge(a) => a.center(),
            Neighbours::LeftEdge(a) => a.center(),
            Neighbours::InnerPoint(a) => a.center(),
        }
    }

    /// How many neighbours have been produced so far.
    pub closed spec fn seen(self) -> int {
        match self {
            Neighbours::TopLeftCorner(a) => a.seen(),
            Neighbours::TopRightCorner(a) => a.seen(),
            Neighbours::BottomLeftCorner(a) => a.seen(),
            Neighbours::BottomRightCorner(a) => a.seen(),
            Neighbours::TopEdge(a) => a.seen(),
            Neighbours::RightEdge(a) => a.seen(),
            Neighbours::BottomEdge(a) => a.seen(),
            Neighbours::LeftEdge(a) => a.seen(),
            Neighbours::InnerPoint(a) => a.seen(),
        }
    }

    /// Enumerator for the corner cell (0, 0).
    pub fn top_left_corner(board: &Board) -> (n: Neighbours)
        ensures
            n.board() == *board,
            n.center() == (0int, 0int),
            n.seen() == 0,
            n is TopLeftCorner,
    {
        Neighbours::TopLeftCorner(TopLeftCorner { board: *board, count: 0 })
    }

    /// Enumerator for the corner cell (0, 7).
    pub fn top_right_corner(board: &Board) -> (n: Neighbours)
        ensures
            n.board() == *board,
            n.center() == (0int, 7int),
            n.seen() == 0,
            n is TopRightCorner,
    {
        Neighbours::TopRightCorner(TopRightCorner { board: *board, count: 0 })
    }

    /// Enumerator for the corner cell (7, 0).
    pub fn bottom_left_corner(board: &Board) -> (n: Neighbours)
        ensures
            n.board() == *board,
            n.center() == (7int, 0int),
            n.seen() == 0,
            n is BottomLeftCorner,
    {
        Neighbours::BottomLeftCorner(BottomLeftCorner { board: *board, count: 0 })
    }

    /// Enumerator for the corner cell (7, 7).
    pub fn bottom_right_corner(board: &Board) -> (n: Neighbours)
        ensures
            n.board() == *board,
            n.center() == (7int, 7int),
            n.seen() == 0,
            n is BottomRightCorner,
    {
        Neighbours::BottomRightCorner(BottomRightCorner { board: *board, count: 0 })
    }

    /// Enumerator for a non-corner cell `pos` on the top edge.
    pub fn top_edge(board: &Board, pos: Position) -> (n: Neighbours)
        requires
            pos.row_spec() == 0,
            0 < pos.col_spec() < 7,
        ensures
            n.board() == *board,
            n.center() == (pos.row_spec(), pos.col_spec()),
            n.seen() == 0,
            n is TopEdge,
    {
        Neighbours::TopEdge(TopEdge { board: *board, pos, count: 0 })
    }

    /// Enumerator for a non-corner cell `pos` on the right edge.
    pub fn right_edge(board: &Board, pos: Position) -> (n: Neighbours)
        requires
            0 < pos.row_spec() < 7,
            pos.col_spec() == 7,
        ensures
            n.board() == *board,
            n.center() == (pos.row_spec(), pos.col_spec()),
            n.seen() == 0,
            n is RightEdge,
    {
        Neighbours::RightEdge(RightEdge { board: *board, pos, count: 0 })
    }

    /// Enumerator for a non-corner cell `pos` on the bottom edge.
    pub fn bottom_edge(board: &Board, pos: Position) -> (n: Neighbours)
        requires
            pos.row_spec() == 7,
            0 < pos.col_spec() < 7,
        ensures
            n.board() == *board,
            n.center() == (pos.row_spec(), pos.col_spec()),
            n.seen() == 0,
            n is BottomEdge,
    {
        Neighbours::BottomEdge(BottomEdge { board: *board, pos, count: 0 })
    }

    /// Enumerator for a non-corner cell `pos` on the left edge.
    pub fn left_edge(board: &Board, pos: Position) -> (n: Neighbours)
        requires
            0 < pos.row_spec() < 7,
            pos.col_spec() == 0,
        ensures
            n.board() == *board,
            n.center() == (pos.row_spec(), pos.col_spec()),
            n.seen() == 0,
            n is LeftEdge,
    {
        Neighbours::LeftEdge(LeftEdge { board: *board, pos, count: 0 })
    }

    /// Enumerator for an interior cell `pos`.
    pub fn inner_point(board: &Board, pos: Position) -> (n: Neighbours)
        requires
            0 < pos.row_spec() < 7,
            0 < pos.col_spec() < 7,
        ensures
            n.board() == *board,
            n.center() == (pos.row_spec(), pos.col_spec()),
            n.seen() == 0,
            n is InnerPoint,
    {
        Neighbours::InnerPoint(InnerPoint { board: *board, pos, count: 0 })
    }

    /// The next neighbour of the center with its disc, dispatched to the
    /// placement's own enumerator; `None` once the fixed list is exhausted.
    pub fn next(&mut self) -> (r: Option<(Position, Disc)>)
        ensures
            final(self).board() == old(self).board(),
            final(self).center() == old(self).center(),
            step_result(
                old(self).board(),
                old(self).center(),
                old(self).seen(),
                r,
                final(self).seen(),
            ),
    {
        match self {
            Neighbours::TopLeftCorner(a) => a.next(),
            Neighbours::TopRightCorner(a) => a.next(),
            Neighbours::BottomLeftCorner(a) => a.next(),
            Neighbours::BottomRightCorner(a) => a.next(),
            Neighbours::TopEdge(a) => a.next(),
            Neighbours::RightEdge(a) => a.next(),
            Neighbours::BottomEdge(a) => a.next(),
            Neighbours::LeftEdge(a) => a.next(),
            Neighbours::InnerPoint(a) => a.next(),
        }
    }
}

} // verus!
