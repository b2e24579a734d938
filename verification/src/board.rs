//! The 8x8 board: two per-player bit-planes, cell reads and writes, the
//! default starting layout, full-board iteration, and the sandwich-capture
//! legality rule.

use crate::board::neighbours::{
    lemma_neighbour_list_complete, lemma_neighbour_list_valid, neighbour_list, Neighbours,
};
use crate::board::strider::{
    dir_delta, dir_towards, lemma_dir_roundtrip, lemma_dir_towards_delta, lemma_ray_start,
    lemma_ray_step, lemma_ray_steps_bounded, ray_col, ray_in_bounds, ray_row, Direction, Strider,
};
use crate::position::{
    adjacent, coords_in_bounds, lemma_index_decomposition, lemma_pack_round_trip, pack_index,
    Position,
};
use vstd::prelude::*;

pub mod neighbours;
pub mod strider;

verus! {

/// The occupant state of a cell.
#[derive(Debug, Clone, Copy, PartialEq, Eq, Structural)]
pub enum Disc {
    Empty,
    Player1,
    Player2,
}

/// One of the two players.
#[derive(Debug, Clone, Copy, PartialEq, Eq, Structural)]
pub enum Player {
    Player1,
    Player2,
}

/// The disc that a player places.
pub open spec fn disc_of(p: Player) -> Disc {
    match p {
        Player::Player1 => Disc::Player1,
        Player::Player2 => Disc::Player2,
    }
}

/// The other player.
pub open spec fn opponent_of(p: Player) -> Player {
    match p {
        Player::Player1 => Player::Player2,
        Player::Player2 => Player::Player1,
    }
}

impl Player {
    /// The other player.
    pub fn opponent(&self) -> (r: Player)
        ensures
            r == opponent_of(*self),
    {
        match self {
            Player::Player1 => Player::Player2,
            Player::Player2 => Player::Player1,
        }
    }

    /// Whether this player's disc is `other`.
    pub fn matches_disc(&self, other: &Disc) -> (r: bool)
        ensures
            r == (disc_of(*self) == *other),
    {
        matches!(
            (self, other),
            (Player::Player1, Disc::Player1) | (Player::Player2, Disc::Player2)
        )
    }
}

impl Disc {
    /// Whether this disc belongs to `other`.
    pub fn matches_player(&self, other: &Player) -> (r: bool)
        ensures
            r == (*self == disc_of(*other)),
    {
        matches!(
            (other, self),
            (Player::Player1, Disc::Player1) | (Player::Player2, Disc::Player2)
        )
    }
}

impl core::convert::From<Player> for Disc {
    /// The disc of `p`: `Player1` places `Disc::Player1`, `Player2` places
    /// `Disc::Player2`.
    fn from(p: Player) -> (d: Disc) {
        match p {
            Player::Player1 => Disc::Player1,
            Player::Player2 => Disc::Player2,
        }
    }
}

impl vstd::std_specs::convert::FromSpecImpl<Player> for Disc {
    open spec fn obeys_from_spec() -> bool {
        true
    }

    open spec fn from_spec(p: Player) -> Disc {
        disc_of(p)
    }
}

/// Whether bit `i` of a 64-cell bit-plane is set.
pub closed spec fn bit_set(plane: u64, i: u64) -> bool {
    (plane >> i) & 1 == 1
}

/// Whether bit `j` of one row's worth of plane bits is set.
pub closed spec fn row_bit(bits: u8, j: u8) -> bool {
    (bits >> j) & 1 == 1
}

proof fn lemma_bit_zero(j: u64)
    by (bit_vector)
    ensures
        !bit_set(0u64, j),
{
}

proof fn lemma_bit_or(p: u64, m: u64, j: u64)
    by (bit_vector)
    requires
        m < 64,
        j < 64,
    ensures
        bit_set(p | (1u64 << m), j) == (j == m || bit_set(p, j)),
{
}

proof fn lemma_bit_clear(p: u64, m: u64, j: u64)
    by (bit_vector)
    requires
        m < 64,
        j < 64,
    ensures
        bit_set(p & !(1u64 << m), j) == (j != m && bit_set(p, j)),
{
}

proof fn lemma_planes_exclusive(p1: u64, p2: u64, j: u64)
    by (bit_vector)
    requires
        p1 & p2 == 0,
    ensures
        !(bit_set(p1, j) && bit_set(p2, j)),
{
}

proof fn lemma_set_preserves_disjoint(p1: u64, p2: u64, i: u64)
    by (bit_vector)
    requires
        p1 & p2 == 0,
        i < 64,
    ensures
        (p1 | (1u64 << i)) & (p2 & !(1u64 << i)) == 0,
        (p1 & !(1u64 << i)) & (p2 | (1u64 << i)) == 0,
        (p1 & !(1u64 << i)) & (p2 & !(1u64 << i)) == 0,
{
}

proof fn lemma_row_extract(plane: u64, row: u64, j: u8)
    by (bit_vector)
    requires
        row < 8,
        j < 8,
    ensures
        row_bit((plane >> (8 * row)) as u8, j) == bit_set(plane, (8 * row + j) as u64),
{
}

/// The fixed starting layout: the four central cells hold a diagonal pattern,
/// every other cell is empty.
pub open spec fn initial_disc(i: int) -> Disc {
    if i == pack_index(3, 3) {
        Disc::Player2
    } else if i == pack_index(3, 4) {
        Disc::Player1
    } else if i == pack_index(4, 3) {
        Disc::Player1
    } else if i == pack_index(4, 4) {
        Disc::Player2
    } else {
        Disc::Empty
    }
}

/// The full game state: one bit-plane per player, each holding one bit per
/// cell, indexed by the packed position.
#[derive(Debug, Clone, Copy, PartialEq, Eq, Structural)]
pub struct Board {
    p1: u64,
    p2: u64,
}

impl View for Board {
    type V = Seq<Disc>;

    /// A board is modelled as the 64 cell contents in row-major order.
    open spec fn view(&self) -> Seq<Disc> {
        Seq::new(64, |i: int| self.cell(i))
    }
}

impl Board {
    /// Whether the two bit-planes never both claim a cell. Every board that
    /// the constructors and `set_piece` produce satisfies this.
    pub closed spec fn well_formed(self) -> bool {
        self.p1 & self.p2 == 0
    }

    /// Whether player `p`'s bit-plane claims cell `i`.
    pub closed spec fn claims(self, p: Player, i: int) -> bool {
        match p {
            Player::Player1 => bit_set(self.p1, i as u64),
            Player::Player2 => bit_set(self.p2, i as u64),
        }
    }

    /// The disc at cell `i`, derived from the planes: claimed by neither is
    /// `Empty`, otherwise the claiming player's disc.
    pub open spec fn cell(self, i: int) -> Disc {
        if self.claims(Player::Player1, i) {
            Disc::Player1
        } else if self.claims(Player::Player2, i) {
            Disc::Player2
        } else {
            Disc::Empty
        }
    }

    /// The all-empty board.
    pub fn empty() -> (b: Board)
        ensures
            b.well_formed(),
            forall|i: int| 0 <= i < 64 ==> (#[trigger] b@[i]) == Disc::Empty,
    {
        let b = Board { p1: 0, p2: 0 };
        proof {
            assert(0u64 & 0u64 == 0u64) by (bit_vector);
            assert forall|i: int| 0 <= i < 64 implies (#[trigger] b@[i]) == Disc::Empty by {
                lemma_bit_zero(i as u64);
            }
        }
        b
    }

    /// The disc at `pos`.
    pub fn get_piece(&self, pos: Position) -> (d: Disc)
        ensures
            d == self@[pos@],
            0 <= pos@ < 64,
    {
        let i: u64 = pos.index() as u64;
        let one1 = (self.p1 >> i) & 1 == 1;
        let one2 = (self.p2 >> i) & 1 == 1;
        if one1 {
            Disc::Player1
        } else if one2 {
            Disc::Player2
        } else {
            Disc::Empty
        }
    }

    /// Writes `val` at `pos`: `Empty` clears both planes' bit there, a player
    /// disc sets that player's bit and clears the other's, leaving every other
    /// cell unchanged. This is how the mutual-exclusivity invariant is
    /// maintained under mutation.
    pub fn set_piece(&mut self, pos: Position, val: Disc)
        ensures
            final(self)@ == old(self)@.update(pos@, val),
            old(self).well_formed() ==> final(self).well_formed(),
            0 <= pos@ < 64,
    {
        let i: u64 = pos.index() as u64;
        let m: u64 = 1u64 << i;
        match val {
            Disc::Empty => {
                self.p1 = self.p1 & !m;
                self.p2 = self.p2 & !m;
            },
            Disc::Player1 => {
                self.p1 = self.p1 | m;
                self.p2 = self.p2 & !m;
            },
            Disc::Player2 => {
                self.p1 = self.p1 & !m;
                self.p2 = self.p2 | m;
            },
        }
        proof {
            assert forall|j: int| 0 <= j < 64 implies self@[j] == old(self)@.update(
                pos@,
                val,
            )[j] by {
                lemma_bit_or(old(self).p1, i, j as u64);
                lemma_bit_or(old(self).p2, i, j as u64);
                lemma_bit_clear(old(self).p1, i, j as u64);
                lemma_bit_clear(old(self).p2, i, j as u64);
            }
            assert(self@ =~= old(self)@.update(pos@, val));
            if old(self).well_formed() {
                lemma_set_preserves_disjoint(old(self).p1, old(self).p2, i);
            }
        }
    }

    /// One row of player `p`'s bit-plane, bit `j` standing for the cell in
    /// column `j` of that row.
    pub fn plane_row(&self, p: Player, row: usize) -> (bits: u8)
        requires
            row < 8,
        ensures
            forall|j: u8| j < 8 ==> #[trigger] row_bit(bits, j) == self.claims(
                p,
                pack_index(row as int, j as int),
            ),
    {
        let plane: u64 = match p {
            Player::Player1 => self.p1,
            Player::Player2 => self.p2,
        };
        let bits = (plane >> (8 * (row as u64))) as u8;
        proof {
            assert forall|j: u8| j < 8 implies #[trigger] row_bit(bits, j) == self.claims(
                p,
                pack_index(row as int, j as int),
            ) by {
                lemma_row_extract(plane, row as u64, j);
            }
        }
        bits
    }

    /// Builds the board holding exactly the 64 given cells, in row-major
    /// order: cell `i` of the board is entry `i` of the array.
    pub fn from_cells(cells: [Disc; 64]) -> (b: Board)
        ensures
            b.well_formed(),
            forall|i: int| 0 <= i < 64 ==> (#[trigger] b@[i]) == cells@[i],
    {
        let mut b = Board::empty();
        let mut i: usize = 0;
        while i < 64
            invariant
                i <= 64,
                b.well_formed(),
                forall|k: int|
                    0 <= k < 64 ==> b@[k] == (if k < i {
                        cells@[k]
                    } else {
                        Disc::Empty
                    }),
            decreases 64 - i,
        {
            b.set_piece(Position::from_index(i as u8), cells[i]);
            i = i + 1;
        }
        b
    }

    /// Builds the board holding exactly the given 8x8 grid of cells: the cell
    /// at `(row, col)` is entry `[row][col]` of the grid.
    pub fn from_grid(grid: [[Disc; 8]; 8]) -> (b: Board)
        ensures
            b.well_formed(),
            forall|r: int, c: int|
                coords_in_bounds(r, c) ==> (#[trigger] b@[pack_index(r, c)]) == grid@[r]@[c],
    {
        let mut b = Board::empty();
        let mut r: usize = 0;
        while r < 8
            invariant
                r <= 8,
                b.well_formed(),
                forall|rr: int, cc: int|
                    coords_in_bounds(rr, cc) ==> b@[pack_index(rr, cc)] == (if rr < r {
                        grid@[rr]@[cc]
                    } else {
                        Disc::Empty
                    }),
            decreases 8 - r,
        {
            let mut c: usize = 0;
            while c < 8
                invariant
                    r < 8,
                    c <= 8,
                    b.well_formed(),
                    forall|rr: int, cc: int|
                        coords_in_bounds(rr, cc) ==> b@[pack_index(rr, cc)] == (if rr < r || (rr
                            == r && cc < c) {
                            grid@[rr]@[cc]
                        } else {
                            Disc::Empty
                        }),
                decreases 8 - c,
            {
                b.set_piece(Position::from_coords(r, c), grid[r][c]);
                c = c + 1;
            }
            r = r + 1;
        }
        b
    }

    /// The neighbours of `pos` with their contents, dispatched to the
    /// enumerator of the placement `pos` falls under: corner, edge, or
    /// interior.
    pub fn neighbours(&self, pos: Position) -> (n: Neighbours)
        ensures
            n.board() == *self,
            n.center() == (pos.row_spec(), pos.col_spec()),
            n.seen() == 0,
            ({
                let r = pos.row_spec();
                let c = pos.col_spec();
                &&& (r == 0 && c == 0) ==> n is TopLeftCorner
                &&& (r == 0 && c == 7) ==> n is TopRightCorner
                &&& (r == 7 && c == 0) ==> n is BottomLeftCorner
                &&& (r == 7 && c == 7) ==> n is BottomRightCorner
                &&& (r == 0 && 0 < c < 7) ==> n is TopEdge
                &&& (0 < r < 7 && c == 7) ==> n is RightEdge
                &&& (r == 7 && 0 < c < 7) ==> n is BottomEdge
                &&& (0 < r < 7 && c == 0) ==> n is LeftEdge
                &&& (0 < r < 7 && 0 < c < 7) ==> n is InnerPoint
            }),
    {
        let row = pos.row();
        let col = pos.col();
        match (row, col) {
            (0, 0) => Neighbours::top_left_corner(self),
            (0, 7) => Neighbours::top_right_corner(self),
            (7, 0) => Neighbours::bottom_left_corner(self),
            (7, 7) => Neighbours::bottom_right_corner(self),
            (0, _) => Neighbours::top_edge(self, pos),
            (_, 7) => Neighbours::right_edge(self, pos),
            (7, _) => Neighbours::bottom_edge(self, pos),
            (_, 0) => Neighbours::left_edge(self, pos),
            (_, _) => Neighbours::inner_point(self, pos),
        }
    }

    /// The ray from `pos` through its neighbour `neighbour_pos`: the walk
    /// starts at `pos` and heads in the direction inferred from the packed
    /// index delta of the two adjacent cells.
    pub fn get_points_in_line(&self, pos: Position, neighbour_pos: Position) -> (s: Strider)
        requires
            adjacent(
                pos.row_spec(),
                pos.col_spec(),
                neighbour_pos.row_spec(),
                neighbour_pos.col_spec(),
            ),
        ensures
            s.board == *self,
            s.pos == pos,
            s.dir == dir_towards(
                neighbour_pos.row_spec() - pos.row_spec(),
                neighbour_pos.col_spec() - pos.col_spec(),
            ),
            dir_delta(s.dir).0 == neighbour_pos.row_spec() - pos.row_spec(),
            dir_delta(s.dir).1 == neighbour_pos.col_spec() - pos.col_spec(),
    {
        let pi = pos.index();
        let ni = neighbour_pos.index();
        proof {
            lemma_index_decomposition(pi as int);
            lemma_index_decomposition(ni as int);
        }
        let diff: i8 = pi as i8 - ni as i8;
        let dir = match diff {
            8 => Direction::Up,
            7 => Direction::UpRight,
            -1 => Direction::Right,
            -9 => Direction::DownRight,
            -8 => Direction::Down,
            -7 => Direction::DownLeft,
            1 => Direction::Left,
            9 => Direction::UpLeft,
            // Adjacent cells always differ by one of the eight deltas above,
            // so this arm is proved unreachable.
            _ => {
                proof {
                    assert(false);
                }
                Direction::Up
            },
        };
        Strider { board: *self, pos, dir }
    }

    /// Whether placing `player`'s disc at `pos` is legal under the
    /// sandwich-capture rule: the cell must be empty and some straight line
    /// from it must pass through one or more contiguous opponent discs and
    /// reach a disc of `player` before any empty cell or the board edge.
    pub fn is_legal_move(&self, pos: Position, player: Player) -> (legal: bool)
        ensures
            legal == legal_move(self@, pos.row_spec(), pos.col_spec(), player),
    {
        let ghost r0 = pos.row_spec();
        let ghost c0 = pos.col_spec();
        let start = self.get_piece(pos);
        proof {
            lemma_index_decomposition(pos@);
        }
        if start != Disc::Empty {
            return false;
        }
        let opponent_disc = Disc::from(player.opponent());
        let player_disc = Disc::from(player);
        let mut neighbours = self.neighbours(pos);
        let ghost items = neighbour_list(r0, c0);
        proof {
            lemma_neighbour_list_valid(r0, c0);
        }
        loop
            invariant
                neighbours.board() == *self,
                neighbours.center() == (r0, c0),
                0 <= neighbours.seen() <= items.len(),
                items == neighbour_list(r0, c0),
                coords_in_bounds(r0, c0),
                pos@ == pack_index(r0, c0),
                pos.row_spec() == r0,
                pos.col_spec() == c0,
                self@[pack_index(r0, c0)] == Disc::Empty,
                opponent_disc == disc_of(opponent_of(player)),
                player_disc == disc_of(player),
                forall|t: int|
                    0 <= t < neighbours.seen() ==> !line_capture(
                        self@,
                        r0,
                        c0,
                        player,
                        dir_towards((#[trigger] items[t]).0 - r0, items[t].1 - c0),
                    ),
            ensures
                forall|t: int|
                    0 <= t < items.len() ==> !line_capture(
                        self@,
                        r0,
                        c0,
                        player,
                        dir_towards((#[trigger] items[t]).0 - r0, items[t].1 - c0),
                    ),
            decreases items.len() - neighbours.seen(),
        {
            let ghost k = neighbours.seen();
            let n = neighbours.next();
            let (neighbour_pos, neighbour_disc) = match n {
                Some(pd) => pd,
                None => { break; },
            };
            let ghost nr = items[k].0;
            let ghost nc = items[k].1;
            let ghost d = dir_towards(nr - r0, nc - c0);
            proof {
                lemma_pack_round_trip(nr, nc);
                lemma_dir_towards_delta(nr - r0, nc - c0);
                lemma_ray_start(r0, c0, d);
            }
            if neighbour_disc == opponent_disc {
                let mut strider = self.get_points_in_line(pos, neighbour_pos);
                let ghost mut steps: int = 0;
                loop
                    invariant_except_break
                        opponent_run(self@, r0, c0, player, d, steps + 1),
                    invariant
                        strider.board == *self,
                        strider.dir == d,
                        dir_delta(d) == (nr - r0, nc - c0),
                        coords_in_bounds(r0, c0),
                        coords_in_bounds(nr, nc),
                        adjacent(r0, c0, nr, nc),
                        0 <= steps <= 7,
                        ray_in_bounds(r0, c0, d, steps),
                        strider.pos.row_spec() == ray_row(r0, d, steps),
                        strider.pos.col_spec() == ray_col(c0, d, steps),
                        ray_row(r0, d, 1) == nr,
                        ray_col(c0, d, 1) == nc,
                        pos.row_spec() == r0,
                        pos.col_spec() == c0,
                        self@[pack_index(r0, c0)] == Disc::Empty,
                        self@[pack_index(nr, nc)] == disc_of(opponent_of(player)),
                        opponent_disc == disc_of(opponent_of(player)),
                        player_disc == disc_of(player),
                    ensures
                        !line_capture(self@, r0, c0, player, d),
                    decreases 7 - steps,
                {
                    proof {
                        lemma_ray_step(r0, c0, d, steps);
                    }
                    let sn = strider.next();
                    match sn {
                        None => {
                            proof {
                                lemma_ray_no_capture(self@, r0, c0, player, d, steps + 1);
                            }
                            break;
                        },
                        Some((spos, sdisc)) => {
                            proof {
                                steps = steps + 1;
                                lemma_ray_steps_bounded(r0, c0, d, steps);
                                assert(sdisc == ray_cell(self@, r0, c0, d, steps));
                            }
                            if sdisc == opponent_disc {
                                proof {
                                    lemma_run_extend(self@, r0, c0, player, d, steps);
                                }
                            } else if sdisc == player_disc {
                                proof {
                                    lemma_discs_distinct(player);
                                    assert(ray_cell(self@, r0, c0, d, 1) == disc_of(
                                        opponent_of(player),
                                    ));
                                    assert(steps >= 2);
                                    assert(opponent_run(self@, r0, c0, player, d, steps));
                                    assert(capture_at(self@, r0, c0, player, d, steps));
                                    assert(line_capture(self@, r0, c0, player, d));
                                }
                                return true;
                            } else {
                                proof {
                                    lemma_discs_distinct(player);
                                    assert(sdisc == Disc::Empty);
                                    lemma_ray_no_capture(self@, r0, c0, player, d, steps);
                                }
                                break;
                            }
                        },
                    }
                }
            } else {
                proof {
                    assert(opponent_run(self@, r0, c0, player, d, 1));
                    lemma_ray_no_capture(self@, r0, c0, player, d, 1);
                }
            }
            proof {
                assert(!line_capture(self@, r0, c0, player, d));
            }
        }
        proof {
            assert forall|d: Direction| !(#[trigger] line_capture(self@, r0, c0, player, d)) by {
                let dr = dir_delta(d).0;
                let dc = dir_delta(d).1;
                lemma_ray_start(r0, c0, d);
                if ray_in_bounds(r0, c0, d, 1) {
                    lemma_neighbour_list_complete(r0, c0, r0 + dr, c0 + dc);
                    let t = choose|t: int|
                        0 <= t < neighbour_list(r0, c0).len() && #[trigger] neighbour_list(
                            r0,
                            c0,
                        )[t] == (r0 + dr, c0 + dc);
                    lemma_dir_roundtrip(d);
                    assert(items[t] == (r0 + dr, c0 + dc));
                    assert(dir_towards((items[t]).0 - r0, items[t].1 - c0) == d);
                    assert(!line_capture(
                        self@,
                        r0,
                        c0,
                        player,
                        dir_towards((items[t]).0 - r0, items[t].1 - c0),
                    ));
                } else {
                    assert(opponent_run(self@, r0, c0, player, d, 1));
                    lemma_ray_no_capture(self@, r0, c0, player, d, 1);
                }
            }
        }
        false
    }

    /// A fresh cursor over all 64 cells, starting at cell 0.
    pub fn iter(&self) -> (it: Iter)
        ensures
            it.cells() == self@,
            it.cursor() == 0,
    {
        Iter { board: *self, cur: 0 }
    }
}

impl Default for Board {
    /// The board with the fixed starting layout: (3,3) and (4,4) hold
    /// `Player2`'s discs, (3,4) and (4,3) hold `Player1`'s, all other cells
    /// are empty.
    fn default() -> (b: Board)
        ensures
            b.well_formed(),
            forall|i: int| 0 <= i < 64 ==> (#[trigger] b@[i]) == initial_disc(i),
    {
        let mut b = Board::empty();
        b.set_piece(Position::from_coords(3, 3), Disc::Player2);
        b.set_piece(Position::from_coords(3, 4), Disc::Player1);
        b.set_piece(Position::from_coords(4, 3), Disc::Player1);
        b.set_piece(Position::from_coords(4, 4), Disc::Player2);
        b
    }
}

/// A cursor over the 64 cells of a board snapshot, in row-major order.
#[derive(Debug)]
pub struct Iter {
    board: Board,
    cur: u8,
}

impl Iter {
    /// The cells being walked.
    pub closed spec fn cells(self) -> Seq<Disc> {
        self.board@
    }

    /// How many cells have been produced so far.
    pub closed spec fn cursor(self) -> int {
        self.cur as int
    }

    /// The next cell in row-major order, or `None` once all 64 cells have
    /// been produced.
    pub fn next(&mut self) -> (r: Option<Disc>)
        ensures
            final(self).cells() == old(self).cells(),
            old(self).cursor() < 64 ==> (final(self).cursor() == old(self).cursor() + 1 && r
                === Some(old(self).cells()[old(self).cursor()])),
            old(self).cursor() >= 64 ==> (r is None && final(self).cursor() == old(
                self,
            ).cursor()),
    {
        if self.cur > 63 {
            return None;
        }
        let p = Position::from_index(self.cur);
        let d = self.board.get_piece(p);
        self.cur = self.cur + 1;
        Some(d)
    }

    /// The exact number of items this cursor produces from the start.
    pub fn size_hint(&self) -> (r: (usize, Option<usize>))
        ensures
            r.0 == 64,
            r.1 === Some(64usize),
    {
        (64, Some(64))
    }
}

/// The disc `k` steps along the ray from `(r, c)` in direction `d`.
pub open spec fn ray_cell(cells: Seq<Disc>, r: int, c: int, d: Direction, k: int) -> Disc {
    cells[pack_index(ray_row(r, d, k), ray_col(c, d, k))]
}

/// An unbroken run of the opponent's discs along the ray: every cell
/// strictly between the center and step `m` is on the board and holds the
/// opponent of `p`'s disc.
pub open spec fn opponent_run(
    cells: Seq<Disc>,
    r: int,
    c: int,
    p: Player,
    d: Direction,
    m: int,
) -> bool {
    forall|j: int|
        1 <= j < m ==> #[trigger] ray_in_bounds(r, c, d, j) && ray_cell(cells, r, c, d, j)
            == disc_of(opponent_of(p))
}

/// Sandwich capture closed exactly `k` steps out: the cell there is on the
/// board and holds the moving player's disc, and every cell strictly
/// between (at least one, so `k >= 2`) holds the opponent's disc.
pub open spec fn capture_at(
    cells: Seq<Disc>,
    r: int,
    c: int,
    p: Player,
    d: Direction,
    k: int,
) -> bool {
    &&& 2 <= k <= 7
    &&& ray_in_bounds(r, c, d, k)
    &&& ray_cell(cells, r, c, d, k) == disc_of(p)
    &&& opponent_run(cells, r, c, p, d, k)
}

/// Sandwich capture along one direction: some cell 2 to 7 steps out closes
/// a run of opponent discs.
pub open spec fn line_capture(cells: Seq<Disc>, r: int, c: int, p: Player, d: Direction) -> bool {
    exists|k: int| #[trigger] capture_at(cells, r, c, p, d, k)
}

/// The sandwich-capture rule: placing `p`'s disc at `(r, c)` is legal iff
/// that cell is empty and at least one of the eight directions yields a
/// capture.
pub open spec fn legal_move(cells: Seq<Disc>, r: int, c: int, p: Player) -> bool {
    &&& cells[pack_index(r, c)] == Disc::Empty
    &&& exists|d: Direction| #[trigger] line_capture(cells, r, c, p, d)
}

/// A player's disc differs from the opponent's, and neither is empty.
proof fn lemma_discs_distinct(p: Player)
    ensures
        disc_of(p) != disc_of(opponent_of(p)),
        disc_of(p) != Disc::Empty,
        disc_of(opponent_of(p)) != Disc::Empty,
{
}

/// An opponent run grows by one step when the next cell is on the board and
/// holds the opponent's disc.
proof fn lemma_run_extend(cells: Seq<Disc>, r0: int, c0: int, p: Player, d: Direction, m: int)
    requires
        1 <= m,
        opponent_run(cells, r0, c0, p, d, m),
        ray_in_bounds(r0, c0, d, m),
        ray_cell(cells, r0, c0, d, m) == disc_of(opponent_of(p)),
    ensures
        opponent_run(cells, r0, c0, p, d, m + 1),
{
    assert forall|j: int| 1 <= j < m + 1 implies #[trigger] ray_in_bounds(r0, c0, d, j)
        && ray_cell(cells, r0, c0, d, j) == disc_of(opponent_of(p)) by {
        if j < m {
            assert(1 <= j < m);
            assert(ray_in_bounds(r0, c0, d, j));
            assert(ray_cell(cells, r0, c0, d, j) == disc_of(opponent_of(p)));
        }
    }
}

/// A ray whose run of opponent discs ends without the moving player's
/// closing disc gives no capture: cells at steps below `m` all hold the
/// opponent's disc, and step `m` is off the board, or holds neither the
/// opponent's disc nor (beyond the first step) the player's.
proof fn lemma_ray_no_capture(cells: Seq<Disc>, r0: int, c0: int, p: Player, d: Direction, m: int)
    requires
        1 <= m <= 8,
        opponent_run(cells, r0, c0, p, d, m),
        !ray_in_bounds(r0, c0, d, m) || (ray_cell(cells, r0, c0, d, m) != disc_of(opponent_of(p))
            && (m >= 2 ==> ray_cell(cells, r0, c0, d, m) != disc_of(p))),
    ensures
        !line_capture(cells, r0, c0, p, d),
{
    lemma_discs_distinct(p);
    if line_capture(cells, r0, c0, p, d) {
        let k = choose|k: int| #[trigger] capture_at(cells, r0, c0, p, d, k);
        assert(capture_at(cells, r0, c0, p, d, k));
        if k < m {
            assert(1 <= k < m);
            assert(ray_in_bounds(r0, c0, d, k));
            assert(ray_cell(cells, r0, c0, d, k) == disc_of(opponent_of(p)));
        } else if k > m {
            assert(opponent_run(cells, r0, c0, p, d, k));
            assert(1 <= m < k);
            assert(ray_in_bounds(r0, c0, d, m));
            assert(ray_cell(cells, r0, c0, d, m) == disc_of(opponent_of(p)));
        }
        assert(false);
    }
}

/// Mutual exclusivity: on a well-formed board no cell is ever claimed by both
/// players' planes at once.
pub proof fn lemma_mutual_exclusivity(b: Board, i: int)
    requires
        b.well_formed(),
    ensures
        !(b.claims(Player::Player1, i) && b.claims(Player::Player2, i)),
{
    lemma_planes_exclusive(b.p1, b.p2, i as u64);
}

} // verus!
