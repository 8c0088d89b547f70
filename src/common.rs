//! Grid coordinates and compass directions.
use vstd::prelude::*;
use vstd::relations::injective_on;
use vstd::set_lib::{lemma_int_range, lemma_len_subset, lemma_map_size, set_int_range};

verus! {

/// Number of rows of the grid.
pub const GRID_X: usize = 40;

/// Number of columns of the grid.
pub const GRID_Y: usize = 32;

/// Number of cells of the grid.
pub const GRID_AREA: usize = GRID_X * GRID_Y;

/// A cell of the grid, by row and column. A coordinate may lie off the grid
/// (one step past an edge, for instance); `in_grid` tells the two apart.
#[derive(Debug, Clone, Copy, PartialEq, Eq, Structural, PartialOrd, Ord, Hash)]
pub struct Coord {
    pub row: i16,
    pub col: i16,
}

/// The distance between two integers.
pub open spec fn dist(a: int, b: int) -> nat {
    if a >= b {
        (a - b) as nat
    } else {
        (b - a) as nat
    }
}

/// Row-major position of the cell at `row`, `col`.
pub open spec fn index_of(row: int, col: int) -> int {
    row * GRID_Y + col
}

impl Coord {
    pub open spec fn in_grid(self) -> bool {
        0 <= self.row < GRID_X && 0 <= self.col < GRID_Y
    }

    pub open spec fn index(self) -> int {
        index_of(self.row as int, self.col as int)
    }

    /// Manhattan distance.
    pub open spec fn l1_spec(self, other: Coord) -> nat {
        dist(self.row as int, other.row as int) + dist(self.col as int, other.col as int)
    }

    /// Chebyshev distance.
    pub open spec fn l0_spec(self, other: Coord) -> nat {
        let dr = dist(self.row as int, other.row as int);
        let dc = dist(self.col as int, other.col as int);
        if dr >= dc {
            dr
        } else {
            dc
        }
    }

    /// The cell at a row-major position.
    pub open spec fn at_index(i: int) -> Coord {
        Coord { row: (i / GRID_Y as int) as i16, col: (i % GRID_Y as int) as i16 }
    }

    /// The cell one step away in direction `d`.
    pub open spec fn moved(self, d: Direction) -> Coord {
        match d {
            Direction::Left => Coord { row: self.row, col: (self.col - 1) as i16 },
            Direction::Up => Coord { row: (self.row - 1) as i16, col: self.col },
            Direction::Right => Coord { row: self.row, col: (self.col + 1) as i16 },
            Direction::Down => Coord { row: (self.row + 1) as i16, col: self.col },
        }
    }

    /// Whether a step from here stays within the range of the coordinate type.
    pub open spec fn can_move(self) -> bool {
        i16::MIN < self.row < i16::MAX && i16::MIN < self.col < i16::MAX
    }

    pub open spec fn center() -> Coord {
        Coord { row: (GRID_X / 2) as i16, col: (GRID_Y / 2) as i16 }
    }

    /// Manhattan distance to `other`.
    pub fn l1(self, other: Self) -> (r: u32)
        ensures
            r == self.l1_spec(other),
    {
        abs_diff(self.row, other.row) as u32 + abs_diff(self.col, other.col) as u32
    }

    /// Chebyshev distance to `other`: the larger of the two per-axis distances.
    pub fn l0(self, other: Self) -> (r: u16)
        ensures
            r == self.l0_spec(other),
    {
        let dr = abs_diff(self.row, other.row);
        let dc = abs_diff(self.col, other.col);
        if dr >= dc {
            dr
        } else {
            dc
        }
    }

    /// Row-major position of this cell.
    pub fn into_index(self) -> (r: usize)
        requires
            self.row >= 0,
            self.col >= 0,
        ensures
            r == self.index(),
    {
        (self.row as usize) * GRID_Y + self.col as usize
    }

    /// The cell at row-major position `i`.
    pub fn from_index(i: usize) -> (r: Coord)
        requires
            i < GRID_AREA,
        ensures
            r == Coord::at_index(i as int),
            r.in_grid(),
            r.index() == i,
    {
        Coord { row: (i / GRID_Y) as i16, col: (i % GRID_Y) as i16 }
    }

    /// The center cell of the grid, where the snake starts.
    pub fn middle() -> (r: Self)
        ensures
            r == Coord::center(),
            r.in_grid(),
    {
        Coord { row: (GRID_X / 2) as i16, col: (GRID_Y / 2) as i16 }
    }

    /// The cell one step away in direction `d`, whether or not it lies on the
    /// grid.
    pub fn add_dir(self, d: Direction) -> (r: Coord)
        requires
            self.can_move(),
        ensures
            r == self.moved(d),
    {
        match d {
            Direction::Left => Coord { row: self.row, col: self.col - 1 },
            Direction::Up => Coord { row: self.row - 1, col: self.col },
            Direction::Right => Coord { row: self.row, col: self.col + 1 },
            Direction::Down => Coord { row: self.row + 1, col: self.col },
        }
    }
}

/// A step in a direction followed by a step in the opposite direction leads
/// back to the start, whenever both cells lie on the grid.
pub proof fn lemma_add_dir_inverse(c: Coord, d: Direction)
    requires
        c.in_grid(),
        c.moved(d).in_grid(),
    ensures
        c.moved(d).moved(d.opposite()) == c,
{
}

/// Two cells of the grid with the same row-major position are the same cell.
pub proof fn lemma_index_injective(a: Coord, b: Coord)
    requires
        a.in_grid(),
        b.in_grid(),
        a.index() == b.index(),
    ensures
        a == b,
{
}

/// A cell of the grid has a row-major position below the grid's area.
pub proof fn lemma_index_range(c: Coord)
    requires
        c.in_grid(),
    ensures
        0 <= c.index() < GRID_AREA,
{
}

/// Row-major positions and cells of the grid correspond one to one.
pub proof fn lemma_at_index(i: int)
    requires
        0 <= i < GRID_AREA,
    ensures
        Coord::at_index(i).in_grid(),
        Coord::at_index(i).index() == i,
{
}

/// A cell of the grid is the cell at its row-major position.
pub proof fn lemma_index_at(c: Coord)
    requires
        c.in_grid(),
    ensures
        Coord::at_index(c.index()) == c,
{
    lemma_at_index(c.index());
    lemma_index_injective(Coord::at_index(c.index()), c);
}

/// The set of the cells of the grid.
pub open spec fn grid_cells() -> Set<Coord> {
    Set::new(|c: Coord| c.in_grid())
}

/// The grid has `GRID_AREA` cells.
pub proof fn lemma_grid_cells()
    ensures
        grid_cells().finite(),
        grid_cells().len() == GRID_AREA,
{
    let f = |i: int| Coord::at_index(i);
    let r = set_int_range(0, GRID_AREA as int);
    lemma_int_range(0, GRID_AREA as int);
    assert forall|i: int, j: int| r.contains(i) && r.contains(j) && #[trigger] f(i) == #[trigger] f(
        j,
    ) implies i == j by {
        lemma_at_index(i);
        lemma_at_index(j);
    }
    assert(injective_on(f, r));
    assert forall|c: Coord| r.map(f).contains(c) <==> grid_cells().contains(c) by {
        if c.in_grid() {
            lemma_index_range(c);
            lemma_index_at(c);
            assert(r.contains(c.index()));
            assert(f(c.index()) == c);
        }
        if r.map(f).contains(c) {
            let i = choose|i: int| r.contains(i) && f(i) == c;
            lemma_at_index(i);
        }
    }
    assert(r.map(f) =~= grid_cells());
    lemma_map_size(r, grid_cells(), f);
}

/// Distinct cells of the grid are at most as many as the grid's area.
pub proof fn lemma_distinct_cells_bound(s: Seq<Coord>)
    requires
        s.no_duplicates(),
        forall|i: int| 0 <= i < s.len() ==> (#[trigger] s[i]).in_grid(),
    ensures
        s.len() <= GRID_AREA,
{
    let t = s.map_values(|c: Coord| c.index());
    assert forall|i: int, j: int| 0 <= i < t.len() && 0 <= j < t.len() && i != j implies t[i]
        != t[j] by {
        if t[i] == t[j] {
            lemma_index_injective(s[i], s[j]);
        }
    }
    t.unique_seq_to_set();
    lemma_int_range(0, GRID_AREA as int);
    assert forall|x: int| t.to_set().contains(x) implies set_int_range(
        0,
        GRID_AREA as int,
    ).contains(x) by {
        let i = choose|i: int| 0 <= i < t.len() && t[i] == x;
        lemma_index_range(s[i]);
    }
    lemma_len_subset(t.to_set(), set_int_range(0, GRID_AREA as int));
}

fn abs_diff(a: i16, b: i16) -> (r: u16)
    ensures
        r == dist(a as int, b as int),
{
    if a >= b {
        (a as i32 - b as i32) as u16
    } else {
        (b as i32 - a as i32) as u16
    }
}

impl Default for Coord {
    fn default() -> (r: Self)
        ensures
            r == Coord::center(),
    {
        Self::middle()
    }
}

/// Per-axis difference, saturating at the bounds of the coordinate type.
impl std::ops::Sub for Coord {
    type Output = Self;

    fn sub(self, rhs: Self) -> (r: Self)
        ensures
            r.row == clamp_i16(self.row - rhs.row),
            r.col == clamp_i16(self.col - rhs.col),
    {
        Coord { row: saturating_diff(self.row, rhs.row), col: saturating_diff(self.col, rhs.col) }
    }
}

impl vstd::std_specs::ops::SubSpecImpl for Coord {
    open spec fn obeys_sub_spec() -> bool {
        true
    }

    open spec fn sub_req(self, rhs: Coord) -> bool {
        true
    }

    open spec fn sub_spec(self, rhs: Coord) -> Coord {
        Coord {
            row: clamp_i16(self.row - rhs.row) as i16,
            col: clamp_i16(self.col - rhs.col) as i16,
        }
    }
}

pub open spec fn clamp_i16(v: int) -> int {
    if v < i16::MIN {
        i16::MIN as int
    } else if v > i16::MAX {
        i16::MAX as int
    } else {
        v
    }
}

fn saturating_diff(a: i16, b: i16) -> (r: i16)
    ensures
        r == clamp_i16(a - b),
{
    let d: i32 = a as i32 - b as i32;
    if d < i16::MIN as i32 {
        i16::MIN
    } else if d > i16::MAX as i32 {
        i16::MAX
    } else {
        d as i16
    }
}

/// A compass direction. Its ordinal (`index`) is 0 for `Left`, 1 for `Up`,
/// 2 for `Right` and 3 for `Down`.
#[derive(Debug, Clone, Copy, PartialEq, Eq, Structural, PartialOrd, Ord, Hash)]
pub enum Direction {
    Left,
    Up,
    Right,
    Down,
}

impl Direction {
    pub open spec fn ord(self) -> nat {
        match self {
            Direction::Left => 0,
            Direction::Up => 1,
            Direction::Right => 2,
            Direction::Down => 3,
        }
    }

    pub open spec fn opposite(self) -> Direction {
        match self {
            Direction::Left => Direction::Right,
            Direction::Up => Direction::Down,
            Direction::Right => Direction::Left,
            Direction::Down => Direction::Up,
        }
    }

    /// The ordinal of this direction.
    pub fn index(self) -> (r: usize)
        ensures
            r == self.ord(),
    {
        match self {
            Direction::Left => 0,
            Direction::Up => 1,
            Direction::Right => 2,
            Direction::Down => 3,
        }
    }

    /// The direction with ordinal `i`.
    pub fn from_index(i: usize) -> (r: Direction)
        requires
            i < 4,
        ensures
            r.ord() == i,
    {
        if i == 0 {
            Direction::Left
        } else if i == 1 {
            Direction::Up
        } else if i == 2 {
            Direction::Right
        } else {
            Direction::Down
        }
    }

    /// The opposite direction: `Left` and `Right` swap, as do `Up` and `Down`.
    pub fn inverse(self) -> (r: Direction)
        ensures
            r == self.opposite(),
    {
        match self {
            Direction::Left => Direction::Right,
            Direction::Up => Direction::Down,
            Direction::Right => Direction::Left,
            Direction::Down => Direction::Up,
        }
    }

    /// An arrow that shows the direction.
    pub fn symbol(self) -> (r: char)
        ensures
            r == match self {
                Direction::Left => '\u{2190}',
                Direction::Up => '\u{2191}',
                Direction::Right => '\u{2192}',
                Direction::Down => '\u{2193}',
            },
    {
        match self {
            Direction::Left => '\u{2190}',
            Direction::Up => '\u{2191}',
            Direction::Right => '\u{2192}',
            Direction::Down => '\u{2193}',
        }
    }
}

impl Default for Direction {
    fn default() -> (r: Self)
        ensures
            r == Direction::Left,
    {
        Direction::Left
    }
}

/// Why a move of the snake was refused, or why a tick could not be played.
#[derive(Debug, Clone, Copy, PartialEq, Eq, Structural, Hash)]
pub enum SnakeError {
    /// The move would leave the grid.
    OutOfBounds,
    /// The move would enter a cell that the snake already holds.
    Occupied,
    /// A counter of the game would exceed the range of its type.
    Overflow,
}

/// What a cell of the grid holds.
#[derive(Debug, Clone, Copy, PartialEq, Eq, Structural, Hash)]
pub enum Cell {
    Snake,
    Apple,
    Empty,
}

} // verus!
