//! The occupancy grid: the snake's body, stored as one bit map per direction.
//!
//! A cell that the body holds has its bit set in exactly one of the four
//! maps: the one of the direction in which the body goes on from that cell
//! (for the head, the direction the snake is moving in). The tail therefore
//! knows which cell comes after it, and a cell is occupied when any of the
//! four maps holds it.
use vstd::prelude::*;

use crate::bitgrid::{bits_of, GridBits};
use crate::common::{
    grid_cells, lemma_at_index, lemma_distinct_cells_bound, lemma_grid_cells, lemma_index_at, lemma_index_injective,
    lemma_index_range, Coord, Direction, SnakeError, GRID_AREA, GRID_X, GRID_Y,
};
use rand_chacha::ChaCha8Rng;

verus! {

/// The snake on the grid. Every operation asks for `wf`, which ties the four
/// bit maps to the body: its cells from tail to head, and the direction
/// stored at each of them. The fields are public so that contracts in other
/// modules can name them; the methods are what keeps `wf`.
pub struct ArrSnake {
    pub left: GridBits,
    pub up: GridBits,
    pub right: GridBits,
    pub down: GridBits,
    pub direction: Direction,
    pub head: Coord,
    pub tail: Coord,
    /// Number of cells of the body.
    pub size: usize,
    /// The cells of the body, from the tail to the head.
    pub cells: Ghost<Seq<Coord>>,
    /// For each cell of `cells`, the direction stored there.
    pub dirs: Ghost<Seq<Direction>>,
}

/// The cell one step from `c` in direction `d`, or `OutOfBounds` when `c` or
/// that cell is off the grid.
fn add_direction(c: Coord, d: Direction) -> (r: Result<Coord, SnakeError>)
    ensures
        c.in_grid() && c.moved(d).in_grid() ==> r == Ok::<Coord, SnakeError>(c.moved(d)),
        !(c.in_grid() && c.moved(d).in_grid()) ==> r == Err::<Coord, SnakeError>(
            SnakeError::OutOfBounds,
        ),
{
    if c.row < 0 || c.row >= GRID_X as i16 || c.col < 0 || c.col >= GRID_Y as i16 {
        return Err(SnakeError::OutOfBounds);
    }
    let n = c.add_dir(d);
    if n.row < 0 || n.row >= GRID_X as i16 || n.col < 0 || n.col >= GRID_Y as i16 {
        Err(SnakeError::OutOfBounds)
    } else {
        Ok(n)
    }
}

impl ArrSnake {
    /// The bit map of direction `d`.
    pub open spec fn map(self, d: Direction) -> Seq<bool> {
        match d {
            Direction::Left => bits_of(self.left),
            Direction::Up => bits_of(self.up),
            Direction::Right => bits_of(self.right),
            Direction::Down => bits_of(self.down),
        }
    }

    pub open spec fn bit(self, d: Direction, c: Coord) -> bool {
        self.map(d)[c.index()]
    }

    /// Whether the body holds cell `c`: any of the four maps has its bit.
    pub open spec fn occupied(self, c: Coord) -> bool {
        c.in_grid() && (self.bit(Direction::Left, c) || self.bit(Direction::Up, c) || self.bit(
            Direction::Right,
            c,
        ) || self.bit(Direction::Down, c))
    }

    /// The set of cells that the body holds.
    pub open spec fn occupied_cells(self) -> Set<Coord> {
        Set::new(|c: Coord| self.occupied(c))
    }

    /// The cells of the body, from the tail to the head.
    pub open spec fn body(self) -> Seq<Coord> {
        self.cells@
    }

    /// The cell that the head would move to.
    pub open spec fn next_cell(self) -> Coord {
        self.head.moved(self.direction)
    }

    /// Whether the head can move on: its next cell is on the grid and free.
    pub open spec fn next_valid(self) -> bool {
        self.next_cell().in_grid() && !self.occupied(self.next_cell())
    }

    /// At most one of the four maps holds cell `c`.
    closed spec fn at_most_one(self, c: Coord) -> bool {
        let (l, u, r, d) = (
            self.bit(Direction::Left, c),
            self.bit(Direction::Up, c),
            self.bit(Direction::Right, c),
            self.bit(Direction::Down, c),
        );
        !(l && u) && !(l && r) && !(l && d) && !(u && r) && !(u && d) && !(r && d)
    }

    /// Each of the four maps has one bit per cell.
    pub open spec fn maps_sized(self) -> bool {
        &&& bits_of(self.left).len() == GRID_AREA
        &&& bits_of(self.up).len() == GRID_AREA
        &&& bits_of(self.right).len() == GRID_AREA
        &&& bits_of(self.down).len() == GRID_AREA
    }

    pub closed spec fn wf(self) -> bool {
        let body = self.cells@;
        let dirs = self.dirs@;
        &&& self.maps_sized()
        &&& 1 <= self.size <= GRID_AREA
        &&& body.len() == self.size
        &&& dirs.len() == self.size
        &&& body[0] == self.tail
        &&& body.last() == self.head
        &&& dirs.last() == self.direction
        &&& body.no_duplicates()
        &&& forall|i: int| 0 <= i < body.len() ==> (#[trigger] body[i]).in_grid()
        &&& forall|i: int| 0 <= i < body.len() ==> self.bit(#[trigger] dirs[i], body[i])
        &&& forall|i: int|
            0 <= i < body.len() - 1 ==> #[trigger] body[i + 1] == body[i].moved(dirs[i])
        &&& forall|c: Coord| c.in_grid() ==> #[trigger] self.at_most_one(c)
        &&& forall|c: Coord| #[trigger] self.occupied(c) ==> body.contains(c)
    }

    /// The occupied cells are exactly the cells of the body, and there are
    /// `size` of them.
    pub proof fn lemma_occupied_cells(self)
        requires
            self.wf(),
        ensures
            self.occupied_cells() == self.body().to_set(),
            self.occupied_cells().finite(),
            self.occupied_cells().len() == self.size,
            forall|c: Coord| self.occupied(c) <==> self.body().contains(c),
            self.head.in_grid(),
            self.tail.in_grid(),
            self.occupied(self.head),
            self.occupied(self.tail),
            self.maps_sized(),
            1 <= self.size <= GRID_AREA,
    {
        let body = self.cells@;
        assert forall|c: Coord| self.occupied(c) <==> body.contains(c) by {
            if body.contains(c) {
                let i = choose|i: int| 0 <= i < body.len() && body[i] == c;
                assert(self.bit(self.dirs@[i], body[i]));
                assert(body[i].in_grid());
            }
        }
        assert(self.occupied_cells() =~= body.to_set());
        body.unique_seq_to_set();
        assert(body[body.len() - 1].in_grid());
        assert(body[0].in_grid());
        assert(body.contains(self.head));
        assert(body.contains(self.tail));
    }

    /// The body fills the grid exactly when it has `GRID_AREA` cells.
    pub proof fn lemma_full(self)
        requires
            self.wf(),
        ensures
            (forall|c: Coord| c.in_grid() ==> self.occupied(c)) <==> self.size == GRID_AREA,
    {
        self.lemma_occupied_cells();
        lemma_grid_cells();
        let b = self.occupied_cells();
        assert(b.subset_of(grid_cells()));
        if forall|c: Coord| c.in_grid() ==> self.occupied(c) {
            assert(b =~= grid_cells());
        }
        if self.size == GRID_AREA {
            vstd::set_lib::lemma_subset_equality(b, grid_cells());
            assert forall|c: Coord| c.in_grid() implies self.occupied(c) by {
                assert(grid_cells().contains(c));
            }
        }
    }

    /// When the head can move on, the body leaves at least that one cell of
    /// the grid free.
    pub proof fn lemma_room_for_next(self)
        requires
            self.wf(),
            self.next_valid(),
        ensures
            self.size < GRID_AREA,
    {
        self.lemma_occupied_cells();
        let nb = self.cells@.push(self.next_cell());
        assert forall|i: int| 0 <= i < nb.len() implies (#[trigger] nb[i]).in_grid() by {
            if i < self.size {
                assert(self.cells@[i].in_grid());
            }
        }
        lemma_distinct_cells_bound(nb);
    }

    /// Returns the bit of direction `d` at position `i`.
    fn get_bit(&self, d: Direction, i: usize) -> (r: bool)
        requires
            self.maps_sized(),
            i < GRID_AREA,
        ensures
            r == self.map(d)[i as int],
    {
        match d {
            Direction::Left => self.left.get(i),
            Direction::Up => self.up.get(i),
            Direction::Right => self.right.get(i),
            Direction::Down => self.down.get(i),
        }
    }

    /// Writes the bit of direction `d` at position `i`.
    fn set_bit(&mut self, d: Direction, i: usize, v: bool)
        requires
            i < old(self).map(d).len(),
        ensures
            final(self).map(d) == old(self).map(d).update(i as int, v),
            old(self).maps_sized() ==> final(self).maps_sized(),
            forall|e: Direction| e != d ==> final(self).map(e) == old(self).map(e),
            final(self).direction == old(self).direction,
            final(self).head == old(self).head,
            final(self).tail == old(self).tail,
            final(self).size == old(self).size,
            final(self).cells == old(self).cells,
            final(self).dirs == old(self).dirs,
    {
        match d {
            Direction::Left => self.left.set(i, v),
            Direction::Up => self.up.set(i, v),
            Direction::Right => self.right.set(i, v),
            Direction::Down => self.down.set(i, v),
        }
    }

    /// Whether `c` lies on the grid (`Some`) and, if so, whether the body
    /// holds it.
    pub fn check_cell(&self, c: Coord) -> (r: Option<bool>)
        requires
            self.wf(),
        ensures
            r == (if c.in_grid() {
                Some(self.occupied(c))
            } else {
                None::<bool>
            }),
    {
        if c.row < 0 || c.row >= GRID_X as i16 || c.col < 0 || c.col >= GRID_Y as i16 {
            return None;
        }
        let i = c.into_index();
        Some(
            self.get_bit(Direction::Left, i) || self.get_bit(Direction::Up, i) || self.get_bit(
                Direction::Right,
                i,
            ) || self.get_bit(Direction::Down, i),
        )
    }

    /// The cell that the head would move to, or `OutOfBounds` when it lies
    /// off the grid.
    pub fn next_step(&self) -> (r: Result<Coord, SnakeError>)
        requires
            self.wf(),
        ensures
            self.next_cell().in_grid() ==> r == Ok::<Coord, SnakeError>(self.next_cell()),
            !self.next_cell().in_grid() ==> r == Err::<Coord, SnakeError>(SnakeError::OutOfBounds),
    {
        proof {
            self.lemma_occupied_cells();
        }
        add_direction(self.head, self.direction)
    }

    /// Whether the head can move on: the next cell is on the grid and free.
    pub fn is_next_valid(&self) -> (r: bool)
        requires
            self.wf(),
        ensures
            r == self.next_valid(),
    {
        match self.next_step() {
            Ok(c) => match self.check_cell(c) {
                Some(b) => !b,
                None => false,
            },
            Err(_) => false,
        }
    }

    /// Turns the snake: the head cell now stores `dir`.
    pub fn set_direction(&mut self, dir: Direction)
        requires
            old(self).wf(),
        ensures
            final(self).wf(),
            final(self).direction == dir,
            final(self).head == old(self).head,
            final(self).tail == old(self).tail,
            final(self).size == old(self).size,
            final(self).body() == old(self).body(),
            forall|c: Coord| final(self).occupied(c) == old(self).occupied(c),
            forall|e: Direction, c: Coord|
                c.in_grid() ==> #[trigger] final(self).bit(e, c) == (if c == old(self).head {
                    e == dir
                } else {
                    old(self).bit(e, c)
                }),
    {
        proof {
            self.lemma_occupied_cells();
        }
        let ghost pre = *self;
        let h = self.head;
        let i = h.into_index();
        proof {
            lemma_index_range(h);
        }
        self.direction = dir;
        self.set_bit(Direction::Left, i, false);
        self.set_bit(Direction::Up, i, false);
        self.set_bit(Direction::Right, i, false);
        self.set_bit(Direction::Down, i, false);
        self.set_bit(dir, i, true);
        proof {
            let n = pre.size as int;
            self.dirs = Ghost(pre.dirs@.update(n - 1, dir));
            assert forall|e: Direction, c: Coord| c.in_grid() implies #[trigger] self.bit(e, c) == (
            if c == h {
                e == dir
            } else {
                pre.bit(e, c)
            }) by {
                lemma_index_range(c);
                if c.index() == h.index() {
                    lemma_index_injective(c, h);
                }
            }
            let body = self.cells@;
            assert forall|j: int| 0 <= j < body.len() implies self.bit(
                #[trigger] self.dirs@[j],
                body[j],
            ) by {
                assert(body[j].in_grid());
                if j < n - 1 {
                    assert(body[j] != body[n - 1]);
                }
            }
            assert forall|j: int| 0 <= j < body.len() - 1 implies #[trigger] body[j + 1]
                == body[j].moved(self.dirs@[j]) by {}
            assert forall|c: Coord| c.in_grid() implies #[trigger] self.at_most_one(c) by {
                assert(pre.at_most_one(c));
            }
            assert forall|c: Coord| self.occupied(c) == pre.occupied(c) by {
                if c.in_grid() && c == h {
                    assert(self.bit(dir, c));
                }
            }
            assert forall|c: Coord| #[trigger] self.occupied(c) implies body.contains(c) by {
                assert(pre.occupied(c));
            }
        }
    }

    /// Moves the head one cell on in the current direction. Without food the
    /// tail then moves on too, along the direction stored at its cell, and the
    /// cell it leaves is cleared; with food the tail stays and the body grows
    /// by one cell. A move off the grid or into the body is refused and
    /// changes nothing.
    pub fn step(&mut self, with_food: bool) -> (r: Result<(), SnakeError>)
        requires
            old(self).wf(),
        ensures
            !old(self).next_cell().in_grid() ==> r == Err::<(), SnakeError>(SnakeError::OutOfBounds)
                && *final(self) == *old(self),
            old(self).next_cell().in_grid() && old(self).occupied(old(self).next_cell()) ==> r
                == Err::<(), SnakeError>(SnakeError::Occupied) && *final(self) == *old(self),
            old(self).next_valid() ==> r is Ok && final(self).wf(),
            old(self).next_valid() ==> final(self).head == old(self).next_cell()
                && final(self).direction == old(self).direction,
            old(self).next_valid() ==> final(self).body() == (if with_food {
                old(self).body().push(old(self).next_cell())
            } else {
                old(self).body().push(old(self).next_cell()).drop_first()
            }),
            old(self).next_valid() ==> final(self).size == old(self).size + (if with_food {
                1int
            } else {
                0int
            }),
            old(self).next_valid() ==> final(self).occupied_cells().len()
                == old(self).occupied_cells().len() + (if with_food {
                1int
            } else {
                0int
            }),
            old(self).next_valid() && with_food ==> final(self).tail == old(self).tail,
            old(self).next_valid() && !with_food ==> final(self).tail == old(self).body().push(
                old(self).next_cell(),
            )[1],
            old(self).next_valid() && !with_food ==> forall|e: Direction|
                #[trigger] old(self).bit(e, old(self).tail) ==> final(self).tail == old(
                    self,
                ).tail.moved(e),
            old(self).next_valid() ==> forall|e: Direction, c: Coord|
                c.in_grid() ==> #[trigger] final(self).bit(e, c) == (if c == old(
                    self,
                ).next_cell() {
                    e == old(self).direction
                } else if !with_food && c == old(self).tail {
                    false
                } else {
                    old(self).bit(e, c)
                }),
    {
        let ghost pre = *self;
        proof {
            pre.lemma_occupied_cells();
        }
        let next = match self.next_step() {
            Ok(c) => c,
            Err(e) => return Err(e),
        };
        match self.check_cell(next) {
            Some(true) => return Err(SnakeError::Occupied),
            _ => {},
        }
        let ghost b = pre.cells@;
        let ghost ds = pre.dirs@;
        let ghost n = pre.size as int;
        let ghost nb = b.push(next);
        let ghost nd = ds.push(pre.direction);
        proof {
            lemma_index_range(next);
            assert(!b.contains(next));
            assert forall|i: int| 0 <= i < nb.len() implies (#[trigger] nb[i]).in_grid() by {
                if i < n {
                    assert(b[i].in_grid());
                }
            }
            lemma_distinct_cells_bound(nb);
        }
        let idx = next.into_index();
        let d = self.direction;
        self.set_bit(d, idx, true);
        self.head = next;
        proof {
            self.cells = Ghost(nb);
            self.dirs = Ghost(nd);
        }
        let ghost mid = *self;
        proof {
            assert forall|e: Direction, c: Coord| c.in_grid() implies #[trigger] mid.bit(e, c) == (
            (c == next && e == d) || pre.bit(e, c)) by {
                lemma_index_range(c);
                if c.index() == next.index() {
                    lemma_index_injective(c, next);
                }
            }
            assert forall|i: int| 0 <= i < nb.len() implies mid.bit(#[trigger] nd[i], nb[i]) by {
                if i < n {
                    assert(b[i].in_grid());
                    assert(pre.bit(ds[i], b[i]));
                }
            }
            assert forall|i: int| 0 <= i < nb.len() - 1 implies #[trigger] nb[i + 1] == nb[i].moved(
                nd[i],
            ) by {
                if i < n - 1 {
                    assert(b[i + 1] == b[i].moved(ds[i]));
                }
            }
            assert forall|c: Coord| c.in_grid() implies #[trigger] mid.at_most_one(c) by {
                assert(pre.at_most_one(c));
            }
            assert forall|c: Coord| #[trigger] mid.occupied(c) implies nb.contains(c) by {
                if c != next {
                    assert(pre.occupied(c));
                    let j = choose|j: int| 0 <= j < b.len() && b[j] == c;
                    assert(nb[j] == c);
                } else {
                    assert(nb[n] == c);
                }
            }
            assert(nb.no_duplicates());
        }
        if with_food {
            self.size = self.size + 1;
            proof {
                assert forall|c: Coord| c.in_grid() implies #[trigger] self.at_most_one(c) by {
                    assert(mid.at_most_one(c));
                }
                assert forall|c: Coord| #[trigger] self.occupied(c) implies nb.contains(c) by {
                    assert(mid.occupied(c));
                }
                assert(self.wf());
                self.lemma_occupied_cells();
            }
        } else {
            let t = self.tail;
            let ti = t.into_index();
            proof {
                assert(b[0].in_grid());
                lemma_index_range(t);
                assert(pre.bit(ds[0], t));
                assert(pre.at_most_one(t));
                assert(t != next);
                assert forall|e: Direction| mid.bit(e, t) == (e == ds[0]) by {}
                if n == 1 {
                    assert(nb[1] == next);
                } else {
                    assert(nb[1] == b[1]);
                    assert(b[0int + 1] == b[0].moved(ds[0]));
                }
                assert(nb[1] == t.moved(ds[0]));
                assert(nb[1].in_grid());
            }
            if self.get_bit(Direction::Left, ti) {
                match add_direction(t, Direction::Left) {
                    Ok(c) => self.tail = c,
                    Err(e) => return Err(e),
                }
            }
            self.set_bit(Direction::Left, ti, false);
            proof {
                assert(self.map(Direction::Up) == mid.map(Direction::Up));
                assert(self.map(Direction::Right) == mid.map(Direction::Right));
                assert(self.map(Direction::Down) == mid.map(Direction::Down));
            }
            if self.get_bit(Direction::Up, ti) {
                match add_direction(t, Direction::Up) {
                    Ok(c) => self.tail = c,
                    Err(e) => return Err(e),
                }
            }
            self.set_bit(Direction::Up, ti, false);
            proof {
                assert(self.map(Direction::Left) == mid.map(Direction::Left).update(ti as int, false));
                assert(self.map(Direction::Right) == mid.map(Direction::Right));
                assert(self.map(Direction::Down) == mid.map(Direction::Down));
            }
            if self.get_bit(Direction::Right, ti) {
                match add_direction(t, Direction::Right) {
                    Ok(c) => self.tail = c,
                    Err(e) => return Err(e),
                }
            }
            self.set_bit(Direction::Right, ti, false);
            proof {
                assert(self.map(Direction::Left) == mid.map(Direction::Left).update(ti as int, false));
                assert(self.map(Direction::Up) == mid.map(Direction::Up).update(ti as int, false));
                assert(self.map(Direction::Down) == mid.map(Direction::Down));
            }
            if self.get_bit(Direction::Down, ti) {
                match add_direction(t, Direction::Down) {
                    Ok(c) => self.tail = c,
                    Err(e) => return Err(e),
                }
            }
            self.set_bit(Direction::Down, ti, false);
            proof {
                assert(self.map(Direction::Left) == mid.map(Direction::Left).update(ti as int, false));
                assert(self.map(Direction::Up) == mid.map(Direction::Up).update(ti as int, false));
                assert(self.map(Direction::Right) == mid.map(Direction::Right).update(ti as int, false));
            }
            proof {
                let fb = nb.drop_first();
                let fd = nd.drop_first();
                self.cells = Ghost(fb);
                self.dirs = Ghost(fd);
                assert(self.tail == nb[1]);
                assert forall|e: Direction, c: Coord| c.in_grid() implies #[trigger] self.bit(e, c)
                    == (c != t && mid.bit(e, c)) by {
                    lemma_index_range(c);
                    if c.index() == t.index() {
                        lemma_index_injective(c, t);
                    }
                }
                assert forall|i: int| 0 <= i < fb.len() implies self.bit(
                    #[trigger] fd[i],
                    fb[i],
                ) by {
                    assert(nb[i + 1] != nb[0]);
                    assert(mid.bit(nd[i + 1], nb[i + 1]));
                }
                assert forall|i: int| 0 <= i < fb.len() implies (#[trigger] fb[i]).in_grid() by {
                    assert(nb[i + 1].in_grid());
                }
                assert forall|i: int| 0 <= i < fb.len() - 1 implies #[trigger] fb[i + 1]
                    == fb[i].moved(fd[i]) by {
                    let j = i + 1;
                    assert(nb[j + 1] == nb[j].moved(nd[j]));
                }
                assert forall|c: Coord| c.in_grid() implies #[trigger] self.at_most_one(c) by {
                    assert(mid.at_most_one(c));
                }
                assert forall|c: Coord| #[trigger] self.occupied(c) implies fb.contains(c) by {
                    assert(mid.occupied(c));
                    let j = choose|j: int| 0 <= j < nb.len() && nb[j] == c;
                    assert(j != 0);
                    assert(fb[j - 1] == c);
                }
                assert(self.wf());
                self.lemma_occupied_cells();
            }
        }
        Ok(())
    }

    /// The bitwise or of the four maps: the bit of a cell is set when the body
    /// holds it.
    fn union_map(&self) -> (r: GridBits)
        requires
            self.wf(),
        ensures
            bits_of(r).len() == GRID_AREA,
            forall|i: int|
                0 <= i < GRID_AREA ==> bits_of(r)[i] == self.occupied(Coord::at_index(i)),
    {
        let lu = self.left.union(&self.up);
        let lur = lu.union(&self.right);
        let r = lur.union(&self.down);
        proof {
            assert forall|i: int| 0 <= i < GRID_AREA implies bits_of(r)[i] == self.occupied(
                Coord::at_index(i),
            ) by {
                lemma_at_index(i);
            }
        }
        r
    }

    /// One bit per cell, in row-major order: set where the body holds the
    /// cell.
    pub fn get_elements(&self) -> (r: Vec<bool>)
        requires
            self.wf(),
        ensures
            r@.len() == GRID_AREA,
            forall|i: int| 0 <= i < GRID_AREA ==> r@[i] == self.occupied(Coord::at_index(i)),
    {
        let u = self.union_map();
        let mut r: Vec<bool> = Vec::new();
        let mut i: usize = 0;
        while i < GRID_AREA
            invariant
                i <= GRID_AREA,
                bits_of(u).len() == GRID_AREA,
                r@.len() == i,
                forall|j: int| 0 <= j < i ==> r@[j] == bits_of(u)[j],
            decreases GRID_AREA - i,
        {
            r.push(u.get(i));
            i = i + 1;
        }
        proof {
            assert forall|j: int| 0 <= j < GRID_AREA implies r@[j] == self.occupied(
                Coord::at_index(j),
            ) by {}
        }
        r
    }

    /// A cell that the body does not hold, drawn at random from all such
    /// cells; `None` when the body fills the grid.
    pub fn get_free_spot(&self, rng: &mut ChaCha8Rng) -> (r: Option<Coord>)
        requires
            self.wf(),
        ensures
            r is None <==> forall|c: Coord| c.in_grid() ==> self.occupied(c),
            r matches Some(c) ==> c.in_grid() && !self.occupied(c),
    {
        let u = self.union_map();
        let pick = u.random_zero(rng);
        proof {
            if pick is None {
                assert forall|c: Coord| c.in_grid() implies self.occupied(c) by {
                    lemma_index_range(c);
                    lemma_index_at(c);
                    assert(bits_of(u)[c.index()]);
                }
            } else {
                let i = pick->Some_0 as int;
                lemma_at_index(i);
                assert(!self.occupied(Coord::at_index(i)));
            }
        }
        match pick {
            Some(i) => Some(Coord::from_index(i)),
            None => None,
        }
    }

    /// The letter shown for cell `c`: the direction stored there (`L`, `R`,
    /// `U`, `D`), or a blank for a free cell.
    pub open spec fn letter(self, c: Coord) -> char {
        if self.bit(Direction::Left, c) {
            'L'
        } else if self.bit(Direction::Right, c) {
            'R'
        } else if self.bit(Direction::Up, c) {
            'U'
        } else if self.bit(Direction::Down, c) {
            'D'
        } else {
            ' '
        }
    }

    /// The letter of each cell (see `letter`), in row-major order.
    pub fn direction_grid(&self) -> (r: Vec<char>)
        requires
            self.wf(),
        ensures
            r@.len() == GRID_AREA,
            forall|i: int| 0 <= i < GRID_AREA ==> r@[i] == self.letter(Coord::at_index(i)),
    {
        let mut r: Vec<char> = Vec::new();
        let mut i: usize = 0;
        while i < GRID_AREA
            invariant
                i <= GRID_AREA,
                self.maps_sized(),
                r@.len() == i,
                forall|j: int| 0 <= j < i ==> r@[j] == self.letter(Coord::at_index(j)),
            decreases GRID_AREA - i,
        {
            proof {
                lemma_at_index(i as int);
            }
            let ch = if self.get_bit(Direction::Left, i) {
                'L'
            } else if self.get_bit(Direction::Right, i) {
                'R'
            } else if self.get_bit(Direction::Up, i) {
                'U'
            } else if self.get_bit(Direction::Down, i) {
                'D'
            } else {
                ' '
            };
            r.push(ch);
            i = i + 1;
        }
        r
    }
}

impl Default for ArrSnake {
    /// A snake of one cell at the center of the grid, moving left.
    fn default() -> (r: Self)
        ensures
            r.wf(),
            r.direction == Direction::Left,
            r.head == Coord::center(),
            r.tail == Coord::center(),
            r.size == 1,
            r.body() == seq![Coord::center()],
            forall|c: Coord| r.occupied(c) <==> c == Coord::center(),
            forall|e: Direction, c: Coord|
                c.in_grid() ==> #[trigger] r.bit(e, c) == (c == Coord::center() && e
                    == Direction::Left),
    {
        let middle = Coord::middle();
        let cells: Ghost<Seq<Coord>> = Ghost(Seq::empty().push(middle));
        let dirs: Ghost<Seq<Direction>> = Ghost(Seq::empty().push(Direction::Left));
        let mut s = ArrSnake {
            left: GridBits::new(),
            up: GridBits::new(),
            right: GridBits::new(),
            down: GridBits::new(),
            direction: Direction::Left,
            head: middle,
            tail: middle,
            size: 1,
            cells,
            dirs,
        };
        proof {
            lemma_index_range(middle);
            assert(s.maps_sized());
        }
        s.set_bit(Direction::Left, middle.into_index(), true);
        proof {
            assert forall|e: Direction, c: Coord| c.in_grid() implies #[trigger] s.bit(e, c) == (c
                == middle && e == Direction::Left) by {
                lemma_index_range(c);
                if c.index() == middle.index() {
                    lemma_index_injective(c, middle);
                }
            }
            assert forall|c: Coord| c.in_grid() implies #[trigger] s.at_most_one(c) by {}
            assert forall|c: Coord| #[trigger] s.occupied(c) implies s.cells@.contains(c) by {
                assert(s.cells@[0] == c);
            }
            assert(s.bit(s.dirs@[0], s.cells@[0]));
        }
        s
    }
}

} // verus!
