//! The game state and its transition, one tick at a time.
use vstd::prelude::*;

use crate::common::{
    index_of, lemma_index_at, lemma_index_range, Cell, Coord, Direction, SnakeError, GRID_AREA,
    GRID_X, GRID_Y,
};
use crate::random::random_below;
use crate::snake::ArrSnake;
use rand_chacha::ChaCha8Rng;

verus! {

/// How many cell draws `GameAPI::new` makes for the apple before it draws a
/// rank among the admissible cells instead. Each cell draw is accepted with
/// probability 1271/1280.
pub const APPLE_DRAWS: u32 = 1000;

/// Number of cells at Chebyshev distance above one from the center: all but
/// the three by three block around it.
pub const FAR_CELLS: usize = GRID_AREA - 9;

/// The cell of rank `k`, in row-major order, among those at Chebyshev
/// distance above one from the center: ranks skip the three runs of three
/// cells of the block around the center.
pub fn far_cell(k: usize) -> (r: Coord)
    requires
        k < FAR_CELLS,
    ensures
        r.in_grid(),
        Coord::center().l0_spec(r) > 1,
{
    let first: usize = (GRID_X / 2 - 1) * GRID_Y + GRID_Y / 2 - 1;
    let mut j: usize = k;
    if j >= first {
        j = j + 3;
    }
    if j >= first + GRID_Y {
        j = j + 3;
    }
    if j >= first + 2 * GRID_Y {
        j = j + 3;
    }
    Coord::from_index(j)
}

/// The outcome of a tick.
#[derive(Debug, Clone, Copy, PartialEq, Eq, Structural, Hash)]
pub enum StepResult {
    /// The snake ate the last free cell's apple: no cell is left for a new one.
    Win { num_steps: usize },
    /// The snake's next cell is off the grid or part of its body.
    Lost { num_steps: usize, number_of_fruits: usize, snake_size: usize, level_reached: Speed },
    /// The game goes on.
    Base,
}

/// The speed tier, set by the share of the grid that the snake fills.
#[derive(Debug, Clone, Copy, PartialEq, Eq, Structural, Hash)]
pub enum Speed {
    Slow,
    Medium,
    Hard,
    VeryHard,
    GodMode,
}

/// The tier of a snake of `len` cells: fifths of the grid's area, from
/// `Slow` below one fifth to `GodMode` from four fifths on.
pub open spec fn tier(len: int) -> Speed {
    if 5 * len < GRID_AREA {
        Speed::Slow
    } else if 5 * len < 2 * GRID_AREA {
        Speed::Medium
    } else if 5 * len < 3 * GRID_AREA {
        Speed::Hard
    } else if 5 * len < 4 * GRID_AREA {
        Speed::VeryHard
    } else {
        Speed::GodMode
    }
}

impl Speed {
    /// Points for an apple eaten at this tier.
    pub open spec fn value(self) -> nat {
        match self {
            Speed::Slow => 10,
            Speed::Medium => 20,
            Speed::Hard => 50,
            Speed::VeryHard => 100,
            Speed::GodMode => 150,
        }
    }

    /// Points for an apple eaten at this tier.
    pub fn to_score(self) -> (r: u128)
        ensures
            r == self.value(),
    {
        match self {
            Speed::Slow => 10,
            Speed::Medium => 20,
            Speed::Hard => 50,
            Speed::VeryHard => 100,
            Speed::GodMode => 150,
        }
    }

    /// The tier of a snake of `len` cells.
    pub fn for_length(len: usize) -> (r: Speed)
        requires
            len <= GRID_AREA,
        ensures
            r == tier(len as int),
    {
        let fifths = 5 * len;
        if fifths < GRID_AREA {
            Speed::Slow
        } else if fifths < 2 * GRID_AREA {
            Speed::Medium
        } else if fifths < 3 * GRID_AREA {
            Speed::Hard
        } else if fifths < 4 * GRID_AREA {
            Speed::VeryHard
        } else {
            Speed::GodMode
        }
    }

    /// The name of the tier as shown to a player.
    pub fn label(self) -> (r: &'static str)
        ensures
            r@ == (match self {
                Speed::Slow => "Easy"@,
                Speed::Medium => "Medium"@,
                Speed::Hard => "Hard"@,
                Speed::VeryHard => "Very Hard"@,
                Speed::GodMode => "GodLike"@,
            }),
    {
        match self {
            Speed::Slow => "Easy",
            Speed::Medium => "Medium",
            Speed::Hard => "Hard",
            Speed::VeryHard => "Very Hard",
            Speed::GodMode => "GodLike",
        }
    }
}

impl Default for Speed {
    fn default() -> (r: Self)
        ensures
            r == Speed::Slow,
    {
        Speed::Slow
    }
}

/// Options of a game.
#[derive(Debug, Clone, Copy)]
pub struct GameOptions {
    time_speed_del: u128,
}

impl GameOptions {
    /// Every `interval()` steps the score loses a point; never when it is 0.
    pub closed spec fn interval(self) -> u128 {
        self.time_speed_del
    }

    /// Options where the score loses a point every `time_speed_del` steps.
    pub fn new(time_speed_del: u128) -> (r: GameOptions)
        ensures
            r.interval() == time_speed_del,
    {
        GameOptions { time_speed_del }
    }

    pub fn time_speed_del(&self) -> (r: u128)
        ensures
            r == self.interval(),
    {
        self.time_speed_del
    }
}

impl Default for GameOptions {
    /// The score loses a point every fifth of the grid's area in steps.
    fn default() -> (r: Self)
        ensures
            r.interval() == GRID_AREA / 5,
    {
        GameOptions { time_speed_del: (GRID_AREA / 5) as u128 }
    }
}

/// The score after a tick: `gain` added, then a point taken off (down to
/// zero) when the step count is a multiple of a non-zero `interval`.
pub open spec fn score_after(score: int, gain: int, steps: int, interval: int) -> int {
    let s = score + gain;
    if interval != 0 && steps % interval == 0 {
        if s > 0 {
            s - 1
        } else {
            0
        }
    } else {
        s
    }
}

/// A snapshot of a game: a grid of `GRID_X` rows and `GRID_Y` columns of cell
/// codes (see `GameAPI::code`), kept in an `ndarray` array.
#[verifier::external_body]
pub struct GameAPIBinaryRepr {
    array: ndarray::Array2<i32>,
}

/// The codes of a snapshot, in row-major order.
pub uninterp spec fn codes_of(r: GameAPIBinaryRepr) -> Seq<i32>;

impl GameAPIBinaryRepr {
    /// Relies on `Array2::from_shape_fn`: an array of the given shape, in the
    /// standard row-major layout, whose element at `(row, col)` is what the
    /// function gives for that pair.
    #[verifier::external_body]
    fn of_game(game: &GameAPI) -> (r: GameAPIBinaryRepr)
        requires
            game.snake.wf(),
        ensures
            codes_of(r) == game.codes(),
    {
        GameAPIBinaryRepr {
            array: ndarray::Array2::from_shape_fn(
                (GRID_X, GRID_Y),
                |(row, col)| game.code_at(row, col),
            ),
        }
    }

    /// Relies on indexing an `Array2` by `[row, col]`, which panics only
    /// outside its shape.
    #[verifier::external_body]
    fn at(&self, row: usize, col: usize) -> (r: i32)
        requires
            row < GRID_X,
            col < GRID_Y,
            codes_of(*self).len() == GRID_AREA,
        ensures
            r == codes_of(*self)[index_of(row as int, col as int)],
    {
        self.array[[row, col]]
    }

    /// The codes of the snapshot, in row-major order.
    pub fn to_codes(&self) -> (r: Vec<i32>)
        requires
            codes_of(*self).len() == GRID_AREA,
        ensures
            r@ == codes_of(*self),
    {
        let mut r: Vec<i32> = Vec::new();
        let mut row: usize = 0;
        while row < GRID_X
            invariant
                row <= GRID_X,
                codes_of(*self).len() == GRID_AREA,
                r@.len() == row * GRID_Y,
                forall|j: int| 0 <= j < r@.len() ==> r@[j] == codes_of(*self)[j],
            decreases GRID_X - row,
        {
            let mut col: usize = 0;
            while col < GRID_Y
                invariant
                    row < GRID_X,
                    col <= GRID_Y,
                    codes_of(*self).len() == GRID_AREA,
                    r@.len() == row * GRID_Y + col,
                    forall|j: int| 0 <= j < r@.len() ==> r@[j] == codes_of(*self)[j],
                decreases GRID_Y - col,
            {
                r.push(self.at(row, col));
                col = col + 1;
            }
            row = row + 1;
        }
        proof {
            assert(r@ =~= codes_of(*self));
        }
        r
    }
}

/// A game: the snake, the apple, and the counters.
pub struct GameAPI {
    pub snake: ArrSnake,
    pub apples: Coord,
    pub steps: u128,
    pub num_of_apples: u128,
    pub score: u128,
    pub mode: Speed,
    pub game_options: GameOptions,
}

impl GameAPI {
    /// A game in play: the snake is well formed, the apple lies on a free
    /// cell of the grid, and the tier matches the snake's length.
    pub open spec fn wf(self) -> bool {
        &&& self.snake.wf()
        &&& self.apples.in_grid()
        &&& !self.snake.occupied(self.apples)
        &&& self.mode == tier(self.snake.size as int)
    }

    /// Whether the next cell of the head holds the apple.
    pub open spec fn food_next(self) -> bool {
        self.snake.next_cell() == self.apples
    }

    /// Whether the next tick would take a counter past its range.
    pub open spec fn overflows(self) -> bool {
        ||| self.steps == u128::MAX
        ||| self.food_next() && self.num_of_apples == u128::MAX
        ||| self.food_next() && self.score + tier(self.snake.size + 1).value() > u128::MAX
    }

    /// What cell `pos` holds: `None` off the grid.
    pub open spec fn cell_spec(self, pos: Coord) -> Option<Cell> {
        if !pos.in_grid() {
            None
        } else if pos == self.apples {
            Some(Cell::Apple)
        } else if self.snake.occupied(pos) {
            Some(Cell::Snake)
        } else {
            Some(Cell::Empty)
        }
    }

    /// The snapshot code of cell `pos`: 0 empty, 1 the head, 2 the rest of
    /// the body, 3 the apple.
    pub open spec fn code(self, pos: Coord) -> i32 {
        match self.cell_spec(pos) {
            Some(Cell::Apple) => 3,
            Some(Cell::Snake) => if pos == self.snake.head {
                1
            } else {
                2
            },
            _ => 0,
        }
    }

    /// The snapshot codes of all cells, in row-major order.
    pub open spec fn codes(self) -> Seq<i32> {
        Seq::new(GRID_AREA as nat, |i: int| self.code(Coord::at_index(i)))
    }

    /// A new game: a snake of one cell at the center, moving left, and an
    /// apple on a cell drawn at random until one at Chebyshev distance above
    /// one from the center comes up. Should all `APPLE_DRAWS` draws fall near
    /// the center, the apple goes to a cell drawn directly among the
    /// admissible ones (see `far_cell`), which is as uniform.
    pub fn new(rng: &mut ChaCha8Rng, game_options: Option<GameOptions>) -> (r: GameAPI)
        ensures
            r.wf(),
            r.snake.body() == seq![Coord::center()],
            r.snake.head == Coord::center(),
            r.snake.direction == Direction::Left,
            forall|c: Coord| r.snake.occupied(c) <==> c == Coord::center(),
            Coord::center().l0_spec(r.apples) > 1,
            r.steps == 0,
            r.num_of_apples == 0,
            r.score == 0,
            r.mode == Speed::Slow,
            game_options matches Some(o) ==> r.game_options == o,
            game_options is None ==> r.game_options.interval() == GRID_AREA / 5,
    {
        let mid = Coord::middle();
        let mut found: Option<Coord> = None;
        let mut draws: u32 = 0;
        while draws < APPLE_DRAWS
            invariant
                found matches Some(a) ==> a.in_grid() && mid.l0_spec(a) > 1,
            decreases APPLE_DRAWS - draws,
        {
            let c = Coord {
                row: random_below(rng, GRID_X as i16),
                col: random_below(rng, GRID_Y as i16),
            };
            if mid.l0(c) > 1 {
                found = Some(c);
                break ;
            }
            draws = draws + 1;
        }
        let apple = match found {
            Some(a) => a,
            None => far_cell(random_below(rng, FAR_CELLS as i16) as usize),
        };
        let options = match game_options {
            Some(o) => o,
            None => GameOptions::default(),
        };
        GameAPI {
            snake: ArrSnake::default(),
            apples: apple,
            steps: 0,
            score: 0,
            num_of_apples: 0,
            mode: Speed::default(),
            game_options: options,
        }
    }

    /// What cell `pos` holds: `None` off the grid.
    pub fn get_pos(&self, pos: Coord) -> (r: Option<Cell>)
        requires
            self.snake.wf(),
        ensures
            r == self.cell_spec(pos),
    {
        if pos.row < 0 || pos.row >= GRID_X as i16 || pos.col < 0 || pos.col >= GRID_Y as i16 {
            return None;
        }
        if self.apples == pos {
            return Some(Cell::Apple);
        }
        match self.snake.check_cell(pos) {
            Some(true) => Some(Cell::Snake),
            Some(false) => Some(Cell::Empty),
            None => None,
        }
    }

    /// Turns the snake. A turn back into the body is not refused here: the
    /// next tick then ends the game.
    pub fn update_direction(&mut self, dir: Direction)
        requires
            old(self).wf(),
        ensures
            final(self).wf(),
            final(self).snake.direction == dir,
            final(self).snake.head == old(self).snake.head,
            final(self).snake.tail == old(self).snake.tail,
            final(self).snake.size == old(self).snake.size,
            final(self).snake.body() == old(self).snake.body(),
            forall|c: Coord| final(self).snake.occupied(c) == old(self).snake.occupied(c),
            forall|e: Direction, c: Coord|
                c.in_grid() ==> #[trigger] final(self).snake.bit(e, c) == (if c == old(
                    self,
                ).snake.head {
                    e == dir
                } else {
                    old(self).snake.bit(e, c)
                }),
            final(self).apples == old(self).apples,
            final(self).steps == old(self).steps,
            final(self).num_of_apples == old(self).num_of_apples,
            final(self).score == old(self).score,
            final(self).mode == old(self).mode,
            final(self).game_options == old(self).game_options,
    {
        self.snake.set_direction(dir);
    }

    /// Sets the tier from the snake's length.
    fn set_speed(&mut self)
        requires
            old(self).snake.size <= GRID_AREA,
        ensures
            final(self).mode == tier(old(self).snake.size as int),
            final(self).snake == old(self).snake,
            final(self).apples == old(self).apples,
            final(self).steps == old(self).steps,
            final(self).num_of_apples == old(self).num_of_apples,
            final(self).score == old(self).score,
            final(self).game_options == old(self).game_options,
    {
        self.mode = Speed::for_length(self.snake.size);
    }

    /// Plays one tick. When the head cannot move on, the game is lost and
    /// nothing changes. Otherwise the head moves; on the apple the snake grows
    /// and a new apple is drawn among the free cells, and when none is left
    /// the game is won. Then the step count grows by one, the tier is set from
    /// the new length, an eaten apple scores the tier's points, and every
    /// `interval()` steps the score loses a point. A tick that would take a
    /// counter past its range is refused with `Overflow` and changes nothing.
    pub fn next(&mut self, rng: &mut ChaCha8Rng) -> (r: Result<StepResult, SnakeError>)
        requires
            old(self).wf(),
        ensures
            !old(self).snake.next_valid() ==> r == Ok::<StepResult, SnakeError>(
                StepResult::Lost {
                    num_steps: old(self).steps as usize,
                    number_of_fruits: old(self).num_of_apples as usize,
                    snake_size: old(self).snake.size,
                    level_reached: old(self).mode,
                },
            ) && *final(self) == *old(self),
            old(self).snake.next_valid() && old(self).overflows() ==> r == Err::<
                StepResult,
                SnakeError,
            >(SnakeError::Overflow) && *final(self) == *old(self),
            old(self).snake.next_valid() && !old(self).overflows() ==> final(self).snake.wf()
                && final(self).snake.head == old(self).snake.next_cell()
                && final(self).snake.direction == old(self).snake.direction
                && final(self).snake.body() == (if old(self).food_next() {
                old(self).snake.body().push(old(self).snake.next_cell())
            } else {
                old(self).snake.body().push(old(self).snake.next_cell()).drop_first()
            }) && final(self).snake.size == old(self).snake.size + (if old(self).food_next() {
                1int
            } else {
                0int
            }) && final(self).num_of_apples == old(self).num_of_apples + (if old(
                self,
            ).food_next() {
                1int
            } else {
                0int
            }) && final(self).game_options == old(self).game_options,
            old(self).snake.next_valid() && !old(self).overflows() ==> (r == Ok::<
                StepResult,
                SnakeError,
            >(StepResult::Win { num_steps: old(self).steps as usize }) <==> old(self).food_next()
                && forall|c: Coord| c.in_grid() ==> final(self).snake.occupied(c)),
            old(self).snake.next_valid() && !old(self).overflows() ==> (r == Ok::<
                StepResult,
                SnakeError,
            >(StepResult::Win { num_steps: old(self).steps as usize }) <==> old(self).food_next()
                && old(self).snake.size + 1 == GRID_AREA),
            old(self).snake.next_valid() && !old(self).overflows() && r == Ok::<
                StepResult,
                SnakeError,
            >(StepResult::Win { num_steps: old(self).steps as usize }) ==> final(self).steps
                == old(self).steps && final(self).score == old(self).score,
            old(self).snake.next_valid() && !old(self).overflows() && !(r == Ok::<
                StepResult,
                SnakeError,
            >(StepResult::Win { num_steps: old(self).steps as usize })) ==> r == Ok::<
                StepResult,
                SnakeError,
            >(StepResult::Base) && final(self).wf() && final(self).steps == old(self).steps + 1
                && final(self).mode == tier(final(self).snake.size as int) && final(self).score
                == score_after(
                old(self).score as int,
                if old(self).food_next() {
                    final(self).mode.value() as int
                } else {
                    0int
                },
                final(self).steps as int,
                old(self).game_options.interval() as int,
            ) && (!old(self).food_next() ==> final(self).apples == old(self).apples),
    {
        proof {
            self.snake.lemma_occupied_cells();
        }
        if !self.snake.is_next_valid() {
            return Ok(
                StepResult::Lost {
                    num_steps: #[verifier::truncate] (self.steps as usize),
                    number_of_fruits: #[verifier::truncate] (self.num_of_apples as usize),
                    snake_size: self.snake.size,
                    level_reached: self.mode,
                },
            );
        }
        proof {
            self.snake.lemma_room_for_next();
        }
        let head = match self.snake.next_step() {
            Ok(c) => c,
            Err(e) => return Err(e),
        };
        let with_food = head == self.apples;
        let gain = if with_food {
            Speed::for_length(self.snake.size + 1).to_score()
        } else {
            0
        };
        if self.steps == u128::MAX || (with_food && (self.num_of_apples == u128::MAX || self.score
            > u128::MAX - gain)) {
            return Err(SnakeError::Overflow);
        }
        match self.snake.step(with_food) {
            Ok(()) => {},
            Err(e) => return Err(e),
        }
        proof {
            self.snake.lemma_occupied_cells();
            self.snake.lemma_full();
        }
        if with_food {
            self.num_of_apples = self.num_of_apples + 1;
            match self.snake.get_free_spot(rng) {
                Some(c) => self.apples = c,
                None => return Ok(StepResult::Win { num_steps: #[verifier::truncate] (self.steps as usize) }),
            }
        }
        self.steps = self.steps + 1;
        self.set_speed();
        if with_food {
            self.score = self.score + self.mode.to_score();
        }
        let interval = self.game_options.time_speed_del();
        if interval != 0 && self.steps % interval == 0 {
            self.score = self.score.saturating_sub(1);
        }
        Ok(StepResult::Base)
    }

    /// The snapshot code of the cell at `row`, `col`.
    fn code_at(&self, row: usize, col: usize) -> (r: i32)
        requires
            self.snake.wf(),
            row < GRID_X,
            col < GRID_Y,
        ensures
            r == self.code(Coord { row: row as i16, col: col as i16 }),
    {
        let pos = Coord { row: row as i16, col: col as i16 };
        match self.get_pos(pos) {
            Some(Cell::Apple) => 3,
            Some(Cell::Snake) => if pos == self.snake.head {
                1
            } else {
                2
            },
            _ => 0,
        }
    }

    /// The character shown for cell `pos`: `H` the head, `T` the tail, `A`
    /// the apple, `S` the rest of the body, `*` a free cell.
    pub open spec fn symbol(self, pos: Coord) -> char {
        if pos == self.snake.head {
            'H'
        } else if pos == self.snake.tail {
            'T'
        } else if pos == self.apples {
            'A'
        } else if self.snake.occupied(pos) {
            'S'
        } else {
            '*'
        }
    }

    /// The character of each cell (see `symbol`), in row-major order.
    pub fn char_grid(&self) -> (r: Vec<char>)
        requires
            self.snake.wf(),
        ensures
            r@.len() == GRID_AREA,
            forall|i: int| 0 <= i < GRID_AREA ==> r@[i] == self.symbol(Coord::at_index(i)),
    {
        let mut r: Vec<char> = Vec::new();
        let mut i: usize = 0;
        while i < GRID_AREA
            invariant
                i <= GRID_AREA,
                self.snake.wf(),
                r@.len() == i,
                forall|j: int| 0 <= j < i ==> r@[j] == self.symbol(Coord::at_index(j)),
            decreases GRID_AREA - i,
        {
            let pos = Coord::from_index(i);
            let ch = if pos == self.snake.head {
                'H'
            } else if pos == self.snake.tail {
                'T'
            } else if pos == self.apples {
                'A'
            } else {
                match self.snake.check_cell(pos) {
                    Some(true) => 'S',
                    _ => '*',
                }
            };
            r.push(ch);
            i = i + 1;
        }
        r
    }

    /// A snapshot of the game: each cell's code, 0 empty, 1 the head, 2 the
    /// rest of the body, 3 the apple.
    pub fn to_game_repr(&self) -> (r: GameAPIBinaryRepr)
        requires
            self.snake.wf(),
        ensures
            codes_of(r) == self.codes(),
    {
        GameAPIBinaryRepr::of_game(self)
    }
}

/// Builds games with the options chosen, or the default ones.
#[derive(Debug, Clone, Copy)]
pub struct GameAPIBuilder {
    selected_game_options: Option<GameOptions>,
}

impl GameAPIBuilder {
    pub closed spec fn options(self) -> Option<GameOptions> {
        self.selected_game_options
    }

    /// A new game (see `GameAPI::new`) with the options chosen.
    pub fn build(self, rng: &mut ChaCha8Rng) -> (r: GameAPI)
        ensures
            r.wf(),
            r.snake.body() == seq![Coord::center()],
            r.snake.head == Coord::center(),
            r.snake.direction == Direction::Left,
            Coord::center().l0_spec(r.apples) > 1,
            r.steps == 0,
            r.num_of_apples == 0,
            r.score == 0,
            self.options() matches Some(o) ==> r.game_options == o,
            self.options() is None ==> r.game_options.interval() == GRID_AREA / 5,
    {
        GameAPI::new(rng, self.selected_game_options)
    }

    pub fn with_selected_game_options(self, selected_game_options: GameOptions) -> (r: Self)
        ensures
            r.options() == Some(selected_game_options),
    {
        GameAPIBuilder { selected_game_options: Some(selected_game_options) }
    }
}

impl Default for GameAPIBuilder {
    /// A builder of games with the default options.
    fn default() -> (r: Self)
        ensures
            r.options() is None,
    {
        GameAPIBuilder { selected_game_options: None }
    }
}

/// The snapshot of a game in play holds 1 at the head, 2 at each other cell
/// of the body, 3 at the apple and 0 at every other cell of the grid.
pub proof fn lemma_snapshot_codes(g: GameAPI)
    requires
        g.wf(),
    ensures
        g.codes().len() == GRID_AREA,
        forall|c: Coord|
            c.in_grid() ==> #[trigger] g.codes()[c.index()] == (if c == g.snake.head {
                1i32
            } else if g.snake.body().contains(c) {
                2i32
            } else if c == g.apples {
                3i32
            } else {
                0i32
            }),
{
    g.snake.lemma_occupied_cells();
    assert forall|c: Coord| c.in_grid() implies #[trigger] g.codes()[c.index()] == (if c
        == g.snake.head {
        1i32
    } else if g.snake.body().contains(c) {
        2i32
    } else if c == g.apples {
        3i32
    } else {
        0i32
    }) by {
        lemma_index_range(c);
        lemma_index_at(c);
    }
}

} // verus!
