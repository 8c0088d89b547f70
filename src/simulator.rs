//! Plays whole episodes of the game with an agent and records, tick by tick,
//! the snapshot before the move, the move, its reward class and the snapshot
//! after it.
use vstd::prelude::*;

use crate::api::{codes_of, tier, GameAPI, GameAPIBinaryRepr, GameAPIBuilder, StepResult};
use crate::common::{Coord, Direction, GRID_AREA};
use crate::random::{choose_direction, seeded};
use rand_chacha::ChaCha8Rng;

verus! {

/// Below this length a plain step is rewarded when it brings the head closer
/// to the apple.
pub const SHAPING_MAX_LEN: usize = 10;

/// An agent: picks the direction of the next move.
pub trait PlayerTrait {
    fn choose_dir(&self, game_instance: &GameAPI, with_rng: &mut ChaCha8Rng) -> Direction
        requires
            game_instance.wf(),
    ;
}

/// An agent that picks each of the four directions with equal chance.
pub struct RandomPlayer;

impl PlayerTrait for RandomPlayer {
    fn choose_dir(&self, game_instance: &GameAPI, with_rng: &mut ChaCha8Rng) -> Direction {
        let options = [Direction::Left, Direction::Up, Direction::Right, Direction::Down];
        match choose_direction(&options, with_rng) {
            Some(d) => d,
            None => Direction::Left,
        }
    }
}

#[derive(Debug, Clone, Copy)]
pub struct SimulatorOptions {
    /// The most ticks an episode may last; an episode cut there ends in a
    /// `Lost` record.
    pub number_of_iterations: usize,
}

/// The reward class of a tick.
#[derive(Debug, Clone, Copy, PartialEq, Eq, Structural, PartialOrd, Ord, Hash)]
pub enum SimulationStepReward {
    /// A plain step; `true` when it was a good one (see `shaped`).
    Step(bool),
    Food,
    Won,
    Lost,
}

/// The record of a tick.
pub struct SimulationStep {
    pub snapshot: GameAPIBinaryRepr,
    pub direction: Direction,
    pub reward: SimulationStepReward,
    /// The snapshot after the tick, when the game goes on.
    pub next_state: Option<GameAPIBinaryRepr>,
}

pub open spec fn is_terminal(r: SimulationStepReward) -> bool {
    r is Won || r is Lost
}

/// Whether a plain step in direction `dir`, which left game `g`, counts as a
/// good one: the snake is short, and one more step that way would stay on
/// free cells of the grid and bring the head closer to the apple.
pub open spec fn shaped(g: GameAPI, dir: Direction) -> bool {
    let h = g.snake.head;
    let n = h.moved(dir);
    &&& g.snake.size < SHAPING_MAX_LEN
    &&& n.in_grid()
    &&& !g.snake.occupied(n)
    &&& h.l1_spec(g.apples) > n.l1_spec(g.apples)
}

/// The reward class of a tick with outcome `res`, where `before` apples had
/// been eaten before it and `g` is the game after it.
pub open spec fn reward_of(before: u128, res: StepResult, g: GameAPI, dir: Direction) -> SimulationStepReward {
    match res {
        StepResult::Lost { .. } => SimulationStepReward::Lost,
        StepResult::Win { .. } => SimulationStepReward::Won,
        StepResult::Base => if before == g.num_of_apples {
            SimulationStepReward::Step(shaped(g, dir))
        } else {
            SimulationStepReward::Food
        },
    }
}

/// A record stands alone: it has a next snapshot exactly when the game went
/// on.
pub open spec fn record_ok(s: SimulationStep) -> bool {
    &&& s.next_state is None <==> is_terminal(s.reward)
    &&& codes_of(s.snapshot).len() == GRID_AREA
    &&& s.next_state matches Some(n) ==> codes_of(n).len() == GRID_AREA
}

/// Record `i` leads into record `i + 1`: a record of a game that went on has
/// for its next snapshot the codes that the following record starts from.
pub open spec fn chained(v: Seq<SimulationStep>, i: int) -> bool {
    v[i].next_state matches Some(n) && codes_of(n) == codes_of(v[i + 1].snapshot)
}

/// The records of one episode: all but the last are of a game that went on,
/// each leads into the next, and the last ends the game.
pub open spec fn is_episode(v: Seq<SimulationStep>) -> bool {
    &&& v.len() >= 1
    &&& forall|i: int| 0 <= i < v.len() ==> record_ok(#[trigger] v[i])
    &&& forall|i: int| 0 <= i < v.len() - 1 ==> !is_terminal(#[trigger] v[i].reward)
    &&& forall|i: int| 0 <= i < v.len() - 1 ==> #[trigger] chained(v, i)
    &&& is_terminal(v.last().reward)
}

/// The number of records that end an episode.
pub open spec fn terminals(v: Seq<SimulationStep>) -> nat
    decreases v.len(),
{
    if v.len() == 0 {
        0
    } else {
        terminals(v.drop_last()) + if is_terminal(v.last().reward) {
            1nat
        } else {
            0nat
        }
    }
}

/// The records of `n` episodes one after the other.
pub open spec fn is_batch(v: Seq<SimulationStep>, n: nat) -> bool {
    &&& terminals(v) == n
    &&& forall|i: int| 0 <= i < v.len() ==> record_ok(#[trigger] v[i])
    &&& forall|i: int|
        0 <= i < v.len() - 1 && !is_terminal(v[i].reward) ==> #[trigger] chained(v, i)
    &&& v.len() > 0 ==> is_terminal(v.last().reward)
}

proof fn lemma_terminals_append(a: Seq<SimulationStep>, b: Seq<SimulationStep>)
    ensures
        terminals(a + b) == terminals(a) + terminals(b),
    decreases b.len(),
{
    if b.len() == 0 {
        assert(a + b =~= a);
    } else {
        assert((a + b).drop_last() =~= a + b.drop_last());
        lemma_terminals_append(a, b.drop_last());
    }
}

proof fn lemma_episode_terminals(v: Seq<SimulationStep>)
    requires
        v.len() >= 1,
        forall|i: int| 0 <= i < v.len() - 1 ==> !is_terminal(#[trigger] v[i].reward),
        is_terminal(v.last().reward),
    ensures
        terminals(v) == 1,
{
    assert forall|k: int| 0 <= k < v.len() implies terminals(#[trigger] v.take(k)) == 0 by {
        lemma_prefix_terminals(v, k);
    }
    assert(v.drop_last() =~= v.take(v.len() - 1));
}

proof fn lemma_prefix_terminals(v: Seq<SimulationStep>, k: int)
    requires
        0 <= k < v.len(),
        forall|i: int| 0 <= i < v.len() - 1 ==> !is_terminal(#[trigger] v[i].reward),
    ensures
        terminals(v.take(k)) == 0,
    decreases k,
{
    if k > 0 {
        assert(v.take(k).drop_last() =~= v.take(k - 1));
        lemma_prefix_terminals(v, k - 1);
    }
}

/// Whether the head of game `g` can move in direction `dir`: the cell that
/// way is on the grid and free.
pub open spec fn can_go(g: GameAPI, dir: Direction) -> bool {
    g.snake.head.moved(dir).in_grid() && !g.snake.occupied(g.snake.head.moved(dir))
}

/// One tick of play: game `pre`, turned to `dir` and played one tick, gives
/// game `post`, and the tick's record has reward `rew`.
pub open spec fn played(pre: GameAPI, dir: Direction, post: GameAPI, rew: SimulationStepReward) -> bool {
    let nh = pre.snake.head.moved(dir);
    let food = nh == pre.apples;
    if !can_go(pre, dir) {
        &&& rew == SimulationStepReward::Lost
        &&& post.snake.body() == pre.snake.body()
        &&& post.apples == pre.apples
        &&& post.steps == pre.steps
        &&& post.num_of_apples == pre.num_of_apples
        &&& post.score == pre.score
    } else {
        &&& post.snake.head == nh
        &&& post.snake.direction == dir
        &&& post.snake.body() == (if food {
            pre.snake.body().push(nh)
        } else {
            pre.snake.body().push(nh).drop_first()
        })
        &&& post.num_of_apples == pre.num_of_apples + (if food {
            1int
        } else {
            0int
        })
        &&& rew == (if food && pre.snake.size + 1 == GRID_AREA {
            SimulationStepReward::Won
        } else if food {
            SimulationStepReward::Food
        } else {
            SimulationStepReward::Step(shaped(post, dir))
        })
    }
}

/// A new game, before its first tick.
pub open spec fn fresh(g: GameAPI) -> bool {
    &&& g.wf()
    &&& g.snake.body() == seq![Coord::center()]
    &&& g.snake.direction == Direction::Left
    &&& Coord::center().l0_spec(g.apples) > 1
    &&& g.steps == 0
    &&& g.num_of_apples == 0
    &&& g.score == 0
}

/// The ticks an episode plays at most: the cap, and at least one.
pub open spec fn tick_limit(cap: int) -> int {
    if cap == 0 {
        1
    } else {
        cap
    }
}

/// The records `v` come from playing the games `gs`: a fresh game, then the
/// game after each tick. Record `i` holds the snapshot of `gs[i]`, the
/// direction played from it and the tick's reward. One more record, only
/// when the tick limit was reached, holds the last game in a `Lost` record
/// with the last direction played.
pub open spec fn plays(v: Seq<SimulationStep>, gs: Seq<GameAPI>, cap: int) -> bool {
    let n = gs.len() - 1;
    &&& 1 <= n
    &&& fresh(gs[0])
    &&& v.len() == n || v.len() == n + 1
    &&& forall|i: int|
        0 <= i < n ==> codes_of(#[trigger] v[i].snapshot) == gs[i].codes() && played(
            gs[i],
            v[i].direction,
            gs[i + 1],
            v[i].reward,
        )
    &&& v.len() == n ==> n <= tick_limit(cap)
    &&& v.len() == n + 1 ==> n == tick_limit(cap) && v[n].reward == SimulationStepReward::Lost
        && v[n].direction == v[n - 1].direction && codes_of(v[n].snapshot) == gs[n].codes()
}

pub struct Simulator {
    game_builder: GameAPIBuilder,
    pub simulator_options: SimulatorOptions,
}

impl Simulator {
    pub closed spec fn builder(self) -> GameAPIBuilder {
        self.game_builder
    }

    /// The most ticks an episode may last.
    pub closed spec fn cap(self) -> usize {
        self.simulator_options.number_of_iterations
    }

    pub fn new(game_builder: GameAPIBuilder, simulator_options: SimulatorOptions) -> (r: Self)
        ensures
            r.builder() == game_builder,
            r.cap() == simulator_options.number_of_iterations,
    {
        Simulator { game_builder, simulator_options }
    }

    /// The record of a tick with outcome `next_step`, in direction `dir`,
    /// from a game whose snapshot was `before_step_repr` and whose apple count
    /// was `before_step`, to `game_instance`.
    fn handle_next_step(
        &self,
        before_step: u128,
        before_step_repr: GameAPIBinaryRepr,
        dir: Direction,
        next_step: StepResult,
        game_instance: &GameAPI,
    ) -> (r: SimulationStep)
        requires
            game_instance.snake.wf(),
        ensures
            r.snapshot == before_step_repr,
            r.direction == dir,
            r.reward == reward_of(before_step, next_step, *game_instance, dir),
            next_step is Base ==> (r.next_state matches Some(n) && codes_of(n)
                == game_instance.codes()),
            !(next_step is Base) ==> r.next_state is None,
    {
        match next_step {
            StepResult::Lost { .. } => SimulationStep {
                snapshot: before_step_repr,
                direction: dir,
                reward: SimulationStepReward::Lost,
                next_state: None,
            },
            StepResult::Win { .. } => SimulationStep {
                snapshot: before_step_repr,
                direction: dir,
                reward: SimulationStepReward::Won,
                next_state: None,
            },
            StepResult::Base => {
                let step_rew = if game_instance.snake.size >= SHAPING_MAX_LEN {
                    false
                } else {
                    let sn_head = game_instance.snake.head;
                    let ap_head = game_instance.apples;
                    proof {
                        game_instance.snake.lemma_occupied_cells();
                    }
                    let nxt = sn_head.add_dir(dir);
                    let free = match game_instance.snake.check_cell(nxt) {
                        Some(b) => !b,
                        None => false,
                    };
                    free && sn_head.l1(ap_head) > nxt.l1(ap_head)
                };
                SimulationStep {
                    snapshot: before_step_repr,
                    direction: dir,
                    reward: if before_step == game_instance.num_of_apples {
                        SimulationStepReward::Step(step_rew)
                    } else {
                        SimulationStepReward::Food
                    },
                    next_state: Some(game_instance.to_game_repr()),
                }
            },
        }
    }

    /// Plays one episode: a new game, then ticks with the direction that the
    /// agent picks, until the game is won or lost, or for at most
    /// `tick_limit(cap())` ticks; an episode cut there ends in one more, `Lost`
    /// record of the last game state. The counters of a fresh game cannot
    /// reach their limits within that many ticks, so the episode never fails.
    pub fn simulation<P: PlayerTrait>(&self, player: &P, rng: &mut ChaCha8Rng) -> (r: Result<
        Vec<SimulationStep>,
        crate::common::SnakeError,
    >)
        ensures
            r is Ok,
            r matches Ok(v) ==> is_episode(v@),
            r matches Ok(v) ==> exists|gs: Seq<GameAPI>| plays(v@, gs, self.cap() as int),
            r matches Ok(v) ==> v@.len() <= tick_limit(self.cap() as int) + 1,
    {
        let mut game_instance = self.game_builder.build(rng);
        let mut snapshots: Vec<SimulationStep> = Vec::new();
        let mut num_iter: usize = 0;
        let cap = self.simulator_options.number_of_iterations;
        let ghost mut gs: Seq<GameAPI> = seq![game_instance];
        loop
            invariant
                cap == self.cap(),
                game_instance.wf(),
                num_iter < cap || num_iter == 0,
                game_instance.steps <= num_iter,
                game_instance.num_of_apples <= game_instance.steps,
                game_instance.score <= 150 * game_instance.steps,
                snapshots@.len() == num_iter,
                gs.len() == num_iter + 1,
                gs.last() == game_instance,
                fresh(gs[0]),
                forall|i: int|
                    0 <= i < num_iter ==> codes_of(#[trigger] snapshots@[i].snapshot)
                        == gs[i].codes() && played(
                        gs[i],
                        snapshots@[i].direction,
                        gs[i + 1],
                        snapshots@[i].reward,
                    ),
                forall|i: int| 0 <= i < snapshots@.len() ==> record_ok(#[trigger] snapshots@[i]),
                forall|i: int|
                    0 <= i < snapshots@.len() ==> !is_terminal(#[trigger] snapshots@[i].reward),
                forall|i: int| 0 <= i < snapshots@.len() - 1 ==> #[trigger] chained(snapshots@, i),
                snapshots@.len() > 0 ==> (snapshots@.last().next_state matches Some(n) && codes_of(
                    n,
                ) == game_instance.codes()),
            decreases cap - num_iter + 1,
        {
            let ghost pre = game_instance;
            num_iter = num_iter + 1;
            let before_step = game_instance.num_of_apples;
            let before_step_repr = game_instance.to_game_repr();
            let dir = player.choose_dir(&game_instance, rng);
            game_instance.update_direction(dir);
            let ghost turned = game_instance;
            proof {
                assert(turned.snake.next_valid() == can_go(pre, dir));
                assert(!turned.overflows()) by {
                    assert(turned.steps < u128::MAX);
                    assert(turned.score + 150 <= u128::MAX);
                    assert(tier(turned.snake.size + 1).value() <= 150);
                }
            }
            let next_step = match game_instance.next(rng) {
                Ok(s) => s,
                Err(e) => return Err(e),
            };
            let ghost prev = snapshots@;
            let otp = self.handle_next_step(
                before_step,
                before_step_repr,
                dir,
                next_step,
                &game_instance,
            );
            snapshots.push(otp);
            proof {
                let post = game_instance;
                assert(played(pre, dir, post, otp.reward));
                gs = gs.push(post);
                let v = snapshots@;
                assert forall|i: int|
                    0 <= i < num_iter implies codes_of(#[trigger] v[i].snapshot) == gs[i].codes()
                    && played(gs[i], v[i].direction, gs[i + 1], v[i].reward) by {
                    if i < num_iter - 1 {
                        assert(v[i] == prev[i]);
                    }
                }
                assert forall|i: int| 0 <= i < v.len() - 1 implies #[trigger] chained(v, i) by {
                    assert(v[i] == prev[i]);
                    if i < prev.len() - 1 {
                        assert(chained(prev, i));
                    }
                }
                assert forall|i: int| 0 <= i < v.len() implies record_ok(#[trigger] v[i]) by {
                    if i < prev.len() {
                        assert(record_ok(prev[i]));
                    }
                }
                if next_step is Base {
                    assert(game_instance.score <= 150 * game_instance.steps);
                }
            }
            match next_step {
                StepResult::Base => {},
                _ => {
                    proof {
                        let v = snapshots@;
                        assert forall|i: int| 0 <= i < v.len() - 1 implies !is_terminal(
                            #[trigger] v[i].reward,
                        ) by {
                            assert(v[i] == prev[i]);
                        }
                        assert(plays(v, gs, cap as int));
                    }
                    return Ok(snapshots);
                },
            }
            if num_iter >= cap {
                let last = SimulationStep {
                    snapshot: game_instance.to_game_repr(),
                    direction: dir,
                    reward: SimulationStepReward::Lost,
                    next_state: None,
                };
                let ghost mid = snapshots@;
                snapshots.push(last);
                proof {
                    let v = snapshots@;
                    assert forall|i: int| 0 <= i < v.len() - 1 implies #[trigger] chained(v, i) by {
                        assert(v[i] == mid[i]);
                        if i < mid.len() - 1 {
                            assert(chained(mid, i));
                        }
                    }
                    assert forall|i: int| 0 <= i < v.len() implies record_ok(#[trigger] v[i]) by {
                        if i < mid.len() {
                            assert(record_ok(mid[i]));
                        }
                    }
                    assert forall|i: int| 0 <= i < v.len() - 1 implies !is_terminal(
                        #[trigger] v[i].reward,
                    ) by {
                        assert(v[i] == mid[i]);
                    }
                    assert forall|i: int|
                        0 <= i < num_iter implies codes_of(#[trigger] v[i].snapshot)
                        == gs[i].codes() && played(gs[i], v[i].direction, gs[i + 1], v[i].reward) by {
                        assert(v[i] == mid[i]);
                    }
                    assert(plays(v, gs, cap as int));
                }
                return Ok(snapshots);
            }
        }
    }

    /// Plays `number_episodes` episodes one after the other, the episode of
    /// index `k` with a generator seeded from `seed + k` (wrapping), and
    /// returns all their records in order. Like a single episode, the batch
    /// never fails.
    pub fn run_many<P: PlayerTrait>(&self, player: &P, number_episodes: usize, seed: u64) -> (r:
        Result<Vec<SimulationStep>, crate::common::SnakeError>)
        ensures
            r is Ok,
            r matches Ok(v) ==> is_batch(v@, number_episodes as nat),
    {
        let mut all: Vec<SimulationStep> = Vec::new();
        let mut k: usize = 0;
        while k < number_episodes
            invariant
                k <= number_episodes,
                is_batch(all@, k as nat),
            decreases number_episodes - k,
        {
            let mut rng = seeded(seed.wrapping_add(k as u64));
            let mut episode = match self.simulation(player, &mut rng) {
                Ok(v) => v,
                Err(e) => return Err(e),
            };
            let ghost a = all@;
            let ghost b = episode@;
            all.append(&mut episode);
            proof {
                let v = all@;
                assert(v =~= a + b);
                lemma_terminals_append(a, b);
                lemma_episode_terminals(b);
                assert forall|i: int| 0 <= i < v.len() implies record_ok(#[trigger] v[i]) by {
                    if i < a.len() {
                        assert(record_ok(a[i]));
                    } else {
                        assert(v[i] == b[i - a.len()]);
                        assert(record_ok(b[i - a.len()]));
                    }
                }
                assert forall|i: int|
                    0 <= i < v.len() - 1 && !is_terminal(v[i].reward) implies #[trigger] chained(
                    v,
                    i,
                ) by {
                    if i < a.len() {
                        if i == a.len() - 1 {
                            assert(is_terminal(a.last().reward));
                        } else {
                            assert(chained(a, i));
                        }
                    } else {
                        let j = i - a.len();
                        assert(v[i] == b[j]);
                        assert(v[i + 1] == b[j + 1]);
                        assert(chained(b, j));
                    }
                }
            }
            k = k + 1;
        }
        Ok(all)
    }
}

} // verus!
