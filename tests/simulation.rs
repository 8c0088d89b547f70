use rand::SeedableRng;
use rand_chacha::ChaCha8Rng;
use snake_api_lib::api::{GameAPI, GameAPIBuilder};
use snake_api_lib::common::Direction;
use snake_api_lib::simulator::{
    PlayerTrait, RandomPlayer, SimulationStep, SimulationStepReward, Simulator, SimulatorOptions,
};

fn terminal(s: &SimulationStep) -> bool {
    matches!(s.reward, SimulationStepReward::Won | SimulationStepReward::Lost)
}

fn check_episode(v: &[SimulationStep]) {
    assert!(!v.is_empty());
    for (i, s) in v.iter().enumerate() {
        assert_eq!(s.next_state.is_none(), terminal(s));
        if i + 1 < v.len() {
            assert!(!terminal(s));
            let next = s.next_state.as_ref().unwrap().to_codes();
            assert_eq!(next, v[i + 1].snapshot.to_codes());
        }
    }
    assert!(terminal(v.last().unwrap()));
}

/// An agent that keeps moving left.
struct LeftPlayer;

impl PlayerTrait for LeftPlayer {
    fn choose_dir(&self, _game: &GameAPI, _rng: &mut ChaCha8Rng) -> Direction {
        Direction::Left
    }
}

#[test]
fn random_episode_is_well_formed() {
    let sim = Simulator::new(
        GameAPIBuilder::default(),
        SimulatorOptions { number_of_iterations: 50 },
    );
    for seed in 0..20u64 {
        let mut rng = ChaCha8Rng::seed_from_u64(seed);
        let v = sim.simulation(&RandomPlayer, &mut rng).unwrap();
        assert!(v.len() <= 51);
        check_episode(&v);
    }
}

#[test]
fn left_runner_hits_the_wall() {
    let sim = Simulator::new(
        GameAPIBuilder::default(),
        SimulatorOptions { number_of_iterations: 1000 },
    );
    let mut rng = ChaCha8Rng::seed_from_u64(3);
    let v = sim.simulation(&LeftPlayer, &mut rng).unwrap();
    check_episode(&v);
    assert_eq!(v.last().unwrap().reward, SimulationStepReward::Lost);
    assert!(v.iter().all(|s| s.direction == Direction::Left));
    assert!(v.len() >= 17);
}

#[test]
fn episode_cut_at_the_cap() {
    let sim = Simulator::new(
        GameAPIBuilder::default(),
        SimulatorOptions { number_of_iterations: 3 },
    );
    let mut rng = ChaCha8Rng::seed_from_u64(5);
    let v = sim.simulation(&LeftPlayer, &mut rng).unwrap();
    assert_eq!(v.len(), 4);
    check_episode(&v);
    assert_eq!(v[3].reward, SimulationStepReward::Lost);
    assert_eq!(v[3].snapshot.to_codes(), v[2].next_state.as_ref().unwrap().to_codes());
}

#[test]
fn zero_cap_plays_one_tick() {
    let sim = Simulator::new(
        GameAPIBuilder::default(),
        SimulatorOptions { number_of_iterations: 0 },
    );
    let mut rng = ChaCha8Rng::seed_from_u64(6);
    let v = sim.simulation(&LeftPlayer, &mut rng).unwrap();
    assert!(v.len() <= 2);
    check_episode(&v);
}

#[test]
fn batch_holds_every_episode() {
    let sim = Simulator::new(
        GameAPIBuilder::default(),
        SimulatorOptions { number_of_iterations: 40 },
    );
    let v = sim.run_many(&RandomPlayer, 5, 42).unwrap();
    assert_eq!(v.iter().filter(|s| terminal(s)).count(), 5);
    assert!(terminal(v.last().unwrap()));
    let again = sim.run_many(&RandomPlayer, 5, 42).unwrap();
    assert_eq!(v.len(), again.len());
    assert!(sim.run_many(&RandomPlayer, 0, 42).unwrap().is_empty());
}

fn find(codes: &[i32], code: i32) -> Option<(i32, i32)> {
    codes
        .iter()
        .position(|c| *c == code)
        .map(|i| ((i / 32) as i32, (i % 32) as i32))
}

#[test]
fn rewards_follow_the_outcome() {
    let sim = Simulator::new(
        GameAPIBuilder::default(),
        SimulatorOptions { number_of_iterations: 200 },
    );
    let mut foods = 0;
    let mut good = 0;
    for seed in 0..40u64 {
        let mut rng = ChaCha8Rng::seed_from_u64(seed);
        let v = sim.simulation(&RandomPlayer, &mut rng).unwrap();
        for s in v.iter() {
            let before = s.snapshot.to_codes();
            let after = match &s.next_state {
                Some(n) => n.to_codes(),
                None => continue,
            };
            let head = find(&after, 1).unwrap();
            let apple_before = find(&before, 3).unwrap();
            match s.reward {
                SimulationStepReward::Food => {
                    foods += 1;
                    assert_eq!(head, apple_before);
                }
                SimulationStepReward::Step(b) => {
                    assert_ne!(head, apple_before);
                    let len = after.iter().filter(|c| **c == 1 || **c == 2).count();
                    let apple = find(&after, 3).unwrap();
                    let (dr, dc) = match s.direction {
                        Direction::Left => (0, -1),
                        Direction::Up => (-1, 0),
                        Direction::Right => (0, 1),
                        Direction::Down => (1, 0),
                    };
                    let n = (head.0 + dr, head.1 + dc);
                    let on_grid = n.0 >= 0 && n.0 < 40 && n.1 >= 0 && n.1 < 32;
                    let free = on_grid && {
                        let code = after[(n.0 * 32 + n.1) as usize];
                        code == 0 || code == 3
                    };
                    let l1 = |a: (i32, i32)| (a.0 - apple.0).abs() + (a.1 - apple.1).abs();
                    let expected = len < 10 && free && l1(head) > l1(n);
                    assert_eq!(b, expected);
                    if b {
                        good += 1;
                    }
                }
                _ => unreachable!(),
            }
        }
    }
    assert!(good > 0);
    let _ = foods;
}
