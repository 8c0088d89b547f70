use rand::SeedableRng;
use rand_chacha::ChaCha8Rng;
use snake_api_lib::api::{far_cell, GameAPI, GameAPIBuilder, GameOptions, Speed, StepResult, FAR_CELLS};
use snake_api_lib::common::{Cell, Coord, Direction, SnakeError, GRID_AREA, GRID_Y};
use Direction::{Down, Left, Right, Up};

fn rng(seed: u64) -> ChaCha8Rng {
    ChaCha8Rng::seed_from_u64(seed)
}

fn occupied_count(game: &GameAPI) -> usize {
    game.snake.get_elements().iter().filter(|b| **b).count()
}

/// Moves that take a snake from the center through every other cell of the
/// grid, ending on the one cell left.
fn covering_moves() -> Vec<Direction> {
    let mut v = Vec::new();
    v.extend(std::iter::repeat(Left).take(16));
    v.extend(std::iter::repeat(Down).take(19));
    for col in 1..32 {
        v.push(Right);
        v.extend(std::iter::repeat(if col % 2 == 1 { Up } else { Down }).take(18));
    }
    v.push(Up);
    v.extend(std::iter::repeat(Left).take(14));
    v.push(Up);
    v.extend(std::iter::repeat(Left).take(17));
    v.extend(std::iter::repeat(Up).take(19));
    for col in 1..32 {
        v.push(Right);
        v.extend(std::iter::repeat(if col % 2 == 1 { Down } else { Up }).take(18));
    }
    v.push(Down);
    v.extend(std::iter::repeat(Left).take(13));
    v
}

#[test]
fn new_game_apple_is_away_from_the_center() {
    for seed in 0..300u64 {
        let game = GameAPI::new(&mut rng(seed), None);
        assert!(Coord::middle().l0(game.apples) > 1);
        assert_eq!(game.get_pos(game.apples), Some(Cell::Apple));
        assert_eq!(game.steps, 0);
        assert_eq!(game.score, 0);
        assert_eq!(game.num_of_apples, 0);
        assert_eq!(game.mode, Speed::Slow);
        assert_eq!(game.game_options.time_speed_del(), (GRID_AREA / 5) as u128);
    }
}

#[test]
fn new_game_snake_holds_only_the_center() {
    let game = GameAPIBuilder::default().build(&mut rng(7));
    assert_eq!(game.snake.head, Coord { row: 20, col: 16 });
    assert_eq!(game.snake.direction, Direction::Left);
    assert_eq!(occupied_count(&game), 1);
    assert_eq!(game.get_pos(Coord::middle()), Some(Cell::Snake));
    assert_eq!(game.get_pos(Coord { row: -1, col: 0 }), None);
}

#[test]
fn builder_keeps_chosen_options() {
    let game = GameAPIBuilder::default()
        .with_selected_game_options(GameOptions::new(3))
        .build(&mut rng(1));
    assert_eq!(game.game_options.time_speed_del(), 3);
}

#[test]
fn one_tick_left_without_food() {
    let mut game = GameAPI::new(&mut rng(3), None);
    game.apples = Coord { row: 4, col: 4 };
    let r = game.next(&mut rng(4));
    assert_eq!(r, Ok(StepResult::Base));
    assert_eq!(game.snake.head, Coord { row: 20, col: 15 });
    assert_eq!(game.snake.tail, Coord { row: 20, col: 15 });
    assert_eq!(game.steps, 1);
    assert_eq!(game.score, 0);
    assert_eq!(game.num_of_apples, 0);
    assert_eq!(game.apples, Coord { row: 4, col: 4 });
    assert_eq!(occupied_count(&game), 1);
}

#[test]
fn eating_moves_the_apple_and_scores() {
    let mut game = GameAPI::new(&mut rng(5), None);
    game.apples = Coord { row: 20, col: 15 };
    let r = game.next(&mut rng(6));
    assert_eq!(r, Ok(StepResult::Base));
    assert_eq!(game.num_of_apples, 1);
    assert_eq!(game.score, 10);
    assert_eq!(game.steps, 1);
    assert_ne!(game.apples, Coord { row: 20, col: 15 });
    assert_eq!(game.snake.check_cell(game.apples), Some(false));
    assert_eq!(game.snake.head, Coord { row: 20, col: 15 });
    assert_eq!(game.snake.tail, Coord { row: 20, col: 16 });
    assert_eq!(game.snake.size, 2);
    assert_eq!(occupied_count(&game), 2);
}

#[test]
fn win_when_board_fills() {
    let mut r = rng(11);
    let mut game = GameAPI::new(&mut r, None);
    let moves = covering_moves();
    assert_eq!(moves.len(), GRID_AREA - 1);
    let last = moves.len() - 1;
    for (k, d) in moves.iter().enumerate() {
        game.update_direction(*d);
        game.apples = game.snake.head.add_dir(*d);
        let res = game.next(&mut r).unwrap();
        if k < last {
            assert_eq!(res, StepResult::Base);
        } else {
            assert_eq!(res, StepResult::Win { num_steps: last });
        }
    }
    assert_eq!(game.snake.size, GRID_AREA);
    assert_eq!(occupied_count(&game), GRID_AREA);
    assert_eq!(game.num_of_apples, GRID_AREA as u128 - 1);
    assert_eq!(game.snake.get_free_spot(&mut r), None);
}

#[test]
fn lost_off_the_grid_reports_the_tier() {
    let mut game = GameAPI::new(&mut rng(8), None);
    game.apples = Coord { row: 39, col: 0 };
    game.update_direction(Direction::Up);
    for _ in 0..20 {
        assert_eq!(game.next(&mut rng(9)), Ok(StepResult::Base));
    }
    assert_eq!(game.snake.head, Coord { row: 0, col: 16 });
    assert!(!game.snake.is_next_valid());
    let r = game.next(&mut rng(10));
    assert_eq!(
        r,
        Ok(StepResult::Lost {
            num_steps: 20,
            number_of_fruits: 0,
            snake_size: 1,
            level_reached: Speed::Slow,
        })
    );
}

#[test]
fn lost_changes_nothing_however_often() {
    let mut game = GameAPI::new(&mut rng(12), None);
    game.apples = Coord { row: 20, col: 15 };
    game.next(&mut rng(13)).unwrap();
    game.apples = Coord { row: 39, col: 31 };
    game.update_direction(Direction::Right);
    let before = game.snake.get_elements();
    let (steps, score, apples) = (game.steps, game.score, game.num_of_apples);
    for _ in 0..3 {
        let r = game.next(&mut rng(14));
        assert!(matches!(r, Ok(StepResult::Lost { snake_size: 2, .. })));
        assert_eq!(game.steps, steps);
        assert_eq!(game.score, score);
        assert_eq!(game.num_of_apples, apples);
        assert_eq!(game.snake.get_elements(), before);
    }
}

#[test]
fn counter_overflow_is_refused() {
    let mut game = GameAPI::new(&mut rng(15), None);
    game.apples = Coord { row: 4, col: 4 };
    game.steps = u128::MAX;
    assert_eq!(game.next(&mut rng(16)), Err(SnakeError::Overflow));
    assert_eq!(game.snake.head, Coord::middle());
    game.steps = 0;
    game.apples = Coord { row: 20, col: 15 };
    game.score = u128::MAX - 5;
    assert_eq!(game.next(&mut rng(16)), Err(SnakeError::Overflow));
    game.score = u128::MAX - 10;
    assert_eq!(game.next(&mut rng(16)), Ok(StepResult::Base));
    assert_eq!(game.score, u128::MAX);
}

#[test]
fn score_decays_every_interval() {
    let mut game = GameAPI::new(&mut rng(17), Some(GameOptions::new(2)));
    game.apples = Coord { row: 20, col: 15 };
    assert_eq!(game.next(&mut rng(18)), Ok(StepResult::Base));
    assert_eq!(game.score, 10);
    game.apples = Coord { row: 39, col: 31 };
    game.update_direction(Direction::Up);
    assert_eq!(game.next(&mut rng(18)), Ok(StepResult::Base));
    assert_eq!(game.score, 9);
    assert_eq!(game.next(&mut rng(18)), Ok(StepResult::Base));
    assert_eq!(game.score, 9);
    assert_eq!(game.next(&mut rng(18)), Ok(StepResult::Base));
    assert_eq!(game.score, 8);
}

#[test]
fn no_decay_with_zero_interval() {
    let mut game = GameAPI::new(&mut rng(19), Some(GameOptions::new(0)));
    game.apples = Coord { row: 20, col: 15 };
    game.next(&mut rng(18)).unwrap();
    game.apples = Coord { row: 39, col: 31 };
    game.update_direction(Direction::Up);
    for _ in 0..5 {
        game.next(&mut rng(18)).unwrap();
    }
    assert_eq!(game.score, 10);
}

#[test]
fn speed_tiers() {
    assert_eq!(Speed::for_length(1), Speed::Slow);
    assert_eq!(Speed::for_length(255), Speed::Slow);
    assert_eq!(Speed::for_length(256), Speed::Medium);
    assert_eq!(Speed::for_length(511), Speed::Medium);
    assert_eq!(Speed::for_length(512), Speed::Hard);
    assert_eq!(Speed::for_length(768), Speed::VeryHard);
    assert_eq!(Speed::for_length(1024), Speed::GodMode);
    assert_eq!(Speed::for_length(1280), Speed::GodMode);
    assert_eq!(Speed::Slow.to_score(), 10);
    assert_eq!(Speed::Medium.to_score(), 20);
    assert_eq!(Speed::Hard.to_score(), 50);
    assert_eq!(Speed::VeryHard.to_score(), 100);
    assert_eq!(Speed::GodMode.to_score(), 150);
    assert_eq!(Speed::VeryHard.label(), "Very Hard");
    assert_eq!(Speed::Slow.label(), "Easy");
    assert_eq!(Speed::default(), Speed::Slow);
}

#[test]
fn snapshot_codes_of_head_body_and_apple() {
    let mut game = GameAPI::new(&mut rng(20), None);
    game.apples = Coord { row: 20, col: 15 };
    game.next(&mut rng(21)).unwrap();
    game.apples = Coord { row: 2, col: 3 };
    let codes = game.to_game_repr().to_codes();
    assert_eq!(codes.len(), GRID_AREA);
    for (i, code) in codes.iter().enumerate() {
        let expected = if i == (Coord { row: 20, col: 15 }).into_index() {
            1
        } else if i == (Coord { row: 20, col: 16 }).into_index() {
            2
        } else if i == 2 * GRID_Y + 3 {
            3
        } else {
            0
        };
        assert_eq!(*code, expected);
    }
}

#[test]
fn cell_characters_of_a_game() {
    let mut game = GameAPI::new(&mut rng(22), None);
    game.apples = Coord { row: 20, col: 15 };
    game.next(&mut rng(23)).unwrap();
    game.update_direction(Up);
    game.apples = Coord { row: 19, col: 15 };
    game.next(&mut rng(24)).unwrap();
    game.apples = Coord { row: 0, col: 0 };
    let chars = game.char_grid();
    assert_eq!(chars.len(), GRID_AREA);
    let mut counts = [0usize; 5];
    for (i, ch) in chars.iter().enumerate() {
        let c = Coord::from_index(i);
        match ch {
            'H' => {
                counts[0] += 1;
                assert_eq!(c, Coord { row: 19, col: 15 });
            }
            'T' => {
                counts[1] += 1;
                assert_eq!(c, Coord { row: 20, col: 16 });
            }
            'A' => {
                counts[2] += 1;
                assert_eq!(c, Coord { row: 0, col: 0 });
            }
            'S' => {
                counts[3] += 1;
                assert_eq!(c, Coord { row: 20, col: 15 });
            }
            '*' => counts[4] += 1,
            _ => panic!("unexpected character"),
        }
    }
    assert_eq!(counts, [1, 1, 1, 1, GRID_AREA - 4]);
}

#[test]
fn far_cells_cover_every_admissible_cell_once() {

    assert_eq!(FAR_CELLS, 1271);
    let mut seen = vec![false; GRID_AREA];
    for k in 0..FAR_CELLS {
        let c = far_cell(k);
        assert!(Coord::middle().l0(c) > 1);
        let i = c.into_index();
        assert!(!seen[i]);
        seen[i] = true;
    }
    assert_eq!(seen.iter().filter(|b| !**b).count(), 9);
    assert_eq!(far_cell(0), Coord { row: 0, col: 0 });
    assert_eq!(far_cell(1270), Coord { row: 39, col: 31 });
}
