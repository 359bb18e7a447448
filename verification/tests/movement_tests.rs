use std::collections::VecDeque;

use snake_game::cell::{Cell, GRID_SIZE};
use snake_game::direction::Direction;
use snake_game::food::Food;
use snake_game::movement::{discrete_move, MoveSystem, MOVEMENT_PERIOD_MICROS};
use snake_game::snake::Snake;
use snake_game::state::GameState;

fn snake_from(cells: &[(u32, u32)], dirs: &[Direction], heading: Direction) -> Snake {
    let mut body: VecDeque<Cell> = VecDeque::new();
    for &(x, y) in cells {
        body.push_back(Cell { x, y });
    }
    let mut directions: VecDeque<Direction> = VecDeque::new();
    for &d in dirs {
        directions.push_back(d);
    }
    Snake { snake: body, directions, direction: heading }
}

fn body_cells(snake: &Snake) -> Vec<(u32, u32)> {
    snake.snake.iter().map(|c| (c.x, c.y)).collect()
}

#[test]
fn plain_move_drops_tail() {
    let mut snake = Snake::default();
    let mut food = Food::new();
    let mut state = GameState::Playing;
    let ate = discrete_move(&mut snake, &mut food, &mut state);
    assert!(!ate);
    assert_eq!(state, GameState::Playing);
    assert_eq!(body_cells(&snake), vec![(20, 19), (20, 20), (20, 21), (20, 22)]);
    assert_eq!(snake.directions.len(), 4);
    assert_eq!(food.pellets.len(), 4);
}

#[test]
fn eating_retains_tail_and_respawns() {
    let mut snake = Snake::default();
    let mut food = Food::new();
    food.pellets.push(Cell { x: 20, y: 19 });
    let mut state = GameState::Playing;
    let ate = discrete_move(&mut snake, &mut food, &mut state);
    assert!(ate);
    assert_eq!(state, GameState::Playing);
    assert_eq!(
        body_cells(&snake),
        vec![(20, 19), (20, 20), (20, 21), (20, 22), (20, 23)]
    );
    assert_eq!(snake.directions.len(), 5);
    // the eaten pellet is gone and one fresh pellet was spawned in its place
    assert_eq!(food.pellets.len(), 5);
    assert!(!food.pellets.contains(&Cell { x: 20, y: 19 }));
    for pellet in &food.pellets {
        assert!(!snake.snake.contains(pellet));
    }
    for i in 0..food.pellets.len() {
        for j in 0..i {
            assert_ne!(food.pellets[i], food.pellets[j]);
        }
    }
}

#[test]
fn wall_collision_is_terminal() {
    let mut snake = snake_from(
        &[(0, 20), (1, 20)],
        &[Direction::Left, Direction::Left],
        Direction::Left,
    );
    let mut food = Food::new();
    let mut state = GameState::Playing;
    let ate = discrete_move(&mut snake, &mut food, &mut state);
    assert!(!ate);
    assert_eq!(state, GameState::HitWall);
    assert_eq!(body_cells(&snake), vec![(0, 20), (1, 20)]);
    assert_eq!(food.pellets.len(), 4);
}

#[test]
fn top_edge_collision_detected_without_wrap() {
    let mut snake = snake_from(
        &[(20, 0), (20, 1)],
        &[Direction::Up, Direction::Up],
        Direction::Up,
    );
    let mut food = Food::new();
    let mut state = GameState::Playing;
    discrete_move(&mut snake, &mut food, &mut state);
    assert_eq!(state, GameState::HitWall);
    assert_eq!(body_cells(&snake), vec![(20, 0), (20, 1)]);
}

#[test]
fn self_collision_is_terminal() {
    // the head sits on a revisited cell; moving down lands on the second segment
    let mut snake = snake_from(
        &[(5, 5), (5, 6), (5, 5)],
        &[Direction::Up, Direction::Up, Direction::Up],
        Direction::Down,
    );
    let mut food = Food::new();
    let mut state = GameState::Playing;
    let ate = discrete_move(&mut snake, &mut food, &mut state);
    assert!(!ate);
    assert_eq!(state, GameState::HitYourself);
    assert_eq!(body_cells(&snake), vec![(5, 5), (5, 6), (5, 5)]);
}

#[test]
fn no_move_outside_playing_phase() {
    let mut snake = Snake::default();
    let mut food = Food::new();
    let mut state = GameState::HitWall;
    let ate = discrete_move(&mut snake, &mut food, &mut state);
    assert!(!ate);
    assert_eq!(state, GameState::HitWall);
    assert_eq!(body_cells(&snake), vec![(20, 20), (20, 21), (20, 22), (20, 23)]);
}

#[test]
fn length_grows_by_one_per_pellet_eaten() {
    let mut snake = Snake::default();
    let mut food = Food::new();
    food.pellets.push(Cell { x: 20, y: 18 });
    let mut state = GameState::Playing;
    let mut eaten: usize = 0;
    let start_len = snake.snake.len();
    for _ in 0..3 {
        let len_before = snake.snake.len();
        let ate = discrete_move(&mut snake, &mut food, &mut state);
        assert_eq!(state, GameState::Playing);
        if ate {
            eaten += 1;
            assert_eq!(snake.snake.len(), len_before + 1);
        } else {
            assert_eq!(snake.snake.len(), len_before);
        }
        assert!(snake.snake.len() >= len_before);
    }
    assert_eq!(eaten, 1);
    assert_eq!(snake.snake.len(), start_len + eaten);
}

#[test]
fn accumulator_fires_only_past_period() {
    let mut system = MoveSystem::default();
    let mut snake = Snake::default();
    let mut food = Food::new();
    let mut state = GameState::Playing;
    let ate = system.run(&mut snake, &mut food, &mut state, 40_000);
    assert!(!ate);
    assert_eq!(system.time_remainder_micros, 40_000);
    assert_eq!(body_cells(&snake), vec![(20, 20), (20, 21), (20, 22), (20, 23)]);
    system.run(&mut snake, &mut food, &mut state, 20_000);
    assert_eq!(system.time_remainder_micros, 10_000);
    assert_eq!(body_cells(&snake), vec![(20, 19), (20, 20), (20, 21), (20, 22)]);
}

#[test]
fn accumulator_resolves_one_move_per_frame() {
    let mut system = MoveSystem::default();
    let mut snake = Snake::default();
    let mut food = Food::new();
    let mut state = GameState::Playing;
    system.run(&mut snake, &mut food, &mut state, 10 * MOVEMENT_PERIOD_MICROS);
    // far ahead of the period, yet only one discrete move was resolved
    assert_eq!(system.time_remainder_micros, 9 * MOVEMENT_PERIOD_MICROS);
    assert_eq!(body_cells(&snake), vec![(20, 19), (20, 20), (20, 21), (20, 22)]);
}

#[test]
fn accumulator_saturates_instead_of_wrapping() {
    let mut system = MoveSystem::default();
    let mut snake = Snake::default();
    let mut food = Food::new();
    let mut state = GameState::Playing;
    system.run(&mut snake, &mut food, &mut state, u64::MAX);
    assert_eq!(system.time_remainder_micros, u64::MAX - MOVEMENT_PERIOD_MICROS);
    assert_eq!(body_cells(&snake), vec![(20, 19), (20, 20), (20, 21), (20, 22)]);
}

#[test]
fn spawn_lands_on_the_only_free_cell() {
    // cover the whole field with the body except (0, 0), which bears food,
    // and (0, 1): the spawn has exactly one cell to choose
    let mut body: VecDeque<Cell> = VecDeque::new();
    let mut dirs: VecDeque<Direction> = VecDeque::new();
    for x in 0..GRID_SIZE {
        for y in 0..GRID_SIZE {
            if (x, y) != (0, 0) && (x, y) != (0, 1) {
                body.push_back(Cell { x, y });
                dirs.push_back(Direction::Up);
            }
        }
    }
    let snake = Snake { snake: body, directions: dirs, direction: Direction::Up };
    let mut food = Food { pellets: vec![Cell { x: 0, y: 0 }] };
    food.add_random_pellet(&snake);
    assert_eq!(food.pellets.len(), 2);
    assert!(food.pellets.contains(&Cell { x: 0, y: 1 }));
}

#[test]
fn spawn_skipped_on_full_field() {
    let mut body: VecDeque<Cell> = VecDeque::new();
    let mut dirs: VecDeque<Direction> = VecDeque::new();
    for x in 0..GRID_SIZE {
        for y in 0..GRID_SIZE {
            body.push_back(Cell { x, y });
            dirs.push_back(Direction::Up);
        }
    }
    let snake = Snake { snake: body, directions: dirs, direction: Direction::Up };
    let mut food = Food { pellets: Vec::new() };
    food.add_random_pellet(&snake);
    assert!(food.pellets.is_empty());
}

#[test]
fn remove_pellet_removes_only_its_cell() {
    let mut food = Food::new();
    let removed = food.remove_pellet(Cell { x: 5, y: 20 });
    assert!(removed);
    assert_eq!(food.pellets.len(), 3);
    assert!(!food.pellets.contains(&Cell { x: 5, y: 20 }));
    assert!(food.pellets.contains(&Cell { x: 20, y: 5 }));
    let removed_again = food.remove_pellet(Cell { x: 5, y: 20 });
    assert!(!removed_again);
    assert_eq!(food.pellets.len(), 3);
}

#[test]
fn move_system_starts_empty() {
    let system = MoveSystem::default();
    assert_eq!(system.time_remainder_micros, 0);
}
