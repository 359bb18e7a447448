use std::collections::VecDeque;

use snake_game::cell::Cell;
use snake_game::direction::{Direction, DirectionChangeSystem};
use snake_game::snake::Snake;
use snake_game::state::GameState;

fn two_cell_snake(head: (u32, u32), second: (u32, u32), heading: Direction) -> Snake {
    let mut body: VecDeque<Cell> = VecDeque::new();
    body.push_back(Cell { x: head.0, y: head.1 });
    body.push_back(Cell { x: second.0, y: second.1 });
    let mut dirs: VecDeque<Direction> = VecDeque::new();
    dirs.push_back(heading);
    dirs.push_back(heading);
    Snake { snake: body, directions: dirs, direction: heading }
}

#[test]
fn lone_key_is_adopted() {
    let mut snake = Snake::default();
    let mut system = DirectionChangeSystem {};
    system.run(&mut snake, &GameState::Playing, false, false, true, false);
    assert_eq!(snake.direction, Direction::Left);
}

#[test]
fn reversal_is_not_adopted() {
    // heading up with the second segment right below the head: down would
    // reverse straight into it
    let mut snake = Snake::default();
    let mut system = DirectionChangeSystem {};
    system.run(&mut snake, &GameState::Playing, false, true, false, false);
    assert_eq!(snake.direction, Direction::Up);
}

#[test]
fn last_applied_key_wins() {
    let mut snake = Snake::default();
    let mut system = DirectionChangeSystem {};
    // up and left are both held and both allowed; left is applied later
    system.run(&mut snake, &GameState::Playing, true, false, true, false);
    assert_eq!(snake.direction, Direction::Left);
}

#[test]
fn no_change_outside_playing_phase() {
    let mut snake = Snake::default();
    let mut system = DirectionChangeSystem {};
    system.run(&mut snake, &GameState::HitWall, false, false, true, false);
    assert_eq!(snake.direction, Direction::Up);
}

#[test]
fn key_toward_the_edge_is_adopted() {
    // the head sits on the top edge: up moves off the field, which is not a
    // reversal into the second cell, so the heading is adopted
    let mut snake = two_cell_snake((20, 0), (19, 0), Direction::Right);
    let mut system = DirectionChangeSystem {};
    system.run(&mut snake, &GameState::Playing, true, false, false, false);
    assert_eq!(snake.direction, Direction::Up);
}

#[test]
fn body_is_untouched_by_direction_change() {
    let mut snake = Snake::default();
    let mut system = DirectionChangeSystem {};
    system.run(&mut snake, &GameState::Playing, true, true, true, true);
    let cells: Vec<(u32, u32)> = snake.snake.iter().map(|c| (c.x, c.y)).collect();
    assert_eq!(cells, vec![(20, 20), (20, 21), (20, 22), (20, 23)]);
    assert_eq!(snake.directions.len(), 4);
}
