use vstd::prelude::*;
use crate::cell::{Cell, GRID_SIZE};
use crate::snake::Snake;
use crate::state::GameState;

verus! {

/// Direction of travel of the snake's head.
#[derive(Clone, Copy, PartialEq, Eq, Structural, Debug)]
pub enum Direction {
    Up,
    Down,
    Left,
    Right,
}

/// X coordinate of the cell one step from `c` in direction `d`, as a
/// mathematical integer, so that a step off the low edge shows up as `-1`
/// rather than wrapping.
pub open spec fn step_x(c: Cell, d: Direction) -> int {
    match d {
        Direction::Left => c.x - 1,
        Direction::Right => c.x + 1,
        Direction::Up | Direction::Down => c.x as int,
    }
}

/// Y coordinate of the cell one step from `c` in direction `d`. The Y axis
/// grows downward: `Up` decreases it.
pub open spec fn step_y(c: Cell, d: Direction) -> int {
    match d {
        Direction::Up => c.y - 1,
        Direction::Down => c.y + 1,
        Direction::Left | Direction::Right => c.y as int,
    }
}

/// The cell one step from `c` in direction `d` still lies on the field.
pub open spec fn step_in_bounds(c: Cell, d: Direction) -> bool {
    &&& 0 <= step_x(c, d) < GRID_SIZE
    &&& 0 <= step_y(c, d) < GRID_SIZE
}

/// The cell one step from `c` in direction `d`; meaningful only when the
/// step stays on the field.
pub open spec fn step_cell(c: Cell, d: Direction) -> Cell {
    Cell { x: step_x(c, d) as u32, y: step_y(c, d) as u32 }
}

/// Compute the cell one step from `c` in direction `d`, or `None` when that
/// step would leave the field (including a step below zero, which must not
/// silently wrap).
pub fn try_step(c: Cell, d: Direction) -> (r: Option<Cell>)
    requires
        crate::cell::in_bounds(c),
    ensures
        r is Some <==> step_in_bounds(c, d),
        r matches Some(n) ==> n == step_cell(c, d),
{
    match d {
        Direction::Up => {
            if c.y == 0 {
                None
            } else {
                Some(Cell { x: c.x, y: c.y - 1 })
            }
        },
        Direction::Down => {
            if c.y + 1 >= GRID_SIZE {
                None
            } else {
                Some(Cell { x: c.x, y: c.y + 1 })
            }
        },
        Direction::Left => {
            if c.x == 0 {
                None
            } else {
                Some(Cell { x: c.x - 1, y: c.y })
            }
        },
        Direction::Right => {
            if c.x + 1 >= GRID_SIZE {
                None
            } else {
                Some(Cell { x: c.x + 1, y: c.y })
            }
        },
    }
}

/// Adopting heading `h` would move the head straight onto the second body
/// cell — an instant reversal into oneself.
pub open spec fn reverses(s: Snake, h: Direction) -> bool {
    step_x(s.head(), h) == s.snake@[1].x && step_y(s.head(), h) == s.snake@[1].y
}

/// The heading after one direction-change step: outside the playing phase
/// nothing changes; otherwise each held key is tried in the fixed priority
/// order up, down, left, right, a key is adopted only when it is no instant
/// reversal, and the last one applied wins.
pub open spec fn chosen_direction(
    s: Snake,
    g: GameState,
    up_held: bool,
    down_held: bool,
    left_held: bool,
    right_held: bool,
) -> Direction {
    if !(g is Playing) {
        s.direction
    } else {
        let after_up = if up_held && !reverses(s, Direction::Up) {
            Direction::Up
        } else {
            s.direction
        };
        let after_down = if down_held && !reverses(s, Direction::Down) {
            Direction::Down
        } else {
            after_up
        };
        let after_left = if left_held && !reverses(s, Direction::Left) {
            Direction::Left
        } else {
            after_down
        };
        if right_held && !reverses(s, Direction::Right) {
            Direction::Right
        } else {
            after_left
        }
    }
}

/// Per-frame direction-change step: reads which directional keys are held
/// and updates the snake's heading without moving the body.
pub struct DirectionChangeSystem {}

impl DirectionChangeSystem {
    /// Adopt the held keys' headings in priority order, skipping any that
    /// would reverse straight into the second body cell. Only the heading is
    /// mutated; body and heading log stay as they are.
    pub fn run(
        &mut self,
        snake: &mut Snake,
        game_state: &GameState,
        up_held: bool,
        down_held: bool,
        left_held: bool,
        right_held: bool,
    )
        requires
            old(snake).wf(),
            old(snake).snake@.len() >= 2,
        ensures
            final(snake).snake == old(snake).snake,
            final(snake).directions == old(snake).directions,
            final(snake).direction == chosen_direction(
                *old(snake),
                *game_state,
                up_held,
                down_held,
                left_held,
                right_held,
            ),
    {
        match *game_state {
            GameState::Playing => {},
            _ => {
                return;
            },
        }
        let head = snake.snake[0];
        let second = snake.snake[1];
        if up_held && !(head.x == second.x && head.y > 0 && head.y - 1 == second.y) {
            snake.direction = Direction::Up;
        }
        if down_held && !(head.x == second.x && head.y + 1 == second.y) {
            snake.direction = Direction::Down;
        }
        if left_held && !(head.y == second.y && head.x > 0 && head.x - 1 == second.x) {
            snake.direction = Direction::Left;
        }
        if right_held && !(head.y == second.y && head.x + 1 == second.x) {
            snake.direction = Direction::Right;
        }
    }
}

/// Law: while playing, a lone held directional key whose heading would not
/// move the head onto the second body cell is always adopted.
pub proof fn lemma_lone_key_adopted(s: Snake, h: Direction)
    requires
        !reverses(s, h),
    ensures
        chosen_direction(s, GameState::Playing, h is Up, h is Down, h is Left, h is Right) == h,
{
}

/// Law: the direction-change step never adopts a heading that would move
/// the head onto the current second body cell, as long as the heading it
/// starts from does not already do so.
pub proof fn lemma_no_instant_reversal(
    s: Snake,
    g: GameState,
    up_held: bool,
    down_held: bool,
    left_held: bool,
    right_held: bool,
)
    requires
        !reverses(s, s.direction),
    ensures
        !reverses(s, chosen_direction(s, g, up_held, down_held, left_held, right_held)),
{
}

} // verus!
