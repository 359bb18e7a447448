use vstd::prelude::*;
use std::collections::VecDeque;
use crate::cell::{Cell, in_bounds};
use crate::direction::Direction;

verus! {

/// The snake: its body cells, head first and tail last, the heading each
/// segment was travelling in when it was the head, and the current heading.
pub struct Snake {
    pub snake: VecDeque<Cell>,
    pub directions: VecDeque<Direction>,
    pub direction: Direction,
}

impl Snake {
    /// Well-formedness: the body is never empty, every body cell lies on the
    /// field, and the per-segment heading log moves in lockstep with the body.
    pub open spec fn wf(self) -> bool {
        &&& self.snake@.len() >= 1
        &&& self.directions@.len() == self.snake@.len()
        &&& forall|i: int| 0 <= i < self.snake@.len() ==> in_bounds(#[trigger] self.snake@[i])
    }

    /// The head cell.
    pub open spec fn head(self) -> Cell {
        self.snake@[0]
    }
}

impl Default for Snake {
    /// The starting snake: four segments in a vertical line, heading up.
    fn default() -> (s: Snake)
        ensures
            s.wf(),
            s.snake@ == seq![
                Cell { x: 20, y: 20 },
                Cell { x: 20, y: 21 },
                Cell { x: 20, y: 22 },
                Cell { x: 20, y: 23 },
            ],
            s.directions@ == seq![
                Direction::Up,
                Direction::Up,
                Direction::Up,
                Direction::Up,
            ],
            s.direction is Up,
    {
        let mut snake: VecDeque<Cell> = VecDeque::new();
        snake.push_back(Cell { x: 20, y: 20 });
        snake.push_back(Cell { x: 20, y: 21 });
        snake.push_back(Cell { x: 20, y: 22 });
        snake.push_back(Cell { x: 20, y: 23 });

        let mut directions: VecDeque<Direction> = VecDeque::new();
        directions.push_back(Direction::Up);
        directions.push_back(Direction::Up);
        directions.push_back(Direction::Up);
        directions.push_back(Direction::Up);

        proof {
            assert(snake@ =~= seq![
                Cell { x: 20, y: 20 },
                Cell { x: 20, y: 21 },
                Cell { x: 20, y: 22 },
                Cell { x: 20, y: 23 },
            ]);
            assert(directions@ =~= seq![
                Direction::Up,
                Direction::Up,
                Direction::Up,
                Direction::Up,
            ]);
        }
        Snake { snake, directions, direction: Direction::Up }
    }
}

} // verus!
