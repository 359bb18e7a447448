use vstd::prelude::*;
use std::collections::VecDeque;
use crate::cell::Cell;
use crate::direction::Direction;
use crate::food::{Food, vec_contains};
use crate::snake::Snake;

verus! {

/// Index of the first occurrence of `c` in `s`; meaningful only when `s`
/// holds `c`.
pub open spec fn first_index_of(s: Seq<Cell>, c: Cell) -> int
    decreases s.len(),
{
    if s.len() == 0 {
        0
    } else if s[0] == c {
        0
    } else {
        1 + first_index_of(s.drop_first(), c)
    }
}

/// When `s` holds `c`, its first occurrence is a real index bearing `c`,
/// with no occurrence before it.
pub proof fn lemma_first_index_of(s: Seq<Cell>, c: Cell)
    requires
        s.contains(c),
    ensures
        0 <= first_index_of(s, c) < s.len(),
        s[first_index_of(s, c)] == c,
        forall|j: int| 0 <= j < first_index_of(s, c) ==> s[j] != c,
    decreases s.len(),
{
    if s[0] == c {
    } else {
        let k = choose|k: int| 0 <= k < s.len() && s[k] == c;
        assert(s.drop_first()[k - 1] == c);
        assert(s.drop_first().contains(c));
        lemma_first_index_of(s.drop_first(), c);
        assert forall|j: int| 0 <= j < first_index_of(s, c) implies s[j] != c by {
            if j > 0 {
                assert(s.drop_first()[j - 1] == s[j]);
            }
        }
    }
}

/// Sprite for the tail segment, picked by the heading recorded at the
/// segment before it.
pub open spec fn spec_tail_sprite(d: Direction) -> usize {
    match d {
        Direction::Up => 12,
        Direction::Down => 13,
        Direction::Left => 14,
        Direction::Right => 15,
    }
}

/// Sprite for the head, picked by the heading it travelled.
pub open spec fn spec_head_sprite(d: Direction) -> usize {
    match d {
        Direction::Down => 8,
        Direction::Up => 9,
        Direction::Right => 10,
        Direction::Left => 11,
    }
}

/// Sprite for an inner body segment, picked by the heading into it (recorded
/// at the previous segment) and the heading it travelled: the two straights,
/// the four corners, and a fallback for pairs no segment chain produces.
pub open spec fn spec_body_sprite(incoming: Direction, outgoing: Direction) -> usize {
    match (incoming, outgoing) {
        (Direction::Down, Direction::Down) | (Direction::Up, Direction::Up) => 3,
        (Direction::Right, Direction::Right) | (Direction::Left, Direction::Left) => 2,
        (Direction::Left, Direction::Down) | (Direction::Up, Direction::Right) => 6,
        (Direction::Left, Direction::Up) | (Direction::Down, Direction::Right) => 7,
        (Direction::Right, Direction::Up) | (Direction::Down, Direction::Left) => 4,
        (Direction::Right, Direction::Down) | (Direction::Up, Direction::Left) => 5,
        _ => 1,
    }
}

#[verifier::when_used_as_spec(spec_tail_sprite)]
pub fn tail_sprite(d: Direction) -> (r: usize)
    ensures
        r == spec_tail_sprite(d),
{
    match d {
        Direction::Up => 12,
        Direction::Down => 13,
        Direction::Left => 14,
        Direction::Right => 15,
    }
}

#[verifier::when_used_as_spec(spec_head_sprite)]
pub fn head_sprite(d: Direction) -> (r: usize)
    ensures
        r == spec_head_sprite(d),
{
    match d {
        Direction::Down => 8,
        Direction::Up => 9,
        Direction::Right => 10,
        Direction::Left => 11,
    }
}

#[verifier::when_used_as_spec(spec_body_sprite)]
pub fn body_sprite(incoming: Direction, outgoing: Direction) -> (r: usize)
    ensures
        r == spec_body_sprite(incoming, outgoing),
{
    match (incoming, outgoing) {
        (Direction::Down, Direction::Down) | (Direction::Up, Direction::Up) => 3,
        (Direction::Right, Direction::Right) | (Direction::Left, Direction::Left) => 2,
        (Direction::Left, Direction::Down) | (Direction::Up, Direction::Right) => 6,
        (Direction::Left, Direction::Up) | (Direction::Down, Direction::Right) => 7,
        (Direction::Right, Direction::Up) | (Direction::Down, Direction::Left) => 4,
        (Direction::Right, Direction::Down) | (Direction::Up, Direction::Left) => 5,
        _ => 1,
    }
}

/// The optional sprite for cell `(x, y)` on layer `z`. Layer 0 is always the
/// background tile. On layer 1, a cell under the snake draws — by its first
/// occurrence in the body — the tail sprite, the head sprite, or an inner
/// segment sprite; a food cell draws the food sprite; an empty cell nothing.
pub open spec fn spec_sprite(s: Snake, f: Food, x: u32, y: u32, z: u32) -> Option<usize> {
    if z == 0 {
        Some(0)
    } else {
        let c = Cell { x, y };
        if s.snake@.contains(c) {
            let p = first_index_of(s.snake@, c);
            if p == s.snake@.len() - 1 {
                Some(spec_tail_sprite(s.directions@[p - 1]))
            } else if p == 0 {
                Some(spec_head_sprite(s.directions@[0]))
            } else {
                Some(spec_body_sprite(s.directions@[p - 1], s.directions@[p]))
            }
        } else if f.pellets@.contains(c) {
            Some(1)
        } else {
            None
        }
    }
}

/// Index of the first body segment sitting at `c`, if any.
fn find_first(v: &VecDeque<Cell>, c: Cell) -> (r: Option<usize>)
    ensures
        r matches Some(i) ==> {
            &&& i < v@.len()
            &&& v@[i as int] == c
            &&& forall|j: int| 0 <= j < i ==> v@[j] != c
        },
        r is None ==> !v@.contains(c),
{
    let mut i: usize = 0;
    while i < v.len()
        invariant
            i <= v@.len(),
            forall|j: int| 0 <= j < i ==> v@[j] != c,
        decreases v@.len() - i,
    {
        if v[i] == c {
            return Some(i);
        }
        i += 1;
    }
    None
}

/// Selects the sprite drawn on each cell of the tile map, as a pure function
/// of the current snake and food state.
#[derive(Default, Clone)]
pub struct SnakeGameTile;

impl SnakeGameTile {
    /// The sprite for cell `(x, y)` on layer `z`, as `spec_sprite` says.
    pub fn sprite(&self, snake: &Snake, food: &Food, x: u32, y: u32, z: u32) -> (r: Option<
        usize,
    >)
        requires
            snake.wf(),
            snake.snake@.len() >= 2,
        ensures
            r == spec_sprite(*snake, *food, x, y, z),
    {
        if z == 0 {
            return Some(0);
        }
        let c = Cell { x, y };
        match find_first(&snake.snake, c) {
            Some(p) => {
                proof {
                    assert(snake.snake@.contains(c));
                    lemma_first_index_of(snake.snake@, c);
                    let fi = first_index_of(snake.snake@, c);
                    assert(fi == p);
                }
                if p == snake.snake.len() - 1 {
                    Some(tail_sprite(snake.directions[p - 1]))
                } else if p == 0 {
                    Some(head_sprite(snake.directions[0]))
                } else {
                    Some(body_sprite(snake.directions[p - 1], snake.directions[p]))
                }
            },
            None => {
                if vec_contains(&food.pellets, c) {
                    Some(1)
                } else {
                    None
                }
            },
        }
    }
}

} // verus!
