use vstd::prelude::*;
use crate::cell::Cell;
use crate::direction::{step_cell, step_in_bounds};
use crate::food::{Food, deque_contains, food_clear_of_body, has_free_cell, is_free};
use crate::snake::Snake;
use crate::state::GameState;

verus! {

/// The fixed movement period: one discrete move is resolved each time this
/// much accumulated time has passed.
pub const MOVEMENT_PERIOD_MICROS: u64 = 50000;

/// Per-frame movement step. It carries the accumulated time not yet spent
/// on a discrete move.
pub struct MoveSystem {
    pub time_remainder_micros: u64,
}

impl Default for MoveSystem {
    /// A fresh movement step has no accumulated time.
    fn default() -> (m: MoveSystem)
        ensures
            m.time_remainder_micros == 0,
    {
        MoveSystem { time_remainder_micros: 0 }
    }
}

/// The cell the head would move onto; meaningful only when that step stays
/// on the field.
pub open spec fn candidate(s: Snake) -> Cell {
    step_cell(s.head(), s.direction)
}

/// The next move would leave the field.
pub open spec fn hits_wall(s: Snake) -> bool {
    !step_in_bounds(s.head(), s.direction)
}

/// The next move stays on the field but lands on a body cell.
pub open spec fn hits_body(s: Snake) -> bool {
    step_in_bounds(s.head(), s.direction) && s.snake@.contains(candidate(s))
}

/// The food set after the head has eaten the pellet at `c`: that pellet is
/// gone, every other pellet stays, and one pellet has been spawned on a cell
/// that is empty with respect to the advanced body `new_body`, unless body
/// and food together cover the whole field.
pub open spec fn food_after_eat(pre: Food, post: Food, new_body: Seq<Cell>, c: Cell) -> bool {
    exists|i: int|
        0 <= i < pre.pellets@.len() && pre.pellets@[i] == c && {
            let mid = pre.pellets@.remove(i);
            if has_free_cell(new_body, mid) {
                exists|d: Cell| is_free(new_body, mid, d) && post.pellets@ == mid.push(d)
            } else {
                post.pellets@ == mid
            }
        }
}

/// How one discrete move relates the state before it to the state after it.
///
/// Outside the playing phase nothing happens. A move off the field ends the
/// session with the wall-collision state, a move onto the body with the
/// self-collision state; neither mutates body or food. Otherwise the
/// candidate cell becomes the new head and the tail is dropped — unless the
/// candidate bore a pellet, in which case the tail is kept (the body grows
/// by one, always extending from the head) and the food set is updated as
/// `food_after_eat` says. The per-segment heading log advances in lockstep.
pub open spec fn move_outcome(
    pre_s: Snake,
    pre_f: Food,
    pre_g: GameState,
    post_s: Snake,
    post_f: Food,
    post_g: GameState,
    ate: bool,
) -> bool {
    if !(pre_g is Playing) {
        post_s == pre_s && post_f.pellets@ == pre_f.pellets@ && post_g == pre_g && !ate
    } else if hits_wall(pre_s) {
        post_s == pre_s && post_f.pellets@ == pre_f.pellets@ && post_g is HitWall && !ate
    } else if hits_body(pre_s) {
        post_s == pre_s && post_f.pellets@ == pre_f.pellets@ && post_g is HitYourself && !ate
    } else {
        let c = candidate(pre_s);
        &&& post_g is Playing
        &&& ate == pre_f.pellets@.contains(c)
        &&& post_s.direction == pre_s.direction
        &&& post_s.snake@ == seq![c] + (if ate {
            pre_s.snake@
        } else {
            pre_s.snake@.drop_last()
        })
        &&& post_s.directions@ == seq![pre_s.direction] + (if ate {
            pre_s.directions@
        } else {
            pre_s.directions@.drop_last()
        })
        &&& if ate {
            food_after_eat(pre_f, post_f, post_s.snake@, c)
        } else {
            post_f.pellets@ == pre_f.pellets@
        }
    }
}

/// Resolve one discrete move: advance the head one cell in the current
/// heading, end the session on a wall or body collision, and otherwise eat
/// and grow when the new head cell bears a pellet. Returns whether a pellet
/// was eaten, so that the caller can trigger the eating sound.
pub fn discrete_move(snake: &mut Snake, food: &mut Food, game_state: &mut GameState) -> (ate: bool)
    requires
        old(snake).wf(),
        old(food).wf(),
    ensures
        final(snake).wf(),
        final(food).wf(),
        move_outcome(
            *old(snake),
            *old(food),
            *old(game_state),
            *final(snake),
            *final(food),
            *final(game_state),
            ate,
        ),
        final(snake).snake@.len() == old(snake).snake@.len() + (if ate { 1int } else { 0int }),
        ate ==> !final(food).pellets@.contains(candidate(*old(snake))),
{
    match *game_state {
        GameState::Playing => {},
        _ => {
            return false;
        },
    }
    let head = snake.snake[0];
    let cand_opt = crate::direction::try_step(head, snake.direction);
    match cand_opt {
        None => {
            *game_state = GameState::HitWall;
            false
        },
        Some(c) => {
            if deque_contains(&snake.snake, c) {
                *game_state = GameState::HitYourself;
                false
            } else {
                let ate = food.remove_pellet(c);
                let ghost pre_s = *old(snake);
                snake.snake.push_front(c);
                let d = snake.direction;
                snake.directions.push_front(d);
                if !ate {
                    snake.snake.pop_back();
                    snake.directions.pop_back();
                    proof {
                        assert(snake.snake@ =~= seq![c] + pre_s.snake@.drop_last());
                        assert(snake.directions@ =~= seq![pre_s.direction]
                            + pre_s.directions@.drop_last());
                    }
                } else {
                    let ghost mid = food.pellets@;
                    food.add_random_pellet(snake);
                    proof {
                        let i = choose|i: int|
                            0 <= i < old(food).pellets@.len() && old(food).pellets@[i] == c
                                && mid == old(food).pellets@.remove(i);
                        assert(snake.snake@[0] == c);
                        assert(snake.snake@.contains(c));
                        if has_free_cell(snake.snake@, mid) {
                            let dd = choose|dd: Cell|
                                is_free(snake.snake@, mid, dd) && food.pellets@ == mid.push(dd);
                            assert(dd != c);
                            assert forall|k: int| 0 <= k < food.pellets@.len()
                                implies food.pellets@[k] != c by {
                                if k < mid.len() {
                                    assert(food.pellets@[k] == mid[k]);
                                } else {
                                    assert(food.pellets@[k] == dd);
                                }
                            }
                            if food.pellets@.contains(c) {
                                let k = choose|k: int|
                                    0 <= k < food.pellets@.len() && food.pellets@[k] == c;
                                assert(false);
                            }
                        }
                        assert(food_after_eat(*old(food), *food, snake.snake@, c));
                    }
                }
                ate
            }
        },
    }
}

/// The accumulated time after a frame: the previous remainder plus the
/// frame's elapsed time, clamped to the largest representable value.
pub open spec fn accumulated(prev: u64, delta: u64) -> int {
    if prev + delta <= u64::MAX {
        prev + delta
    } else {
        u64::MAX as int
    }
}

impl MoveSystem {
    /// Per-frame movement step: add the frame's elapsed time to the
    /// accumulator and, once it exceeds the movement period, spend one
    /// period on one discrete move. At most one move is resolved per frame
    /// however far the accumulator has run ahead — a deliberate design
    /// choice, not an unbounded catch-up loop.
    pub fn run(
        &mut self,
        snake: &mut Snake,
        food: &mut Food,
        game_state: &mut GameState,
        delta_micros: u64,
    ) -> (ate: bool)
        requires
            old(snake).wf(),
            old(food).wf(),
        ensures
            final(snake).wf(),
            final(food).wf(),
            ({
                let total = accumulated(old(self).time_remainder_micros, delta_micros);
                if total > MOVEMENT_PERIOD_MICROS {
                    &&& final(self).time_remainder_micros == total - MOVEMENT_PERIOD_MICROS
                    &&& move_outcome(
                        *old(snake),
                        *old(food),
                        *old(game_state),
                        *final(snake),
                        *final(food),
                        *final(game_state),
                        ate,
                    )
                } else {
                    &&& final(self).time_remainder_micros == total
                    &&& *final(snake) == *old(snake)
                    &&& *final(food) == *old(food)
                    &&& *final(game_state) == *old(game_state)
                    &&& !ate
                }
            }),
    {
        let total = if delta_micros <= u64::MAX - self.time_remainder_micros {
            self.time_remainder_micros + delta_micros
        } else {
            u64::MAX
        };
        if total > MOVEMENT_PERIOD_MICROS {
            self.time_remainder_micros = total - MOVEMENT_PERIOD_MICROS;
            discrete_move(snake, food, game_state)
        } else {
            self.time_remainder_micros = total;
            false
        }
    }
}

/// Number of moves in `ates` on which a pellet was eaten.
pub open spec fn count_eaten(ates: Seq<bool>) -> int
    decreases ates.len(),
{
    if ates.len() == 0 {
        0
    } else {
        count_eaten(ates.drop_last()) + if ates.last() {
            1int
        } else {
            0int
        }
    }
}

pub proof fn lemma_count_eaten_bounds(ates: Seq<bool>)
    ensures
        0 <= count_eaten(ates) <= ates.len(),
    decreases ates.len(),
{
    if ates.len() > 0 {
        lemma_count_eaten_bounds(ates.drop_last());
    }
}

/// Law: over any sequence of discrete moves that stays in the playing phase
/// throughout — every candidate cell in bounds and off the body — the body
/// length never decreases, and grows by exactly one per pellet eaten.
///
/// `snakes[i]` and `foods[i]` are the state before move `i`, which ate a
/// pellet exactly when `ates[i]`.
pub proof fn lemma_length_over_moves(snakes: Seq<Snake>, foods: Seq<Food>, ates: Seq<bool>)
    requires
        snakes.len() == ates.len() + 1,
        foods.len() == snakes.len(),
        snakes.first().snake@.len() >= 1,
        forall|i: int|
            0 <= i < ates.len() ==> #[trigger] move_outcome(
                snakes[i],
                foods[i],
                GameState::Playing,
                snakes[i + 1],
                foods[i + 1],
                GameState::Playing,
                ates[i],
            ),
    ensures
        snakes.last().snake@.len() == snakes.first().snake@.len() + count_eaten(ates),
        snakes.last().snake@.len() >= snakes.first().snake@.len(),
    decreases ates.len(),
{
    lemma_count_eaten_bounds(ates);
    if ates.len() > 0 {
        let n = ates.len() as int;
        let head_snakes = snakes.drop_last();
        let head_foods = foods.drop_last();
        let head_ates = ates.drop_last();
        assert forall|i: int| 0 <= i < head_ates.len() implies #[trigger] move_outcome(
            head_snakes[i],
            head_foods[i],
            GameState::Playing,
            head_snakes[i + 1],
            head_foods[i + 1],
            GameState::Playing,
            head_ates[i],
        ) by {
            assert(head_snakes[i] == snakes[i]);
            assert(head_snakes[i + 1] == snakes[i + 1]);
            assert(head_foods[i] == foods[i]);
            assert(head_foods[i + 1] == foods[i + 1]);
            assert(move_outcome(
                snakes[i],
                foods[i],
                GameState::Playing,
                snakes[i + 1],
                foods[i + 1],
                GameState::Playing,
                ates[i],
            ));
        }
        lemma_length_over_moves(head_snakes, head_foods, head_ates);
        lemma_count_eaten_bounds(head_ates);
        let pre = snakes[n - 1];
        let post = snakes[n];
        assert(pre == head_snakes.last());
        assert(pre.snake@.len() >= 1);
        assert(move_outcome(
            snakes[n - 1],
            foods[n - 1],
            GameState::Playing,
            snakes[n],
            foods[n],
            GameState::Playing,
            ates[n - 1],
        ));
        assert(post.snake@.len() == pre.snake@.len() + if ates[n - 1] {
            1int
        } else {
            0int
        });
    }
}

/// Law: after the head eats the pellet at `c` (the new head cell), no
/// pellet sits at `c` any more, every other pellet stays, and — unless the
/// advanced body and the food together cover the whole field — some cell
/// that was neither body nor food now bears a pellet.
pub proof fn lemma_food_consumption(pre_f: Food, post_f: Food, new_body: Seq<Cell>, c: Cell)
    requires
        pre_f.wf(),
        new_body.contains(c),
        food_after_eat(pre_f, post_f, new_body, c),
    ensures
        pre_f.pellets@.contains(c),
        !post_f.pellets@.contains(c),
        forall|d: Cell| d != c && pre_f.pellets@.contains(d) ==> post_f.pellets@.contains(d),
        has_free_cell(new_body, pre_f.pellets@) ==> exists|d: Cell|
            {
                &&& !new_body.contains(d)
                &&& !pre_f.pellets@.contains(d)
                &&& post_f.pellets@.contains(d)
            },
{
    let i = choose|i: int|
        0 <= i < pre_f.pellets@.len() && pre_f.pellets@[i] == c && {
            let mid = pre_f.pellets@.remove(i);
            if has_free_cell(new_body, mid) {
                exists|d: Cell| is_free(new_body, mid, d) && post_f.pellets@ == mid.push(d)
            } else {
                post_f.pellets@ == mid
            }
        };
    let mid = pre_f.pellets@.remove(i);
    assert(pre_f.pellets@.contains(c));
    assert forall|j: int| 0 <= j < i implies pre_f.pellets@[j] != c by {}
    lemma_remove_keeps_others(pre_f.pellets@, i, c);
    assert forall|d: Cell| d != c && pre_f.pellets@.contains(d) implies mid.contains(d) by {}
    if has_free_cell(new_body, mid) {
        let dd = choose|dd: Cell| is_free(new_body, mid, dd) && post_f.pellets@ == mid.push(dd);
        assert(dd != c);
        assert(post_f.pellets@[post_f.pellets@.len() - 1] == dd);
        assert(post_f.pellets@.contains(dd));
        assert(!pre_f.pellets@.contains(dd)) by {
            if pre_f.pellets@.contains(dd) {
                assert(mid.contains(dd));
            }
        }
        assert forall|k: int| 0 <= k < post_f.pellets@.len() implies post_f.pellets@[k] != c by {
            if k < mid.len() {
                assert(post_f.pellets@[k] == mid[k]);
            } else {
                assert(post_f.pellets@[k] == dd);
            }
        }
        if post_f.pellets@.contains(c) {
            let k = choose|k: int| 0 <= k < post_f.pellets@.len() && post_f.pellets@[k] == c;
            assert(false);
        }
        assert forall|d: Cell| d != c && pre_f.pellets@.contains(d)
            implies post_f.pellets@.contains(d) by {
            assert(mid.contains(d));
            let k = choose|k: int| 0 <= k < mid.len() && mid[k] == d;
            assert(post_f.pellets@[k] == d);
        }
    } else {
        assert(post_f.pellets@ == mid);
        if has_free_cell(new_body, pre_f.pellets@) {
            let dd = choose|dd: Cell| is_free(new_body, pre_f.pellets@, dd);
            assert(!mid.contains(dd)) by {
                if mid.contains(dd) {
                    let k = choose|k: int| 0 <= k < mid.len() && mid[k] == dd;
                    if k < i {
                        assert(pre_f.pellets@[k] == dd);
                    } else {
                        assert(pre_f.pellets@[k + 1] == dd);
                    }
                    assert(pre_f.pellets@.contains(dd));
                }
            }
            assert(is_free(new_body, mid, dd));
            assert(false);
        }
    }
}

/// Dropping index `i` (which bears `c`) from a pellet sequence keeps every
/// other pellet: with pellets pairwise distinct, any cell other than `c`
/// that occurs in the sequence still occurs after the removal.
proof fn lemma_remove_keeps_others(s: Seq<Cell>, i: int, c: Cell)
    requires
        0 <= i < s.len(),
        s[i] == c,
    ensures
        forall|d: Cell| d != c && s.contains(d) ==> s.remove(i).contains(d),
        forall|d: Cell| s.remove(i).contains(d) ==> s.contains(d),
{
    let r = s.remove(i);
    assert forall|d: Cell| d != c && s.contains(d) implies r.contains(d) by {
        let k = choose|k: int| 0 <= k < s.len() && s[k] == d;
        assert(k != i);
        if k < i {
            assert(r[k] == d);
        } else {
            assert(r[k - 1] == s[k]);
        }
    }
    assert forall|d: Cell| r.contains(d) implies s.contains(d) by {
        let k = choose|k: int| 0 <= k < r.len() && r[k] == d;
        if k < i {
            assert(s[k] == d);
        } else {
            assert(s[k + 1] == d);
        }
    }
}

/// Law: a discrete move keeps the food set clear of the snake's body — the
/// two never overlap once they start disjoint.
pub proof fn lemma_move_keeps_food_clear(
    pre_s: Snake,
    pre_f: Food,
    pre_g: GameState,
    post_s: Snake,
    post_f: Food,
    post_g: GameState,
    ate: bool,
)
    requires
        pre_s.wf(),
        pre_f.wf(),
        move_outcome(pre_s, pre_f, pre_g, post_s, post_f, post_g, ate),
        food_clear_of_body(pre_s, pre_f),
    ensures
        food_clear_of_body(post_s, post_f),
{
    if pre_g is Playing && !hits_wall(pre_s) && !hits_body(pre_s) {
        let c = candidate(pre_s);
        if !ate {
            assert forall|d: Cell| #[trigger] post_f.pellets@.contains(d)
                implies !post_s.snake@.contains(d) by {
                assert(pre_f.pellets@.contains(d));
                assert(d != c);
                if post_s.snake@.contains(d) {
                    let k = choose|k: int|
                        0 <= k < post_s.snake@.len() && post_s.snake@[k] == d;
                    assert(post_s.snake@[0] == c);
                    assert(k > 0);
                    assert(post_s.snake@[k] == pre_s.snake@.drop_last()[k - 1]);
                    assert(pre_s.snake@[k - 1] == d);
                    assert(pre_s.snake@.contains(d));
                    assert(false);
                }
            }
        } else {
            let i = choose|i: int|
                0 <= i < pre_f.pellets@.len() && pre_f.pellets@[i] == c && {
                    let mid = pre_f.pellets@.remove(i);
                    if has_free_cell(post_s.snake@, mid) {
                        exists|d: Cell|
                            is_free(post_s.snake@, mid, d) && post_f.pellets@ == mid.push(d)
                    } else {
                        post_f.pellets@ == mid
                    }
                };
            let mid = pre_f.pellets@.remove(i);
            lemma_remove_keeps_others(pre_f.pellets@, i, c);
            assert forall|d: Cell| #[trigger] post_f.pellets@.contains(d)
                implies !post_s.snake@.contains(d) by {
                let k = choose|k: int|
                    0 <= k < post_f.pellets@.len() && post_f.pellets@[k] == d;
                if has_free_cell(post_s.snake@, mid) {
                    let dd = choose|dd: Cell|
                        is_free(post_s.snake@, mid, dd) && post_f.pellets@ == mid.push(dd);
                    if k < mid.len() {
                        assert(mid[k] == d);
                        assert(mid.contains(d));
                        assert(pre_f.pellets@.contains(d));
                        lemma_clear_body_step(pre_s, post_s, pre_f, c, d, ate);
                    } else {
                        assert(d == dd);
                    }
                } else {
                    assert(post_f.pellets@ == mid);
                    assert(mid[k] == d);
                    assert(mid.contains(d));
                    assert(pre_f.pellets@.contains(d));
                    lemma_clear_body_step(pre_s, post_s, pre_f, c, d, ate);
                }
            }
        }
    }
}

/// A pellet cell other than the candidate that was clear of the old body is
/// clear of the advanced body as well.
proof fn lemma_clear_body_step(
    pre_s: Snake,
    post_s: Snake,
    pre_f: Food,
    c: Cell,
    d: Cell,
    ate: bool,
)
    requires
        post_s.snake@ == seq![c] + (if ate {
            pre_s.snake@
        } else {
            pre_s.snake@.drop_last()
        }),
        !pre_s.snake@.contains(d),
        d != c,
        pre_s.snake@.len() >= 1,
    ensures
        !post_s.snake@.contains(d),
{
    if post_s.snake@.contains(d) {
        let k = choose|k: int| 0 <= k < post_s.snake@.len() && post_s.snake@[k] == d;
        assert(post_s.snake@[0] == c);
        assert(k > 0);
        if ate {
            assert(post_s.snake@[k] == pre_s.snake@[k - 1]);
        } else {
            assert(post_s.snake@[k] == pre_s.snake@.drop_last()[k - 1]);
            assert(pre_s.snake@[k - 1] == d);
        }
        assert(pre_s.snake@.contains(d));
        assert(false);
    }
}

} // verus!
