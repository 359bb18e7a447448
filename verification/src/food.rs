use vstd::prelude::*;
use std::collections::VecDeque;
use crate::cell::{Cell, GRID_SIZE, in_bounds};
use crate::snake::Snake;

verus! {

/// The set of cells currently bearing a food pellet, kept as a vector of
/// pairwise-distinct cells.
pub struct Food {
    pub pellets: Vec<Cell>,
}

/// `c` is an empty field cell: on the field, not under the snake's body and
/// not already bearing food.
pub open spec fn is_free(body: Seq<Cell>, pellets: Seq<Cell>, c: Cell) -> bool {
    &&& in_bounds(c)
    &&& !body.contains(c)
    &&& !pellets.contains(c)
}

/// The body and the food together leave at least one field cell empty.
pub open spec fn has_free_cell(body: Seq<Cell>, pellets: Seq<Cell>) -> bool {
    exists|c: Cell| is_free(body, pellets, c)
}

/// Every pellet lies on a cell the body does not occupy.
pub open spec fn food_clear_of_body(s: Snake, f: Food) -> bool {
    forall|c: Cell| #[trigger] f.pellets@.contains(c) ==> !s.snake@.contains(c)
}

/// Whether a deque of cells holds `c`.
pub fn deque_contains(v: &VecDeque<Cell>, c: Cell) -> (b: bool)
    ensures
        b == v@.contains(c),
{
    let mut i: usize = 0;
    while i < v.len()
        invariant
            i <= v@.len(),
            forall|j: int| 0 <= j < i ==> v@[j] != c,
        decreases v@.len() - i,
    {
        if v[i] == c {
            return true;
        }
        i += 1;
    }
    false
}

/// Whether a vector of cells holds `c`.
pub fn vec_contains(v: &Vec<Cell>, c: Cell) -> (b: bool)
    ensures
        b == v@.contains(c),
{
    let mut i: usize = 0;
    while i < v.len()
        invariant
            i <= v@.len(),
            forall|j: int| 0 <= j < i ==> v@[j] != c,
        decreases v@.len() - i,
    {
        if v[i] == c {
            return true;
        }
        i += 1;
    }
    false
}

/// Relies on rand::random_range over `0..n`: the result is drawn from that
/// half-open range, and the call panics only on an empty range, which
/// `n >= 1` rules out.
#[verifier::external_body]
fn random_below(n: u32) -> (r: u32)
    requires
        1 <= n,
    ensures
        r < n,
{
    rand::random_range(0..n)
}

impl Food {
    /// Well-formedness: every pellet lies on the field and no cell bears two
    /// pellets.
    pub open spec fn wf(self) -> bool {
        &&& forall|i: int| 0 <= i < self.pellets@.len() ==> in_bounds(#[trigger] self.pellets@[i])
        &&& forall|i: int, j: int|
            0 <= i < j < self.pellets@.len() ==> self.pellets@[i] != self.pellets@[j]
    }

    /// The four starting pellets, one toward each edge of the field.
    pub fn new() -> (f: Food)
        ensures
            f.wf(),
            f.pellets@ == seq![
                Cell { x: 20, y: 5 },
                Cell { x: 20, y: 35 },
                Cell { x: 5, y: 20 },
                Cell { x: 35, y: 20 },
            ],
    {
        let mut pellets: Vec<Cell> = Vec::new();
        pellets.push(Cell { x: 20, y: 5 });
        pellets.push(Cell { x: 20, y: 35 });
        pellets.push(Cell { x: 5, y: 20 });
        pellets.push(Cell { x: 35, y: 20 });
        proof {
            assert(pellets@ =~= seq![
                Cell { x: 20, y: 5 },
                Cell { x: 20, y: 35 },
                Cell { x: 5, y: 20 },
                Cell { x: 35, y: 20 },
            ]);
        }
        Food { pellets }
    }

    /// Take the pellet at `c` out of the food set, if one is there. Because
    /// pellets are pairwise distinct, afterwards no pellet sits at `c`, and
    /// every other cell keeps its pellet.
    pub fn remove_pellet(&mut self, c: Cell) -> (removed: bool)
        requires
            old(self).wf(),
        ensures
            final(self).wf(),
            removed == old(self).pellets@.contains(c),
            !final(self).pellets@.contains(c),
            forall|d: Cell|
                d != c ==> final(self).pellets@.contains(d) == old(self).pellets@.contains(d),
            removed ==> exists|i: int|
                0 <= i < old(self).pellets@.len() && old(self).pellets@[i] == c
                    && final(self).pellets@ == old(self).pellets@.remove(i),
            !removed ==> final(self).pellets@ == old(self).pellets@,
            final(self).pellets@.len()
                == old(self).pellets@.len() - (if removed { 1int } else { 0int }),
    {
        let ghost orig = self.pellets@;
        let mut i: usize = 0;
        while i < self.pellets.len()
            invariant
                i <= self.pellets@.len(),
                self.pellets@ == orig,
                old(self).pellets@ == orig,
                forall|j: int| 0 <= j < i ==> orig[j] != c,
                forall|j: int| 0 <= j < orig.len() ==> in_bounds(#[trigger] orig[j]),
                forall|p: int, q: int| 0 <= p < q < orig.len() ==> orig[p] != orig[q],
            decreases self.pellets@.len() - i,
        {
            if self.pellets[i] == c {
                self.pellets.remove(i);
                proof {
                    lemma_remove_distinct(orig, i as int, c);
                }
                return true;
            }
            i += 1;
        }
        false
    }

    /// Spawn one pellet on a uniformly random empty cell, by enumerating the
    /// empty cells of the field and drawing one of them by index. When the
    /// body and the food together cover the whole field, nothing is spawned.
    pub fn add_random_pellet(&mut self, snake: &Snake)
        requires
            old(self).wf(),
        ensures
            final(self).wf(),
            has_free_cell(snake.snake@, old(self).pellets@) ==> exists|c: Cell|
                is_free(snake.snake@, old(self).pellets@, c)
                    && final(self).pellets@ == old(self).pellets@.push(c),
            !has_free_cell(snake.snake@, old(self).pellets@)
                ==> final(self).pellets@ == old(self).pellets@,
    {
        let ghost body = snake.snake@;
        let ghost orig = self.pellets@;
        let mut free: Vec<Cell> = Vec::new();
        let mut x: u32 = 0;
        while x < GRID_SIZE
            invariant
                x <= GRID_SIZE,
                self.pellets@ == orig,
                old(self).pellets@ == orig,
                old(self).wf(),
                snake.snake@ == body,
                free@.len() <= x * GRID_SIZE,
                forall|k: int| 0 <= k < free@.len() ==> is_free(body, orig, #[trigger] free@[k]),
                forall|c: Cell| #[trigger] is_free(body, orig, c) && c.x < x ==> free@.contains(c),
            decreases GRID_SIZE - x,
        {
            let mut y: u32 = 0;
            while y < GRID_SIZE
                invariant
                    x < GRID_SIZE,
                    y <= GRID_SIZE,
                    self.pellets@ == orig,
                    old(self).pellets@ == orig,
                    old(self).wf(),
                    snake.snake@ == body,
                    free@.len() <= x * GRID_SIZE + y,
                    forall|k: int| 0 <= k < free@.len() ==> is_free(body, orig, #[trigger] free@[k]),
                    forall|c: Cell| #[trigger] is_free(body, orig, c)
                        && (c.x < x || (c.x == x && c.y < y)) ==> free@.contains(c),
                decreases GRID_SIZE - y,
            {
                let c = Cell { x, y };
                let ghost free_pre = free@;
                let in_body = deque_contains(&snake.snake, c);
                let in_food = vec_contains(&self.pellets, c);
                if !in_body && !in_food {
                    free.push(c);
                }
                proof {
                    assert forall|d: Cell| #[trigger] is_free(body, orig, d)
                        && (d.x < x || (d.x == x && d.y < y + 1)) implies free@.contains(d) by {
                        if d.x == x && d.y == y {
                            assert(d == c);
                            assert(free@ == free_pre.push(c));
                            assert(free@[free@.len() - 1] == c);
                        } else {
                            assert(free_pre.contains(d));
                            let k = choose|k: int| 0 <= k < free_pre.len() && free_pre[k] == d;
                            assert(free@[k] == d);
                        }
                    }
                }
                y += 1;
            }
            x += 1;
        }
        if free.len() == 0 {
            proof {
                if has_free_cell(body, orig) {
                    let c = choose|c: Cell| is_free(body, orig, c);
                    assert(free@.contains(c));
                    assert(false);
                }
            }
            return;
        }
        let n = free.len();
        let idx = random_below(n as u32);
        let c = free[idx as usize];
        proof {
            assert(is_free(body, orig, c));
        }
        self.pellets.push(c);
        proof {
            assert(self.pellets@ == orig.push(c));
            assert forall|p: int, q: int| 0 <= p < q < self.pellets@.len()
                implies self.pellets@[p] != self.pellets@[q] by {
                if q == orig.len() {
                    assert(self.pellets@[q] == c);
                    assert(self.pellets@[p] == orig[p]);
                    if orig[p] == c {
                        assert(orig.contains(c));
                    }
                } else {
                    assert(self.pellets@[p] == orig[p]);
                    assert(self.pellets@[q] == orig[q]);
                }
            }
        }
    }
}

/// Removing the one occurrence of `c` from a sequence of pairwise-distinct
/// cells leaves a pairwise-distinct sequence in which `c` no longer occurs
/// and every other cell occurs exactly as before.
proof fn lemma_remove_distinct(s: Seq<Cell>, i: int, c: Cell)
    requires
        0 <= i < s.len(),
        s[i] == c,
        forall|j: int| 0 <= j < i ==> s[j] != c,
        forall|j: int| 0 <= j < s.len() ==> in_bounds(#[trigger] s[j]),
        forall|p: int, q: int| 0 <= p < q < s.len() ==> s[p] != s[q],
    ensures
        !s.remove(i).contains(c),
        forall|d: Cell| d != c ==> s.remove(i).contains(d) == s.contains(d),
        forall|k: int| 0 <= k < s.remove(i).len() ==> in_bounds(#[trigger] s.remove(i)[k]),
        forall|p: int, q: int| 0 <= p < q < s.remove(i).len() ==> s.remove(i)[p] != s.remove(i)[q],
{
    let r = s.remove(i);
    assert forall|k: int| 0 <= k < r.len() implies r[k] != c by {
        if k < i {
            assert(r[k] == s[k]);
        } else {
            assert(r[k] == s[k + 1]);
        }
    }
    if r.contains(c) {
        let k = choose|k: int| 0 <= k < r.len() && r[k] == c;
        assert(false);
    }
    assert forall|d: Cell| d != c implies r.contains(d) == s.contains(d) by {
        if r.contains(d) {
            let k = choose|k: int| 0 <= k < r.len() && r[k] == d;
            if k < i {
                assert(s[k] == d);
            } else {
                assert(s[k + 1] == d);
            }
            assert(s.contains(d));
        }
        if s.contains(d) {
            let k = choose|k: int| 0 <= k < s.len() && s[k] == d;
            if k < i {
                assert(r[k] == d);
            } else {
                assert(k != i);
                assert(r[k - 1] == s[k]);
            }
            assert(r.contains(d));
        }
    }
}

} // verus!
