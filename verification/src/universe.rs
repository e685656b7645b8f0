//! The universe: the grid, the snake, the score, and the tick rules.

use vstd::prelude::*;

use crate::cell::Cell;
use crate::cell::Direction;
use crate::snake::step_fits;
use crate::snake::step_spec;
use crate::snake::Coord;
use crate::snake::Snake;

verus! {

/// An all-Dead grid of `width * height` cells.
pub open spec fn dead_grid(width: int, height: int) -> Seq<Cell> {
    Seq::new((width * height) as nat, |i: int| Cell::Dead)
}

/// The freshly seeded grid: all Dead except the snake's two canonical
/// starting cells, tail `(0, 0)` at flat index 0 and head `(0, 1)` at flat
/// index 1, which are Alive.
pub open spec fn seeded_grid(width: int, height: int) -> Seq<Cell> {
    dead_grid(width, height).update(0, Cell::Alive).update(1, Cell::Alive)
}

/// The first index whose cell is not Alive, scanning cyclically from
/// `start` for at most `steps` candidates; `None` when all of them are
/// Alive.
pub open spec fn scan_free(g: Seq<Cell>, start: int, steps: nat) -> Option<int>
    decreases steps,
{
    if steps == 0 {
        None
    } else if g[start] != Cell::Alive {
        Some(start)
    } else {
        scan_free(g, if start + 1 == g.len() { 0 } else { start + 1 }, (steps - 1) as nat)
    }
}

/// Where an apple lands on grid `g` for the random draw `seed`: the first
/// non-Alive cell scanning cyclically from `seed % len`. `None` only when
/// the snake occupies every cell.
pub open spec fn apple_target(g: Seq<Cell>, seed: u32) -> Option<int> {
    scan_free(g, seed as int % g.len() as int, g.len())
}

/// Grid `g` after placing an apple for the random draw `seed`; unchanged
/// when every cell is Alive.
pub open spec fn with_random_apple(g: Seq<Cell>, seed: u32) -> Seq<Cell> {
    match apple_target(g, seed) {
        Some(i) => g.update(i, Cell::Apple),
        None => g,
    }
}

/// The game universe: grid dimensions, a flat cell array of length
/// `width * height` indexed as `row * width + column`, the snake, and the
/// score.
pub struct Universe {
    width: u32,
    height: u32,
    snake: Snake,
    cells: Vec<Cell>,
    score: u8,
}

/// One tick of the state machine, as a relation between the state before
/// (`pre`) and after (`post`). The head advances one unit in the current
/// heading; leaving the grid is a wall collision, landing on an Alive cell
/// is a self-collision, landing on an Apple grows the snake and places a
/// new apple from the draw `seed`, and landing on a Dead cell moves the
/// snake without growing it.
pub open spec fn tick_rel(pre: Universe, post: Universe, seed: u32, alive: bool) -> bool {
    let nh = pre.next_head();
    let hc = (nh.0 as u32, nh.1 as u32);
    let i = pre.idx(nh.0, nh.1);
    &&& post.width_spec() == pre.width_spec()
    &&& post.height_spec() == pre.height_spec()
    &&& post.heading() == pre.heading()
    &&& alive == (pre.on_grid(nh.0, nh.1) && pre.grid()[i] != Cell::Alive)
    &&& if nh.0 < 0 || nh.1 < 0 {
        // a move off the top or left edge cannot be represented in
        // unsigned coordinates: the wall collision is reported with the
        // state left untouched
        &&& post.grid() == pre.grid()
        &&& post.body() == pre.body()
        &&& post.score_spec() == pre.score_spec()
    } else if !pre.on_grid(nh.0, nh.1) {
        // wall collision: the body has already grown by the out-of-bounds
        // head and is left in that state
        &&& post.grid() == pre.grid()
        &&& post.body() == pre.body().push(hc)
        &&& post.score_spec() == pre.score_spec()
    } else if pre.grid()[i] == Cell::Apple {
        // growth: the head cell becomes Alive, the score increments, a new
        // apple is placed, and the tail stays
        &&& post.grid() == with_random_apple(pre.grid().update(i, Cell::Alive), seed)
        &&& post.body() == pre.body().push(hc)
        &&& post.score_spec() == pre.score_spec() + 1
    } else if pre.grid()[i] == Cell::Dead {
        // plain movement: the head cell becomes Alive, the old tail cell
        // becomes Dead, and the tail is retracted
        &&& post.grid() == pre.grid().update(i, Cell::Alive).update(
            pre.idx(pre.body().first().0 as int, pre.body().first().1 as int),
            Cell::Dead,
        )
        &&& post.body() == pre.body().subrange(1, pre.body().len() as int).push(hc)
        &&& post.score_spec() == pre.score_spec()
    } else {
        // self-collision: the grown-but-unreconciled state is left as is
        &&& post.grid() == pre.grid()
        &&& post.body() == pre.body().push(hc)
        &&& post.score_spec() == pre.score_spec()
    }
}

impl Universe {
    /// The grid contents, row-major.
    pub closed spec fn grid(self) -> Seq<Cell> {
        self.cells@
    }

    /// The grid width.
    pub closed spec fn width_spec(self) -> u32 {
        self.width
    }

    /// The grid height.
    pub closed spec fn height_spec(self) -> u32 {
        self.height
    }

    /// The score counter.
    pub closed spec fn score_spec(self) -> u8 {
        self.score
    }

    /// The snake's body, ordered tail first, head last.
    pub closed spec fn body(self) -> Seq<Coord> {
        self.snake.body@
    }

    /// The snake's current heading.
    pub closed spec fn heading(self) -> Direction {
        self.snake.dir
    }

    /// Structural well-formedness: the cell array matches the dimensions,
    /// the dimensions' product is representable, and the snake is nonempty.
    pub open spec fn wf(self) -> bool {
        &&& self.grid().len() == self.width_spec() * self.height_spec()
        &&& self.width_spec() * self.height_spec() <= u32::MAX
        &&& self.body().len() >= 1
    }

    /// The flat index of `(row, col)` in the row-major cell array.
    pub open spec fn idx(self, row: int, col: int) -> int {
        row * self.width_spec() + col
    }

    /// Whether a (possibly signed) coordinate lies on the grid.
    pub open spec fn on_grid(self, row: int, col: int) -> bool {
        &&& 0 <= row < self.height_spec()
        &&& 0 <= col < self.width_spec()
    }

    /// The signed coordinate the head moves to on the next tick. Row and
    /// column arithmetic is done over the integers, so a move off the top
    /// or left edge shows up as a negative component instead of wrapping.
    pub open spec fn next_head(self) -> (int, int) {
        let h = self.body().last();
        match self.heading() {
            Direction::Right => (h.0 as int, h.1 + 1),
            Direction::Left => (h.0 as int, h.1 - 1),
            Direction::Down => (h.0 + 1, h.1 as int),
            Direction::Up => (h.0 - 1, h.1 as int),
        }
    }

    /// Every body coordinate lies on the grid. Holds through every legal
    /// driving sequence; a failed tick (which is terminal) and a resize
    /// (which must be followed by a restart) are what break it.
    pub open spec fn snake_on_grid(self) -> bool {
        forall|i: int|
            0 <= i < self.body().len() ==> self.on_grid(
                (#[trigger] self.body()[i]).0 as int,
                self.body()[i].1 as int,
            )
    }

    /// The state every fresh or restarted universe has at dimensions
    /// `width` by `height` with the apple draw `seed`: score zero, the
    /// canonical two-segment snake heading Right, and the seeded grid with
    /// one apple placed.
    pub open spec fn reset_state(self, width: u32, height: u32, seed: u32) -> bool {
        &&& self.width_spec() == width
        &&& self.height_spec() == height
        &&& self.score_spec() == 0
        &&& self.body() == seq![(0u32, 0u32), (0u32, 1u32)]
        &&& self.heading() == Direction::Right
        &&& self.grid() == with_random_apple(seeded_grid(width as int, height as int), seed)
    }

    /// Return the grid width.
    pub fn width(&self) -> (r: u32)
        ensures
            r == self.width_spec(),
    {
        self.width
    }

    /// Return the grid height.
    pub fn height(&self) -> (r: u32)
        ensures
            r == self.height_spec(),
    {
        self.height
    }

    /// Return the score.
    pub fn score(&self) -> (r: u8)
        ensures
            r == self.score_spec(),
    {
        self.score
    }

    /// Return the dead, alive and apple values of the entire universe.
    pub fn get_cells(&self) -> (r: &[Cell])
        ensures
            r@ == self.grid(),
    {
        self.cells.as_slice()
    }

    /// Return the snake's current heading.
    pub fn direction(&self) -> (r: Direction)
        ensures
            r == self.heading(),
    {
        self.snake.dir
    }

    /// Return the number of body segments.
    pub fn snake_length(&self) -> (r: usize)
        ensures
            r == self.body().len(),
    {
        self.snake.body.len()
    }

    /// Return the snake's head coordinate.
    pub fn snake_head(&self) -> (r: Coord)
        requires
            self.wf(),
        ensures
            r == self.body().last(),
    {
        self.snake.head()
    }

    /// Return the full cell array encoded as renderer bytes (0 = Dead,
    /// 1 = Alive, 2 = Apple), row-major. This is the serialized view of
    /// the grid a display layer consumes.
    pub fn cells_encoded(&self) -> (r: Vec<u8>)
        ensures
            r@.len() == self.grid().len(),
            forall|i: int| 0 <= i < r@.len() ==> r@[i] == self.grid()[i].code_spec(),
    {
        let mut out: Vec<u8> = Vec::new();
        let mut i: usize = 0;
        while i < self.cells.len()
            invariant
                i <= self.cells.len(),
                out@.len() == i,
                forall|k: int| 0 <= k < i ==> out@[k] == self.grid()[k].code_spec(),
            decreases self.cells.len() - i,
        {
            let c = self.cells[i];
            out.push(c.code());
            i = i + 1;
        }
        out
    }

    /// The flat index of a coordinate already checked against the grid.
    fn get_index(&self, row: u32, column: u32) -> (r: usize)
        requires
            self.wf(),
            self.on_grid(row as int, column as int),
        ensures
            r == self.idx(row as int, column as int),
            r < self.grid().len(),
    {
        proof {
            lemma_flat_index(row as int, column as int, self.width as int, self.height as int);
        }
        (row * self.width + column) as usize
    }

    /// Cycle the cell at `(row, column)` between Dead and Alive; an Apple
    /// there is left unchanged. No snake or score semantics are attached.
    pub fn toggle_cell(&mut self, row: u32, column: u32)
        requires
            old(self).wf(),
            old(self).on_grid(row as int, column as int),
        ensures
            final(self).wf(),
            final(self).width_spec() == old(self).width_spec(),
            final(self).height_spec() == old(self).height_spec(),
            final(self).score_spec() == old(self).score_spec(),
            final(self).body() == old(self).body(),
            final(self).heading() == old(self).heading(),
            final(self).grid() == old(self).grid().update(
                old(self).idx(row as int, column as int),
                old(self).grid()[old(self).idx(row as int, column as int)].toggled(),
            ),
    {
        let index: usize = self.get_index(row, column);
        let mut c = self.cells[index];
        c.toggle();
        self.cells[index] = c;
    }

    /// Force the cell at `(row, column)` to Apple.
    pub fn place_apple(&mut self, row: u32, column: u32)
        requires
            old(self).wf(),
            old(self).on_grid(row as int, column as int),
        ensures
            final(self).wf(),
            final(self).width_spec() == old(self).width_spec(),
            final(self).height_spec() == old(self).height_spec(),
            final(self).score_spec() == old(self).score_spec(),
            final(self).body() == old(self).body(),
            final(self).heading() == old(self).heading(),
            final(self).grid() == old(self).grid().update(
                old(self).idx(row as int, column as int),
                Cell::Apple,
            ),
    {
        let index: usize = self.get_index(row, column);
        self.cells[index] = Cell::Apple;
    }

    /// Force every listed `(row, column)` to Alive, in order. Used to seed
    /// arbitrary patterns; no snake or score semantics are attached.
    pub fn set_cells(&mut self, list: &[Coord])
        requires
            old(self).wf(),
            forall|k: int|
                0 <= k < list@.len() ==> old(self).on_grid(
                    (#[trigger] list@[k]).0 as int,
                    list@[k].1 as int,
                ),
        ensures
            final(self).wf(),
            final(self).width_spec() == old(self).width_spec(),
            final(self).height_spec() == old(self).height_spec(),
            final(self).score_spec() == old(self).score_spec(),
            final(self).body() == old(self).body(),
            final(self).heading() == old(self).heading(),
            final(self).grid().len() == old(self).grid().len(),
            forall|i: int|
                0 <= i < final(self).grid().len() ==> final(self).grid()[i] == (
                if old(self).covered(list@, list@.len() as int, i) {
                    Cell::Alive
                } else {
                    old(self).grid()[i]
                }),
    {
        let mut j: usize = 0;
        while j < list.len()
            invariant
                self.wf(),
                j <= list@.len(),
                self.width_spec() == old(self).width_spec(),
                self.height_spec() == old(self).height_spec(),
                self.score_spec() == old(self).score_spec(),
                self.body() == old(self).body(),
                self.heading() == old(self).heading(),
                self.grid().len() == old(self).grid().len(),
                forall|k: int|
                    0 <= k < list@.len() ==> old(self).on_grid(
                        (#[trigger] list@[k]).0 as int,
                        list@[k].1 as int,
                    ),
                forall|i: int|
                    0 <= i < self.grid().len() ==> self.grid()[i] == (
                    if old(self).covered(list@, j as int, i) {
                        Cell::Alive
                    } else {
                        old(self).grid()[i]
                    }),
            decreases list@.len() - j,
        {
            let (row, col) = list[j];
            let index: usize = self.get_index(row, col);
            self.cells[index] = Cell::Alive;
            proof {
                let g = self.grid();
                assert forall|i: int| 0 <= i < g.len() implies g[i] == (
                if old(self).covered(list@, j + 1, i) {
                    Cell::Alive
                } else {
                    old(self).grid()[i]
                }) by {
                    if i == old(self).idx(list@[j as int].0 as int, list@[j as int].1 as int) {
                        assert(old(self).covered(list@, j + 1, i));
                    } else {
                        assert(old(self).covered(list@, j + 1, i) == old(self).covered(
                            list@,
                            j as int,
                            i,
                        ));
                    }
                }
            }
            j = j + 1;
        }
    }

    /// Whether one of the first `n` listed coordinates maps to flat index `i`.
    pub open spec fn covered(self, list: Seq<Coord>, n: int, i: int) -> bool {
        exists|k: int|
            0 <= k < n && self.idx((#[trigger] list[k]).0 as int, list[k].1 as int) == i
    }

    /// Replace the grid with an all-Dead one of the given width and the
    /// current height. Existing cell state is destroyed; the snake is not
    /// relocated and no apple is re-placed, so the caller must restart or
    /// re-seed before ticking again.
    pub fn set_width(&mut self, width: u32)
        requires
            old(self).wf(),
            width * old(self).height_spec() <= u32::MAX,
        ensures
            final(self).wf(),
            final(self).width_spec() == width,
            final(self).height_spec() == old(self).height_spec(),
            final(self).score_spec() == old(self).score_spec(),
            final(self).body() == old(self).body(),
            final(self).heading() == old(self).heading(),
            final(self).grid() == dead_grid(width as int, old(self).height_spec() as int),
    {
        self.width = width;
        let n: u32 = width * self.height;
        self.cells = dead_cells(n as usize);
    }

    /// Replace the grid with an all-Dead one of the current width and the
    /// given height. Same caveats as `set_width`.
    pub fn set_height(&mut self, height: u32)
        requires
            old(self).wf(),
            old(self).width_spec() * height <= u32::MAX,
        ensures
            final(self).wf(),
            final(self).width_spec() == old(self).width_spec(),
            final(self).height_spec() == height,
            final(self).score_spec() == old(self).score_spec(),
            final(self).body() == old(self).body(),
            final(self).heading() == old(self).heading(),
            final(self).grid() == dead_grid(old(self).width_spec() as int, height as int),
    {
        self.height = height;
        let n: u32 = self.width * height;
        self.cells = dead_cells(n as usize);
    }

    /// Place an apple at the first non-Alive cell scanning cyclically from
    /// `seed % area`, where `seed` is the driver's random draw. Returns
    /// false, leaving the grid unchanged, when the snake occupies every
    /// cell.
    pub fn place_random_apple(&mut self, seed: u32) -> (placed: bool)
        requires
            old(self).wf(),
            old(self).grid().len() >= 1,
        ensures
            final(self).wf(),
            final(self).width_spec() == old(self).width_spec(),
            final(self).height_spec() == old(self).height_spec(),
            final(self).score_spec() == old(self).score_spec(),
            final(self).body() == old(self).body(),
            final(self).heading() == old(self).heading(),
            placed == apple_target(old(self).grid(), seed).is_some(),
            final(self).grid() == with_random_apple(old(self).grid(), seed),
    {
        let ghost g = self.grid();
        let len: usize = self.cells.len();
        let start: usize = (seed as usize) % len;
        let mut i: usize = start;
        let mut k: usize = 0;
        while k < len
            invariant
                *self == *old(self),
                self.wf(),
                self.grid() == g,
                len == g.len(),
                0 < len,
                i < len,
                k <= len,
                start == seed as int % g.len() as int,
                scan_free(g, start as int, len as nat) == scan_free(g, i as int, (len - k) as nat),
            decreases len - k,
        {
            if self.cells[i] != Cell::Alive {
                proof {
                    assert(scan_free(g, i as int, (len - k) as nat) == Some(i as int));
                }
                self.cells[i] = Cell::Apple;
                return true;
            }
            proof {
                assert(scan_free(g, i as int, (len - k) as nat) == scan_free(
                    g,
                    if i + 1 == len { 0int } else { i + 1 },
                    (len - k - 1) as nat,
                ));
            }
            i = if i + 1 == len {
                0
            } else {
                i + 1
            };
            k = k + 1;
        }
        false
    }

    /// Build a universe with an all-Dead `width` by `height` grid, the
    /// canonical snake (head `(0, 1)`, tail `(0, 0)`, heading Right) marked
    /// Alive on the grid, one apple placed from the driver's random draw
    /// `seed`, and score zero.
    pub fn new(width: u32, height: u32, seed: u32) -> (u: Universe)
        requires
            2 <= width,
            2 <= height,
            width * height <= u32::MAX,
        ensures
            u.wf(),
            u.snake_on_grid(),
            u.reset_state(width, height, seed),
            u.grid().len() == width * height,
            u.grid()[0] == Cell::Alive,
            u.grid()[1] == Cell::Alive,
            exists|i: int| 0 <= i < u.grid().len() && u.grid()[i] == Cell::Apple,
    {
        proof {
            assert(width * height >= 4) by (nonlinear_arith)
                requires
                    2 <= width,
                    2 <= height,
            ;
        }
        let n: u32 = width * height;
        let cells = dead_cells(n as usize);
        let snake = Snake::new((0, 1), (0, 0));
        let mut un = Universe { width, height, snake, cells, score: 0 };
        un.toggle_cell(0, 0);
        un.toggle_cell(0, 1);
        let _ = un.place_random_apple(seed);
        proof {
            assert(un.grid() == with_random_apple(
                seeded_grid(width as int, height as int),
                seed,
            ));
            lemma_reset_grid(width, height, seed);
            assert forall|i: int| 0 <= i < un.body().len() implies un.on_grid(
                (#[trigger] un.body()[i]).0 as int,
                un.body()[i].1 as int,
            ) by {}
        }
        un
    }

    /// Reinitialize in place at the current dimensions: all-Dead grid, the
    /// canonical snake re-seeded, one apple from the driver's random draw
    /// `seed`, and score zero. The old snake is discarded.
    pub fn restart(&mut self, seed: u32)
        requires
            old(self).wf(),
            2 <= old(self).width_spec(),
            2 <= old(self).height_spec(),
        ensures
            final(self).wf(),
            final(self).snake_on_grid(),
            final(self).reset_state(old(self).width_spec(), old(self).height_spec(), seed),
            final(self).grid().len() == old(self).width_spec() * old(self).height_spec(),
            final(self).grid()[0] == Cell::Alive,
            final(self).grid()[1] == Cell::Alive,
            exists|i: int|
                0 <= i < final(self).grid().len() && final(self).grid()[i] == Cell::Apple,
    {
        let ghost w = self.width_spec();
        let ghost h = self.height_spec();
        proof {
            assert(w * h >= 4) by (nonlinear_arith)
                requires
                    2 <= w,
                    2 <= h,
            ;
        }
        let n: u32 = self.width * self.height;
        self.cells = dead_cells(n as usize);
        self.toggle_cell(0, 0);
        self.toggle_cell(0, 1);
        let _ = self.place_random_apple(seed);
        self.score = 0;
        self.snake = Snake::new((0, 1), (0, 0));
        proof {
            assert(self.grid() == with_random_apple(seeded_grid(w as int, h as int), seed));
            lemma_reset_grid(self.width, self.height, seed);
            assert forall|i: int| 0 <= i < self.body().len() implies self.on_grid(
                (#[trigger] self.body()[i]).0 as int,
                self.body()[i].1 as int,
            ) by {}
        }
    }

    /// Change the pending heading. The change is a silent no-op when the
    /// attempted heading is the exact reverse of the current one, so the
    /// snake can never reverse into its own neck.
    pub fn set_direction(&mut self, dir: Direction)
        ensures
            final(self).width_spec() == old(self).width_spec(),
            final(self).height_spec() == old(self).height_spec(),
            final(self).score_spec() == old(self).score_spec(),
            final(self).body() == old(self).body(),
            final(self).grid() == old(self).grid(),
            final(self).heading() == if dir == old(self).heading().reverse_spec() {
                old(self).heading()
            } else {
                dir
            },
            final(self).heading() != old(self).heading().reverse_spec(),
            final(self).wf() == old(self).wf(),
    {
        let current_dir = self.snake.dir;
        if (dir == Direction::Down && current_dir != Direction::Up) || (dir == Direction::Up
            && current_dir != Direction::Down) || (dir == Direction::Left && current_dir
            != Direction::Right) || (dir == Direction::Right && current_dir != Direction::Left) {
            self.snake.dir = dir;
        }
    }

    /// Advance the game by one step: move the head one unit in the current
    /// heading, then resolve the landing cell — wall collision or
    /// self-collision ends the game (returns false), an Apple grows the
    /// snake, scores a point and places a new apple from the driver's
    /// random draw `seed`, and a Dead cell moves the snake without growth.
    pub fn tick(&mut self, seed: u32) -> (alive: bool)
        requires
            old(self).wf(),
            old(self).snake_on_grid(),
            old(self).score_spec() < u8::MAX,
        ensures
            final(self).wf(),
            tick_rel(*old(self), *final(self), seed, alive),
            alive ==> final(self).snake_on_grid(),
            ({
                let nh = old(self).next_head();
                old(self).on_grid(nh.0, nh.1) && old(self).grid()[old(self).idx(nh.0, nh.1)]
                    == Cell::Apple
            }) ==> final(self).body().len() == old(self).body().len() + 1
                && final(self).score_spec() == old(self).score_spec() + 1,
            ({
                let nh = old(self).next_head();
                old(self).on_grid(nh.0, nh.1) && old(self).grid()[old(self).idx(nh.0, nh.1)]
                    == Cell::Dead
            }) ==> final(self).body().len() == old(self).body().len() && final(self).score_spec()
                == old(self).score_spec(),
    {
        let dir = self.snake.dir;
        let (hr, hc) = self.snake.head();
        proof {
            assert(old(self).body()[old(self).body().len() - 1] == (hr, hc));
        }
        // a move off the top or left edge cannot be represented in the
        // unsigned coordinates; report the wall collision without touching
        // the state
        match dir {
            Direction::Up => {
                if hr == 0 {
                    return false;
                }
            },
            Direction::Left => {
                if hc == 0 {
                    return false;
                }
            },
            _ => {},
        }
        self.snake.advance_head();
        let (row, column) = self.snake.head();
        if row >= self.height || column >= self.width {
            return false;
        }
        let index: usize = self.get_index(row, column);
        match self.cells[index] {
            Cell::Apple => {
                self.cells[index] = Cell::Alive;
                self.score = self.score + 1;
                let _ = self.place_random_apple(seed);
            },
            Cell::Dead => {
                self.cells[index] = Cell::Alive;
                let (tr, tc) = self.snake.tail();
                proof {
                    assert(old(self).body()[0] == (tr, tc));
                }
                let t_index: usize = self.get_index(tr, tc);
                self.cells[t_index] = Cell::Dead;
                self.snake.advance_tail();
                proof {
                    assert(self.body() =~= old(self).body().subrange(
                        1,
                        old(self).body().len() as int,
                    ).push((row, column)));
                }
            },
            Cell::Alive => {
                return false;
            },
        }
        proof {
            if next_head_on_grid(*old(self)) {
                assert forall|i: int| 0 <= i < self.body().len() implies self.on_grid(
                    (#[trigger] self.body()[i]).0 as int,
                    self.body()[i].1 as int,
                ) by {
                    body_membership(*old(self), *self, i);
                }
            }
        }
        true
    }
}

/// Whether the next head position, computed before a tick, lands on the grid.
pub open spec fn next_head_on_grid(pre: Universe) -> bool {
    pre.on_grid(pre.next_head().0, pre.next_head().1)
}

/// Helper for `tick`: each post-tick body coordinate is either a pre-tick
/// body coordinate or the new head, so it lies on the grid.
proof fn body_membership(pre: Universe, post: Universe, i: int)
    requires
        pre.snake_on_grid(),
        next_head_on_grid(pre),
        pre.body().len() >= 1,
        0 <= i < post.body().len(),
        post.width_spec() == pre.width_spec(),
        post.height_spec() == pre.height_spec(),
        post.body() == pre.body().push((pre.next_head().0 as u32, pre.next_head().1 as u32))
            || post.body() == pre.body().subrange(1, pre.body().len() as int).push(
            (pre.next_head().0 as u32, pre.next_head().1 as u32),
        ),
    ensures
        post.on_grid((post.body()[i]).0 as int, post.body()[i].1 as int),
{
    let nh = pre.next_head();
    if post.body() == pre.body().push((nh.0 as u32, nh.1 as u32)) {
        if i < pre.body().len() {
            assert(post.body()[i] == pre.body()[i]);
        } else {
            assert(post.body()[i] == (nh.0 as u32, nh.1 as u32));
        }
    } else {
        let trimmed = pre.body().subrange(1, pre.body().len() as int);
        if i < post.body().len() - 1 {
            assert(trimmed[i] == pre.body()[i + 1]);
            assert(post.body()[i] == pre.body()[i + 1]);
        } else {
            assert(post.body()[i] == (nh.0 as u32, nh.1 as u32));
        }
    }
}

/// A flat row-major index stays inside the cell array: with `row < height`,
/// `col < width` and the area representable, `row * width + col` is below
/// the area.
proof fn lemma_flat_index(row: int, col: int, width: int, height: int)
    by (nonlinear_arith)
    requires
        0 <= row < height,
        0 <= col < width,
        width * height <= u32::MAX,
    ensures
        0 <= row * width + col < width * height,
{
}

/// Build an all-Dead cell array of length `n`.
fn dead_cells(n: usize) -> (v: Vec<Cell>)
    ensures
        v@ == Seq::new(n as nat, |i: int| Cell::Dead),
{
    let mut v: Vec<Cell> = Vec::new();
    let mut i: usize = 0;
    while i < n
        invariant
            i <= n,
            v@.len() == i,
            forall|k: int| 0 <= k < i ==> v@[k] == Cell::Dead,
        decreases n - i,
    {
        v.push(Cell::Dead);
        i = i + 1;
    }
    proof {
        assert(v@ =~= Seq::new(n as nat, |i: int| Cell::Dead));
    }
    v
}

/// A scan that stops returns an index on the grid whose cell is not Alive.
proof fn lemma_scan_some(g: Seq<Cell>, start: int, steps: nat)
    requires
        g.len() > 0,
        0 <= start < g.len(),
        scan_free(g, start, steps).is_some(),
    ensures
        0 <= scan_free(g, start, steps).unwrap() < g.len(),
        g[scan_free(g, start, steps).unwrap()] != Cell::Alive,
    decreases steps,
{
    if steps == 0 {
    } else if g[start] != Cell::Alive {
    } else {
        lemma_scan_some(g, if start + 1 == g.len() { 0 } else { start + 1 }, (steps - 1) as nat);
    }
}

/// A scan that fails saw only Alive cells: every index within `steps` of
/// `start`, cyclically, holds an Alive cell.
proof fn lemma_scan_none(g: Seq<Cell>, start: int, steps: nat)
    requires
        g.len() > 0,
        0 <= start < g.len(),
        scan_free(g, start, steps).is_none(),
    ensures
        forall|i: int| start <= i < g.len() && i - start < steps ==> g[i] == Cell::Alive,
        forall|i: int| 0 <= i < g.len() && i + g.len() - start < steps ==> g[i] == Cell::Alive,
    decreases steps,
{
    if steps == 0 {
    } else {
        assert(g[start] == Cell::Alive);
        if start + 1 == g.len() {
            lemma_scan_none(g, 0, (steps - 1) as nat);
        } else {
            lemma_scan_none(g, start + 1, (steps - 1) as nat);
        }
    }
}

/// If any cell is not Alive, a full-length cyclic scan finds one.
proof fn lemma_scan_finds(g: Seq<Cell>, start: int)
    requires
        g.len() > 0,
        0 <= start < g.len(),
        exists|i: int| 0 <= i < g.len() && g[i] != Cell::Alive,
    ensures
        scan_free(g, start, g.len()).is_some(),
{
    if scan_free(g, start, g.len()).is_none() {
        lemma_scan_none(g, start, g.len());
        let w = choose|i: int| 0 <= i < g.len() && g[i] != Cell::Alive;
        if w >= start {
            assert(g[w] == Cell::Alive);
        } else {
            assert(g[w] == Cell::Alive);
        }
        assert(false);
    }
}

/// [law] After a fresh start at any dimensions of at least 2 by 2, the
/// grid has exactly `width * height` cells, the two canonical snake cells
/// are Alive, and at least one cell holds an Apple.
pub proof fn lemma_reset_grid(width: u32, height: u32, seed: u32)
    requires
        2 <= width,
        2 <= height,
        width * height <= u32::MAX,
    ensures
        ({
            let g = with_random_apple(seeded_grid(width as int, height as int), seed);
            &&& g.len() == width * height
            &&& g[0] == Cell::Alive
            &&& g[1] == Cell::Alive
            &&& exists|i: int| 0 <= i < g.len() && g[i] == Cell::Apple
        }),
{
    let s = seeded_grid(width as int, height as int);
    assert(width * height >= 4) by (nonlinear_arith)
        requires
            2 <= width,
            2 <= height,
    ;
    assert(s.len() == width * height);
    assert(s[2] == Cell::Dead);
    assert(s[0] == Cell::Alive);
    assert(s[1] == Cell::Alive);
    let start = seed as int % s.len() as int;
    assert(0 <= start < s.len());
    lemma_scan_finds(s, start);
    let j = apple_target(s, seed).unwrap();
    lemma_scan_some(s, start, s.len());
    assert(s[j] != Cell::Alive);
    assert(j != 0 && j != 1);
    let g = with_random_apple(s, seed);
    assert(g == s.update(j, Cell::Apple));
    assert(g[j] == Cell::Apple);
}

/// [law] Restarting is idempotent: two universes restarted at the same
/// dimensions have the same score (zero), the same snake body and heading,
/// and cell arrays identical everywhere except possibly at the randomly
/// chosen apple cells.
pub proof fn lemma_restart_idempotent(
    a: Universe,
    b: Universe,
    width: u32,
    height: u32,
    s1: u32,
    s2: u32,
)
    requires
        2 <= width,
        2 <= height,
        width * height <= u32::MAX,
        a.reset_state(width, height, s1),
        b.reset_state(width, height, s2),
    ensures
        a.score_spec() == b.score_spec() && a.score_spec() == 0,
        a.body() == b.body(),
        a.heading() == b.heading(),
        a.grid().len() == b.grid().len(),
        s1 == s2 ==> a.grid() == b.grid(),
        forall|i: int|
            0 <= i < a.grid().len() && a.grid()[i] != b.grid()[i] ==> a.grid()[i] == Cell::Apple
                || b.grid()[i] == Cell::Apple,
{
    let s = seeded_grid(width as int, height as int);
    assert(width * height >= 4) by (nonlinear_arith)
        requires
            2 <= width,
            2 <= height,
    ;
    assert(s.len() == width * height);
    if apple_target(s, s1).is_some() {
        lemma_scan_some(s, s1 as int % s.len() as int, s.len());
    }
    if apple_target(s, s2).is_some() {
        lemma_scan_some(s, s2 as int % s.len() as int, s.len());
    }
    assert forall|i: int|
        0 <= i < a.grid().len() && a.grid()[i] != b.grid()[i] implies a.grid()[i] == Cell::Apple
        || b.grid()[i] == Cell::Apple by {
        match apple_target(s, s1) {
            Some(j1) => {
                match apple_target(s, s2) {
                    Some(j2) => {
                        if i != j1 && i != j2 {
                            assert(a.grid()[i] == s[i]);
                            assert(b.grid()[i] == s[i]);
                        }
                    },
                    None => {},
                }
            },
            None => {},
        }
    }
}

} // verus!
