//! The mathematical model of one generation.

use vstd::prelude::*;
use vstd::arithmetic::div_mod::{lemma_fundamental_div_mod, lemma_fundamental_div_mod_converse};

verus! {

/// One complete state of the grid at a discrete time step.
///
/// `cells` holds the color of every cell in row-major order: the cell in
/// column `x` of row `y` is `cells[y * width + x]`. A cell is alive exactly when
/// its color is `alive`; `dead` is the color written to a cell that dies.
pub struct Generation {
    pub width: nat,
    pub height: nat,
    pub cells: Seq<u32>,
    pub alive: u32,
    pub dead: u32,
}

/// The rule B3/S23: a live cell lives on with two or three live neighbors, a
/// dead cell comes alive with exactly three, and every other cell is dead in
/// the next generation.
pub open spec fn rule(alive: bool, neighbors: nat) -> bool {
    if alive {
        neighbors == 2 || neighbors == 3
    } else {
        neighbors == 3
    }
}

impl Generation {
    /// There is exactly one cell for every position of the grid.
    pub open spec fn wf(self) -> bool {
        self.cells.len() == self.width * self.height
    }

    /// Whether `(x, y)` is a position of the grid.
    pub open spec fn in_bounds(self, x: int, y: int) -> bool {
        0 <= x < self.width && 0 <= y < self.height
    }

    /// The place of `(x, y)` in the row-major buffer.
    pub open spec fn index_of(self, x: int, y: int) -> int {
        y * self.width + x
    }

    /// The color stored at `(x, y)`.
    pub open spec fn cell(self, x: int, y: int) -> u32 {
        self.cells[self.index_of(x, y)]
    }

    /// Whether the cell at `(x, y)` is alive. Every position beyond the edges
    /// of the grid is dead.
    pub open spec fn is_alive(self, x: int, y: int) -> bool {
        self.in_bounds(x, y) && self.cell(x, y) == self.alive
    }

    /// One if the cell at `(x, y)` is alive, zero if it is not.
    pub open spec fn live(self, x: int, y: int) -> nat {
        if self.is_alive(x, y) {
            1
        } else {
            0
        }
    }

    /// The number of live cells among the eight cells that touch `(x, y)`,
    /// diagonals included.
    pub open spec fn live_neighbors(self, x: int, y: int) -> nat {
        self.live(x - 1, y - 1) + self.live(x - 1, y) + self.live(x - 1, y + 1)
            + self.live(x, y - 1) + self.live(x, y + 1)
            + self.live(x + 1, y - 1) + self.live(x + 1, y) + self.live(x + 1, y + 1)
    }

    /// Whether the rule makes the cell at `(x, y)` alive in the next generation.
    pub open spec fn next_alive(self, x: int, y: int) -> bool {
        rule(self.is_alive(x, y), self.live_neighbors(x, y))
    }

    /// The set of all positions of the grid.
    pub open spec fn positions(self) -> Set<(int, int)> {
        Set::new(|p: (int, int)| self.in_bounds(p.0, p.1))
    }

    /// The set of all positions whose cell is alive.
    pub open spec fn population(self) -> Set<(int, int)> {
        Set::new(|p: (int, int)| self.is_alive(p.0, p.1))
    }

    /// The set of all positions whose cell the rule makes alive in the next
    /// generation.
    pub open spec fn next_population(self) -> Set<(int, int)> {
        Set::new(|p: (int, int)| self.in_bounds(p.0, p.1) && self.next_alive(p.0, p.1))
    }

    /// The color that stands for a live cell, or for a dead one.
    pub open spec fn color_of(self, alive: bool) -> u32 {
        if alive {
            self.alive
        } else {
            self.dead
        }
    }

    /// Whether every cell holds one of the two colors of the grid.
    pub open spec fn two_colored(self) -> bool {
        forall|i: int|
            0 <= i < self.cells.len() ==> self.cells[i] == self.alive || self.cells[i]
                == self.dead
    }

    /// The same grid with every cell rewritten: the cells at the positions in
    /// `live` hold the alive color, all others the dead color.
    pub open spec fn with_population(self, live: Set<(int, int)>) -> Generation {
        Generation {
            cells: Seq::new(
                self.width * self.height,
                |i: int| self.color_of(live.contains((i % self.width as int, i / self.width as int))),
            ),
            ..self
        }
    }

    /// The same grid with every cell dead.
    pub open spec fn cleared(self) -> Generation {
        Generation { cells: Seq::new(self.width * self.height, |i: int| self.dead), ..self }
    }

    /// The generation that follows this one.
    pub open spec fn next(self) -> Generation {
        self.with_population(self.next_population())
    }

    /// The generation reached after `n` steps.
    pub open spec fn evolve(self, n: nat) -> Generation
        decreases n,
    {
        if n == 0 {
            self
        } else {
            self.evolve((n - 1) as nat).next()
        }
    }

    /// Every position of the grid has a place in the buffer, and that place
    /// leads back to the position.
    pub proof fn lemma_index_of(self, x: int, y: int)
        requires
            self.in_bounds(x, y),
        ensures
            0 <= self.index_of(x, y) < self.width * self.height,
            self.index_of(x, y) % self.width as int == x,
            self.index_of(x, y) / self.width as int == y,
    {
        let w = self.width as int;
        let h = self.height as int;
        assert(0 <= y * w && y * w + w <= h * w) by (nonlinear_arith)
            requires
                0 <= y < h,
                0 < w,
        ;
        assert(h * w == w * h) by (nonlinear_arith);
        lemma_fundamental_div_mod_converse(y * w + x, w, y, x);
    }

    /// Every place in the buffer belongs to exactly one position of the grid.
    pub proof fn lemma_position_of(self, i: int)
        requires
            0 <= i < self.width * self.height,
        ensures
            self.in_bounds(i % self.width as int, i / self.width as int),
            self.index_of(i % self.width as int, i / self.width as int) == i,
    {
        let w = self.width as int;
        let h = self.height as int;
        assert(w > 0) by (nonlinear_arith)
            requires
                0 <= i < w * h,
                0 <= w,
                0 <= h,
        ;
        lemma_fundamental_div_mod(i, w);
        assert(w * (i / w) == (i / w) * w) by (nonlinear_arith);
        assert(0 <= i / w < h) by (nonlinear_arith)
            requires
                0 <= i < w * h,
                0 < w,
                i == w * (i / w) + i % w,
                0 <= i % w < w,
        ;
    }

    /// What `with_population` writes at each position, and what it leaves as it
    /// was.
    pub proof fn lemma_with_population(self, live: Set<(int, int)>)
        ensures
            self.with_population(live).wf(),
            self.with_population(live).width == self.width,
            self.with_population(live).height == self.height,
            self.with_population(live).alive == self.alive,
            self.with_population(live).dead == self.dead,
            self.with_population(live).two_colored(),
            forall|x: int, y: int|
                self.in_bounds(x, y) ==> #[trigger] self.with_population(live).cell(x, y)
                    == self.color_of(live.contains((x, y))),
    {
        let next = self.with_population(live);
        assert forall|x: int, y: int| self.in_bounds(x, y) implies #[trigger] next.cell(x, y)
            == self.color_of(live.contains((x, y))) by {
            self.lemma_index_of(x, y);
        }
    }

    /// After `with_population` the live cells are the positions of `live` that
    /// lie on the grid. Positions of `live` beyond the edges are left out.
    pub proof fn lemma_population_of_with_population(self, live: Set<(int, int)>)
        requires
            self.alive != self.dead,
        ensures
            forall|x: int, y: int| #[trigger]
                self.with_population(live).is_alive(x, y) <==> self.in_bounds(x, y)
                    && live.contains((x, y)),
            self.with_population(live).population() == live.intersect(self.positions()),
    {
        self.lemma_with_population(live);
        let next = self.with_population(live);
        assert(next.population() =~= live.intersect(self.positions()));
    }

    /// A generation with no third color is the one that `with_population`
    /// writes from its own live cells.
    pub proof fn lemma_with_own_population(self)
        requires
            self.wf(),
            self.two_colored(),
        ensures
            self.with_population(self.population()) == self,
    {
        let same = self.with_population(self.population());
        self.lemma_with_population(self.population());
        assert forall|x: int, y: int| self.in_bounds(x, y) implies #[trigger] same.cell(x, y)
            == self.cell(x, y) by {
            self.lemma_index_of(x, y);
        }
        same.lemma_equal_by_cells(self);
    }

    /// `with_population` does not look at the cells it rewrites.
    pub proof fn lemma_with_population_again(self, first: Set<(int, int)>, live: Set<(int, int)>)
        ensures
            self.with_population(first).with_population(live) == self.with_population(live),
    {
        assert(self.with_population(first).with_population(live).cells =~= self.with_population(
            live,
        ).cells);
    }

    /// Only the positions of the grid count: two sets that hold the same
    /// positions of the grid give the same generation.
    pub proof fn lemma_with_population_on_grid(self, live: Set<(int, int)>, other: Set<(int, int)>)
        requires
            forall|x: int, y: int|
                self.in_bounds(x, y) ==> (live.contains((x, y)) <==> other.contains((x, y))),
        ensures
            self.with_population(live) == self.with_population(other),
    {
        let a = self.with_population(live);
        let b = self.with_population(other);
        assert forall|i: int| 0 <= i < a.cells.len() implies a.cells[i] == b.cells[i] by {
            self.lemma_position_of(i);
        }
        assert(a.cells =~= b.cells);
    }

    /// Making one more cell of the grid alive rewrites that cell and no other.
    pub proof fn lemma_with_population_insert(self, live: Set<(int, int)>, x: int, y: int)
        requires
            self.in_bounds(x, y),
        ensures
            self.with_population(live.insert((x, y))).cells == self.with_population(
                live,
            ).cells.update(self.index_of(x, y), self.alive),
    {
        let a = self.with_population(live.insert((x, y)));
        let b = self.with_population(live).cells.update(self.index_of(x, y), self.alive);
        self.lemma_index_of(x, y);
        assert forall|i: int| 0 <= i < a.cells.len() implies a.cells[i] == b[i] by {
            self.lemma_position_of(i);
        }
        assert(a.cells =~= b);
    }

    /// The next generation follows the rule at every position of the grid: a
    /// live cell with two or three live neighbors stays alive, a dead cell with
    /// exactly three comes alive, and every other cell is dead. No cell has
    /// more than eight live neighbors, and no cell of the next generation
    /// holds a third color.
    pub proof fn lemma_next_follows_rule(self, x: int, y: int)
        requires
            self.in_bounds(x, y),
        ensures
            self.live_neighbors(x, y) <= 8,
            self.is_alive(x, y) && (self.live_neighbors(x, y) == 2 || self.live_neighbors(x, y)
                == 3) ==> self.next().cell(x, y) == self.alive,
            self.is_alive(x, y) && self.live_neighbors(x, y) != 2 && self.live_neighbors(x, y)
                != 3 ==> self.next().cell(x, y) == self.dead,
            !self.is_alive(x, y) && self.live_neighbors(x, y) == 3 ==> self.next().cell(x, y)
                == self.alive,
            !self.is_alive(x, y) && self.live_neighbors(x, y) != 3 ==> self.next().cell(x, y)
                == self.dead,
            self.alive != self.dead ==> self.next().is_alive(x, y) == rule(
                self.is_alive(x, y),
                self.live_neighbors(x, y),
            ),
            self.next().two_colored(),
    {
        self.lemma_with_population(self.next_population());
    }

    /// With distinct colors, the live cells of the next generation are the
    /// positions of the grid that the rule makes alive.
    pub proof fn lemma_next_population(self)
        requires
            self.alive != self.dead,
        ensures
            self.next().population() == self.next_population(),
    {
        self.lemma_population_of_with_population(self.next_population());
        assert(self.next().population() =~= self.next_population());
    }

    /// A cell in the corner `(0, 0)` has three neighbors on the grid. The
    /// five positions beyond the edges count as dead: nothing wraps around to
    /// the far side.
    pub proof fn lemma_corner_neighbors(self)
        ensures
            self.live_neighbors(0, 0) == self.live(0, 1) + self.live(1, 0) + self.live(1, 1),
            self.live_neighbors(0, 0) <= 3,
    {
    }

    /// The border is fixed: a position beyond the edges of the grid is dead in
    /// every generation.
    pub proof fn lemma_dead_border(self, x: int, y: int, n: nat)
        requires
            !self.in_bounds(x, y),
        ensures
            !self.evolve(n).is_alive(x, y),
            self.evolve(n).live(x, y) == 0,
    {
        self.lemma_evolve_keeps_grid(n);
    }

    /// A cleared grid is the one that `with_population` writes from the empty
    /// set.
    pub proof fn lemma_cleared_is_empty(self)
        ensures
            self.cleared() == self.with_population(Set::empty()),
            self.cleared().wf(),
            self.cleared().two_colored(),
            self.alive != self.dead ==> self.cleared().population() == Set::<(int, int)>::empty(),
    {
        assert(self.cleared().cells =~= self.with_population(Set::empty()).cells);
        if self.alive != self.dead {
            self.lemma_population_of_with_population(Set::empty());
            assert(self.cleared().population() =~= Set::<(int, int)>::empty());
        }
    }

    /// Clearing a cleared grid changes nothing.
    pub proof fn lemma_cleared_twice(self)
        ensures
            self.cleared().cleared() == self.cleared(),
    {
        assert(self.cleared().cleared().cells =~= self.cleared().cells);
    }

    /// Every generation lives on the same grid, in the same two colors.
    pub proof fn lemma_evolve_keeps_grid(self, n: nat)
        ensures
            self.evolve(n).width == self.width,
            self.evolve(n).height == self.height,
            self.evolve(n).alive == self.alive,
            self.evolve(n).dead == self.dead,
            self.wf() ==> self.evolve(n).wf(),
        decreases n,
    {
        if n > 0 {
            self.lemma_evolve_keeps_grid((n - 1) as nat);
            self.evolve((n - 1) as nat).lemma_with_population(
                self.evolve((n - 1) as nat).next_population(),
            );
        }
    }

    /// Two generations of one grid that agree at every position have the same
    /// buffer.
    pub proof fn lemma_equal_by_cells(self, other: Generation)
        requires
            self.wf(),
            other.wf(),
            self.width == other.width,
            self.height == other.height,
            forall|x: int, y: int|
                self.in_bounds(x, y) ==> #[trigger] self.cell(x, y) == other.cell(x, y),
        ensures
            self.cells == other.cells,
    {
        assert forall|i: int| 0 <= i < self.cells.len() implies self.cells[i] == other.cells[i] by {
            self.lemma_position_of(i);
            let x = i % self.width as int;
            let y = i / self.width as int;
            assert(self.cell(x, y) == other.cell(x, y));
        }
        assert(self.cells =~= other.cells);
    }
}

} // verus!
