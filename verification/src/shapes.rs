//! Well-known shapes and how they behave from one generation to the next.

use vstd::prelude::*;
use crate::generation::Generation;

verus! {

/// The block: four live cells in a square whose upper left cell is `(x, y)`.
pub open spec fn block(x: int, y: int) -> Set<(int, int)> {
    set![(x, y), (x + 1, y), (x, y + 1), (x + 1, y + 1)]
}

/// Around any position, a cell is alive exactly when its position belongs to
/// the population.
proof fn lemma_neighborhood(g: Generation, x: int, y: int)
    ensures
        g.is_alive(x - 1, y - 1) == g.population().contains((x - 1, y - 1)),
        g.is_alive(x - 1, y) == g.population().contains((x - 1, y)),
        g.is_alive(x - 1, y + 1) == g.population().contains((x - 1, y + 1)),
        g.is_alive(x, y - 1) == g.population().contains((x, y - 1)),
        g.is_alive(x, y) == g.population().contains((x, y)),
        g.is_alive(x, y + 1) == g.population().contains((x, y + 1)),
        g.is_alive(x + 1, y - 1) == g.population().contains((x + 1, y - 1)),
        g.is_alive(x + 1, y) == g.population().contains((x + 1, y)),
        g.is_alive(x + 1, y + 1) == g.population().contains((x + 1, y + 1)),
{
}

/// A block that is alone on the grid is still there in the next generation,
/// and nothing else is.
pub proof fn lemma_block_step(g: Generation, x: int, y: int)
    requires
        g.wf(),
        g.alive != g.dead,
        g.in_bounds(x, y),
        g.in_bounds(x + 1, y + 1),
        g.population() == block(x, y),
    ensures
        g.next().population() == block(x, y),
{
    g.lemma_next_population();
    assert forall|p: (int, int)| g.next_population().contains(p) == block(x, y).contains(
        p,
    ) by {
        lemma_neighborhood(g, p.0, p.1);
    }
    assert(g.next_population() =~= block(x, y));
}

/// A block that is alone on the grid is a still life: after any number of
/// generations the live cells are the same four. Once no cell holds a third
/// color, the whole buffer stays as it is.
pub proof fn lemma_block_is_still(g: Generation, x: int, y: int, n: nat)
    requires
        g.wf(),
        g.alive != g.dead,
        g.in_bounds(x, y),
        g.in_bounds(x + 1, y + 1),
        g.population() == block(x, y),
    ensures
        g.evolve(n).population() == block(x, y),
        g.two_colored() ==> g.evolve(n) == g,
    decreases n,
{
    if n > 0 {
        let before = g.evolve((n - 1) as nat);
        lemma_block_is_still(g, x, y, (n - 1) as nat);
        g.lemma_evolve_keeps_grid((n - 1) as nat);
        lemma_block_step(before, x, y);
        if g.two_colored() {
            g.lemma_next_population();
            g.lemma_with_own_population();
        }
    }
}

/// The blinker lying down: three live cells in a row whose middle is `(x, y)`.
pub open spec fn blinker_row(x: int, y: int) -> Set<(int, int)> {
    set![(x - 1, y), (x, y), (x + 1, y)]
}

/// The blinker standing up: three live cells in a column whose middle is
/// `(x, y)`.
pub open spec fn blinker_column(x: int, y: int) -> Set<(int, int)> {
    set![(x, y - 1), (x, y), (x, y + 1)]
}

/// A blinker that is alone on the grid, with room around its middle, turns
/// from a row into a column and from a column into a row in one generation.
pub proof fn lemma_blinker_step(g: Generation, x: int, y: int)
    requires
        g.wf(),
        g.alive != g.dead,
        g.in_bounds(x - 1, y - 1),
        g.in_bounds(x + 1, y + 1),
    ensures
        g.population() == blinker_row(x, y) ==> g.next().population() == blinker_column(x, y),
        g.population() == blinker_column(x, y) ==> g.next().population() == blinker_row(x, y),
{
    g.lemma_next_population();
    if g.population() == blinker_row(x, y) {
        assert forall|p: (int, int)| g.next_population().contains(p) == blinker_column(
            x,
            y,
        ).contains(p) by {
            lemma_neighborhood(g, p.0, p.1);
        }
        assert(g.next_population() =~= blinker_column(x, y));
    }
    if g.population() == blinker_column(x, y) {
        assert forall|p: (int, int)| g.next_population().contains(p) == blinker_row(
            x,
            y,
        ).contains(p) by {
            lemma_neighborhood(g, p.0, p.1);
        }
        assert(g.next_population() =~= blinker_row(x, y));
    }
}

/// A blinker has period two: it is a row in every even generation and a
/// column in every odd one. One generation changes it, and two generations
/// bring it back to where it began.
pub proof fn lemma_blinker_oscillates(g: Generation, x: int, y: int, n: nat)
    requires
        g.wf(),
        g.alive != g.dead,
        g.in_bounds(x - 1, y - 1),
        g.in_bounds(x + 1, y + 1),
        g.population() == blinker_row(x, y),
    ensures
        n % 2 == 0 ==> g.evolve(n).population() == blinker_row(x, y),
        n % 2 == 1 ==> g.evolve(n).population() == blinker_column(x, y),
        g.evolve(1).population() == blinker_column(x, y),
        g.evolve(1).population() != g.population(),
        g.evolve(2).population() == g.population(),
        g.two_colored() ==> g.evolve(2) == g,
    decreases n,
{
    reveal_with_fuel(Generation::evolve, 3);
    assert(blinker_row(x, y).contains((x - 1, y)) && !blinker_column(x, y).contains((x - 1, y)));
    lemma_blinker_step(g, x, y);
    g.lemma_with_population(g.next_population());
    lemma_blinker_step(g.next(), x, y);
    if g.two_colored() {
        g.next().lemma_next_population();
        g.lemma_with_population_again(g.next_population(), g.next().next_population());
        g.lemma_with_own_population();
    }
    if n > 0 {
        lemma_blinker_oscillates(g, x, y, (n - 1) as nat);
        g.lemma_evolve_keeps_grid((n - 1) as nat);
        lemma_blinker_step(g.evolve((n - 1) as nat), x, y);
    }
}

/// The glider whose three by three box has its upper left corner at `(x, y)`,
/// heading down and to the right.
pub open spec fn glider(x: int, y: int) -> Set<(int, int)> {
    set![(x + 1, y), (x + 2, y + 1), (x, y + 2), (x + 1, y + 2), (x + 2, y + 2)]
}

/// The glider one generation after `glider(x, y)`.
pub open spec fn glider_second(x: int, y: int) -> Set<(int, int)> {
    set![(x, y + 1), (x + 2, y + 1), (x + 1, y + 2), (x + 2, y + 2), (x + 1, y + 3)]
}

/// The glider two generations after `glider(x, y)`.
pub open spec fn glider_third(x: int, y: int) -> Set<(int, int)> {
    set![(x + 2, y + 1), (x, y + 2), (x + 2, y + 2), (x + 1, y + 3), (x + 2, y + 3)]
}

/// The glider three generations after `glider(x, y)`.
pub open spec fn glider_fourth(x: int, y: int) -> Set<(int, int)> {
    set![(x + 1, y + 1), (x + 2, y + 2), (x + 3, y + 2), (x + 1, y + 3), (x + 2, y + 3)]
}

/// The first phase of a glider turns into the second.
proof fn lemma_glider_first_step(g: Generation, x: int, y: int)
    requires
        g.in_bounds(x, y),
        g.in_bounds(x + 3, y + 3),
        g.population() == glider(x, y),
    ensures
        g.next_population() == glider_second(x, y),
{
    assert forall|p: (int, int)| g.next_population().contains(p) == glider_second(x, y).contains(
        p,
    ) by {
        lemma_neighborhood(g, p.0, p.1);
    }
    assert(g.next_population() =~= glider_second(x, y));
}

/// The second phase of a glider turns into the third.
proof fn lemma_glider_second_step(g: Generation, x: int, y: int)
    requires
        g.in_bounds(x, y),
        g.in_bounds(x + 3, y + 3),
        g.population() == glider_second(x, y),
    ensures
        g.next_population() == glider_third(x, y),
{
    assert forall|p: (int, int)| g.next_population().contains(p) == glider_third(x, y).contains(
        p,
    ) by {
        lemma_neighborhood(g, p.0, p.1);
    }
    assert(g.next_population() =~= glider_third(x, y));
}

/// The third phase of a glider turns into the fourth.
proof fn lemma_glider_third_step(g: Generation, x: int, y: int)
    requires
        g.in_bounds(x, y),
        g.in_bounds(x + 3, y + 3),
        g.population() == glider_third(x, y),
    ensures
        g.next_population() == glider_fourth(x, y),
{
    assert forall|p: (int, int)| g.next_population().contains(p) == glider_fourth(x, y).contains(
        p,
    ) by {
        lemma_neighborhood(g, p.0, p.1);
    }
    assert(g.next_population() =~= glider_fourth(x, y));
}

/// The fourth phase of a glider turns into the first, one cell further down
/// and to the right.
proof fn lemma_glider_fourth_step(g: Generation, x: int, y: int)
    requires
        g.in_bounds(x, y),
        g.in_bounds(x + 3, y + 3),
        g.population() == glider_fourth(x, y),
    ensures
        g.next_population() == glider(x + 1, y + 1),
{
    assert forall|p: (int, int)| g.next_population().contains(p) == glider(x + 1, y + 1).contains(
        p,
    ) by {
        lemma_neighborhood(g, p.0, p.1);
    }
    assert(g.next_population() =~= glider(x + 1, y + 1));
}

/// A glider that is alone on the grid, with the four by four box at `(x, y)`
/// on the grid, passes through its four phases one generation at a time; the
/// fourth phase turns into the first, one cell further down and to the right.
pub proof fn lemma_glider_step(g: Generation, x: int, y: int)
    requires
        g.wf(),
        g.alive != g.dead,
        g.in_bounds(x, y),
        g.in_bounds(x + 3, y + 3),
    ensures
        g.population() == glider(x, y) ==> g.next().population() == glider_second(x, y),
        g.population() == glider_second(x, y) ==> g.next().population() == glider_third(x, y),
        g.population() == glider_third(x, y) ==> g.next().population() == glider_fourth(x, y),
        g.population() == glider_fourth(x, y) ==> g.next().population() == glider(x + 1, y + 1),
{
    g.lemma_next_population();
    if g.population() == glider(x, y) {
        lemma_glider_first_step(g, x, y);
    }
    if g.population() == glider_second(x, y) {
        lemma_glider_second_step(g, x, y);
    }
    if g.population() == glider_third(x, y) {
        lemma_glider_third_step(g, x, y);
    }
    if g.population() == glider_fourth(x, y) {
        lemma_glider_fourth_step(g, x, y);
    }
}

/// A glider passes through its second, third and fourth phase, and after
/// exactly four generations it has its first shape again, moved by one cell
/// down and one cell to the right.
pub proof fn lemma_glider_moves(g: Generation, x: int, y: int)
    requires
        g.wf(),
        g.alive != g.dead,
        g.in_bounds(x, y),
        g.in_bounds(x + 3, y + 3),
        g.population() == glider(x, y),
    ensures
        g.evolve(1).population() == glider_second(x, y),
        g.evolve(2).population() == glider_third(x, y),
        g.evolve(3).population() == glider_fourth(x, y),
        g.evolve(4).population() == glider(x + 1, y + 1),
{
    reveal_with_fuel(Generation::evolve, 5);
    let second = g.next();
    let third = second.next();
    let fourth = third.next();
    g.lemma_with_population(g.next_population());
    second.lemma_with_population(second.next_population());
    third.lemma_with_population(third.next_population());
    lemma_glider_step(g, x, y);
    lemma_glider_step(second, x, y);
    lemma_glider_step(third, x, y);
    lemma_glider_step(fourth, x, y);
}

} // verus!
