//! Seeding the first generation from patterns.

use vstd::prelude::*;
use crate::framebuffer::Framebuffer;
use crate::generation::Generation;

verus! {

/// The position at which cell `j` of pattern `i` is placed: the cell's offset
/// added to the anchor of its pattern.
pub open spec fn placed_at(
    patterns: Seq<(usize, usize, Vec<(usize, usize)>)>,
    i: int,
    j: int,
) -> (int, int) {
    (patterns[i].2@[j].0 + patterns[i].0, patterns[i].2@[j].1 + patterns[i].1)
}

/// The positions at which the cells of all patterns are placed, on the grid
/// or beyond its edges.
pub open spec fn placed_cells(
    patterns: Seq<(usize, usize, Vec<(usize, usize)>)>,
) -> Set<(int, int)> {
    Set::new(
        |p: (int, int)|
            exists|i: int, j: int|
                0 <= i < patterns.len() && 0 <= j < patterns[i].2@.len() && #[trigger] placed_at(
                    patterns,
                    i,
                    j,
                ) == p,
    )
}

/// The positions at which the patterns before pattern `i`, and the cells
/// before cell `j` of pattern `i`, are placed.
spec fn placed_before(
    patterns: Seq<(usize, usize, Vec<(usize, usize)>)>,
    i: int,
    j: int,
) -> Set<(int, int)> {
    Set::new(
        |p: (int, int)|
            exists|a: int, b: int|
                0 <= a < patterns.len() && 0 <= b < patterns[a].2@.len() && (a < i || (a == i && b
                    < j)) && #[trigger] placed_at(patterns, a, b) == p,
    )
}

/// With distinct colors, seeding makes alive the placed cells that lie on the
/// grid and no others: what a pattern places beyond the edges is left out, and
/// no cell holds a third color.
pub proof fn lemma_seeding_clips(g: Generation, patterns: Seq<(usize, usize, Vec<(usize, usize)>)>)
    requires
        g.alive != g.dead,
    ensures
        g.with_population(placed_cells(patterns)).population() == placed_cells(
            patterns,
        ).intersect(g.positions()),
        g.with_population(placed_cells(patterns)).two_colored(),
{
    g.lemma_with_population(placed_cells(patterns));
    g.lemma_population_of_with_population(placed_cells(patterns));
}

/// Clears the grid and makes alive the cells that the patterns describe.
///
/// Each pattern is an anchor `(x, y)` with a list of offsets from it. A cell
/// that would lie beyond the edges of the grid is left out; the rest of its
/// pattern is still placed.
pub fn initialize_patterns(
    framebuffer: &mut Framebuffer,
    patterns: Vec<(usize, usize, Vec<(usize, usize)>)>,
)
    requires
        old(framebuffer).wf(),
    ensures
        final(framebuffer)@ == old(framebuffer)@.with_population(placed_cells(patterns@)),
        final(framebuffer)@.two_colored(),
        final(framebuffer).wf(),
{
    framebuffer.clear();
    let ghost grid = old(framebuffer)@;
    proof {
        grid.lemma_cleared_is_empty();
        assert(placed_before(patterns@, 0, 0) =~= Set::empty());
    }
    for i in 0..patterns.len()
        invariant
            framebuffer.wf(),
            grid == old(framebuffer)@,
            framebuffer@ == grid.with_population(placed_before(patterns@, i as int, 0)),
    {
        let offset_x = patterns[i].0;
        let offset_y = patterns[i].1;
        let pattern = &patterns[i].2;
        for j in 0..pattern.len()
            invariant
                i < patterns.len(),
                framebuffer.wf(),
                grid == old(framebuffer)@,
                offset_x == patterns@[i as int].0,
                offset_y == patterns@[i as int].1,
                pattern@ == patterns@[i as int].2@,
                framebuffer@ == grid.with_population(placed_before(patterns@, i as int, j as int)),
        {
            let (x, y) = pattern[j];
            let ghost before = placed_before(patterns@, i as int, j as int);
            let ghost after = placed_before(patterns@, i as int, j + 1);
            proof {
                framebuffer.lemma_dimensions_fit();
                grid.lemma_with_population(before);
                grid.lemma_with_population(after);
                assert(after =~= before.insert(placed_at(patterns@, i as int, j as int)));
            }
            match (x.checked_add(offset_x), y.checked_add(offset_y)) {
                (Some(px), Some(py)) if px < framebuffer.width() && py < framebuffer.height() => {
                    framebuffer.point(px, py);
                    proof {
                        grid.lemma_with_population_insert(before, px as int, py as int);
                    }
                },
                _ => {
                    proof {
                        grid.lemma_with_population_on_grid(before, after);
                    }
                },
            }
        }
        proof {
            assert(placed_before(patterns@, i as int, pattern@.len() as int) =~= placed_before(
                patterns@,
                i + 1,
                0,
            ));
        }
    }
    proof {
        assert(placed_before(patterns@, patterns@.len() as int, 0) =~= placed_cells(patterns@));
        grid.lemma_with_population(placed_cells(patterns@));
    }
}

} // verus!
