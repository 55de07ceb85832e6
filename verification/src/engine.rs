//! The automaton engine: neighbor counting and the step to the next
//! generation.

use vstd::prelude::*;
use crate::framebuffer::Framebuffer;
use crate::generation::{rule, Generation};

verus! {

/// The offsets from a cell to the eight cells that touch it.
spec fn neighbor_offsets() -> Seq<(int, int)> {
    seq![(-1, -1), (-1, 0), (-1, 1), (0, -1), (0, 1), (1, -1), (1, 0), (1, 1)]
}

/// The number of live cells among the first `k` neighbors of `(x, y)`.
spec fn live_among(g: Generation, x: int, y: int, k: nat) -> nat
    decreases k,
{
    if k == 0 {
        0
    } else {
        let (dx, dy) = neighbor_offsets()[k - 1];
        live_among(g, x, y, (k - 1) as nat) + g.live(x + dx, y + dy)
    }
}

/// Counting neighbor by neighbor gives the number of live neighbors.
proof fn lemma_live_among_all(g: Generation, x: int, y: int)
    ensures
        live_among(g, x, y, 8) == g.live_neighbors(x, y),
{
    reveal_with_fuel(live_among, 9);
}

/// Whether the cell `dx` columns and `dy` rows away from `(x, y)` is alive.
/// A position beyond the edges of the grid is dead.
fn neighbor_is_alive(
    framebuffer: &Framebuffer,
    x: usize,
    y: usize,
    dx: isize,
    dy: isize,
) -> (alive: bool)
    requires
        framebuffer.wf(),
    ensures
        alive == framebuffer@.is_alive(x + dx, y + dy),
{
    proof {
        framebuffer.lemma_dimensions_fit();
    }
    match (x.checked_add_signed(dx), y.checked_add_signed(dy)) {
        (Some(nx), Some(ny)) => framebuffer.is_alive(nx, ny),
        _ => false,
    }
}

/// Counts the live cells among the eight cells that touch `(x, y)`.
///
/// Neighbors beyond the edges of the grid count as dead, so a cell in a
/// corner has at most three live neighbors and a cell on an edge at most
/// five.
pub fn count_live_neighbors(framebuffer: &Framebuffer, x: usize, y: usize) -> (count: u32)
    requires
        framebuffer.wf(),
    ensures
        count == framebuffer@.live_neighbors(x as int, y as int),
{
    let neighbors: [(isize, isize); 8] = [
        (-1, -1), (-1, 0), (-1, 1),
        (0, -1), (0, 1),
        (1, -1), (1, 0), (1, 1),
    ];
    let mut count: u32 = 0;
    let mut i: usize = 0;
    while i < 8
        invariant
            i <= 8,
            framebuffer.wf(),
            forall|k: int| 0 <= k < 8 ==> neighbors@[k].0 == neighbor_offsets()[k].0
                && neighbors@[k].1 == neighbor_offsets()[k].1,
            count == live_among(framebuffer@, x as int, y as int, i as nat),
            count <= i,
        decreases 8 - i,
    {
        let (dx, dy) = neighbors[i];
        if neighbor_is_alive(framebuffer, x, y, dx, dy) {
            count += 1;
        }
        i += 1;
    }
    proof {
        lemma_live_among_all(framebuffer@, x as int, y as int);
    }
    count
}

/// Decides whether a cell is alive in the next generation, from its present
/// state and the number of its live neighbors.
pub fn next_state(is_alive: bool, live_neighbors: u32) -> (alive: bool)
    ensures
        alive == rule(is_alive, live_neighbors as nat),
{
    match (is_alive, live_neighbors) {
        (true, 2) | (true, 3) => true,
        (true, _) => false,
        (false, 3) => true,
        _ => false,
    }
}

/// Computes the generation that follows the one in `framebuffer` and returns
/// it as a new buffer in row-major order.
///
/// Every cell of the result is decided from the generation in `framebuffer`
/// alone, which is only read: the result is written to a buffer of its own.
/// `width` and `height` are the dimensions of the grid in `framebuffer`.
pub fn next_generation(
    framebuffer: &Framebuffer,
    width: usize,
    height: usize,
) -> (new_buffer: Vec<u32>)
    requires
        framebuffer.wf(),
        width == framebuffer@.width,
        height == framebuffer@.height,
    ensures
        new_buffer@ == framebuffer@.next().cells,
        framebuffer@.next().two_colored(),
{
    proof {
        framebuffer.lemma_dimensions_fit();
        framebuffer@.lemma_with_population(framebuffer@.next_population());
    }
    let ghost next = framebuffer@.next();
    let mut new_buffer = vec![0u32; width * height];
    proof {
        assert(0 * width == 0 && height * width == width * height) by (nonlinear_arith);
    }

    for y in 0..height
        invariant
            framebuffer.wf(),
            width == framebuffer@.width,
            height == framebuffer@.height,
            next == framebuffer@.next(),
            next.wf(),
            new_buffer@.len() == width * height <= usize::MAX,
            height * width == width * height,
            forall|i: int| 0 <= i < y * width ==> new_buffer@[i] == next.cells[i],
    {
        for x in 0..width
            invariant
                y < height,
                framebuffer.wf(),
                width == framebuffer@.width,
                height == framebuffer@.height,
                next == framebuffer@.next(),
                next.wf(),
                new_buffer@.len() == width * height <= usize::MAX,
                forall|i: int| 0 <= i < y * width + x ==> new_buffer@[i] == next.cells[i],
        {
            let live_neighbors = count_live_neighbors(framebuffer, x, y);
            let is_alive = framebuffer.is_alive(x, y);

            let new_state = if next_state(is_alive, live_neighbors) {
                framebuffer.current_color()
            } else {
                framebuffer.background_color()
            };

            proof {
                framebuffer@.lemma_index_of(x as int, y as int);
                framebuffer@.lemma_with_population(framebuffer@.next_population());
                assert(0 <= y * width) by (nonlinear_arith);
                assert(next.cell(x as int, y as int) == new_state);
            }
            new_buffer.set(y * width + x, new_state);
        }
        proof {
            assert(y * width + width == (y + 1) * width) by (nonlinear_arith);
        }
    }

    proof {
        assert(new_buffer@ =~= next.cells);
    }
    new_buffer
}

/// Puts the next generation in place of the one in `framebuffer`.
///
/// The whole of the next generation is decided from the generation that was
/// there before the call; no cell sees a neighbor that was already rewritten.
pub fn advance(framebuffer: &mut Framebuffer)
    requires
        old(framebuffer).wf(),
    ensures
        final(framebuffer)@ == old(framebuffer)@.next(),
        final(framebuffer)@.two_colored(),
        final(framebuffer).wf(),
{
    let new_buffer = next_generation(framebuffer, framebuffer.width(), framebuffer.height());
    proof {
        framebuffer@.lemma_with_population(framebuffer@.next_population());
    }
    framebuffer.replace_buffer(new_buffer);
}

/// Decides one turn of the host's loop from what the display reports.
///
/// While the display is open and the exit key is up, the grid moves on to the
/// next generation and the result is `true`: the host shows the buffer and
/// waits for the next frame. Otherwise the grid stays as it is and the result
/// is `false`: the host stops.
pub fn run_frame(
    framebuffer: &mut Framebuffer,
    display_open: bool,
    exit_key_down: bool,
) -> (running: bool)
    requires
        old(framebuffer).wf(),
    ensures
        running == (display_open && !exit_key_down),
        running ==> final(framebuffer)@ == old(framebuffer)@.next(),
        !running ==> final(framebuffer)@ == old(framebuffer)@,
        final(framebuffer).wf(),
{
    if display_open && !exit_key_down {
        advance(framebuffer);
        true
    } else {
        false
    }
}

} // verus!
