//! The grid: a pixel buffer that stores the state of every cell.

use vstd::prelude::*;
use crate::generation::Generation;

verus! {

/// The color that a new grid writes for dead cells.
pub const DEFAULT_BACKGROUND_COLOR: u32 = 0x000000;

/// The color that a new grid writes for live cells.
pub const DEFAULT_CURRENT_COLOR: u32 = 0xFFFFFF;

/// A grid of fixed size whose cells are 32-bit colors in row-major order, so
/// that the buffer can be shown as it is.
///
/// A cell is alive exactly when it holds the current color. The background
/// color is the one written to dead cells.
pub struct Framebuffer {
    width: usize,
    height: usize,
    buffer: Vec<u32>,
    background_color: u32,
    current_color: u32,
}

impl View for Framebuffer {
    type V = Generation;

    closed spec fn view(&self) -> Generation {
        Generation {
            width: self.width as nat,
            height: self.height as nat,
            cells: self.buffer@,
            alive: self.current_color,
            dead: self.background_color,
        }
    }
}

impl Framebuffer {
    /// The buffer holds exactly one color for every position of the grid.
    pub open spec fn wf(&self) -> bool {
        self@.wf()
    }

    /// Both dimensions of a grid in memory fit in `usize`, and so does the
    /// length of its buffer.
    pub proof fn lemma_dimensions_fit(&self)
        ensures
            self@.width <= usize::MAX,
            self@.height <= usize::MAX,
            self@.cells.len() <= usize::MAX,
    {
        assert(self.buffer.len() == self.buffer@.len());
    }

    /// The buffer index of a position of the grid can be computed in `usize`
    /// and lies within the buffer.
    proof fn lemma_index_fits(&self, x: usize, y: usize)
        requires
            self.wf(),
            self@.in_bounds(x as int, y as int),
        ensures
            0 <= y * self.width <= y * self.width + x < self.buffer.len(),
            y * self.width + x == self@.index_of(x as int, y as int),
    {
        self@.lemma_index_of(x as int, y as int);
        assert(0 <= y * self.width) by (nonlinear_arith);
    }

    /// A grid of the given size with every cell dead.
    pub fn new(width: usize, height: usize) -> (framebuffer: Framebuffer)
        requires
            width * height <= usize::MAX,
        ensures
            framebuffer@ == (Generation {
                width: width as nat,
                height: height as nat,
                cells: Seq::new((width * height) as nat, |i: int| DEFAULT_BACKGROUND_COLOR),
                alive: DEFAULT_CURRENT_COLOR,
                dead: DEFAULT_BACKGROUND_COLOR,
            }),
            framebuffer.wf(),
    {
        let buffer = vec![DEFAULT_BACKGROUND_COLOR; width * height];
        let framebuffer = Framebuffer {
            width,
            height,
            buffer,
            background_color: DEFAULT_BACKGROUND_COLOR,
            current_color: DEFAULT_CURRENT_COLOR,
        };
        proof {
            assert(framebuffer@.cells =~= Seq::new(
                (width * height) as nat,
                |i: int| DEFAULT_BACKGROUND_COLOR,
            ));
        }
        framebuffer
    }

    /// The number of columns.
    pub fn width(&self) -> (width: usize)
        ensures
            width == self@.width,
    {
        self.width
    }

    /// The number of rows.
    pub fn height(&self) -> (height: usize)
        ensures
            height == self@.height,
    {
        self.height
    }

    /// The colors of all cells in row-major order, ready to be shown.
    pub fn buffer(&self) -> (buffer: &Vec<u32>)
        ensures
            buffer@ == self@.cells,
    {
        &self.buffer
    }

    /// The color that marks a cell alive.
    pub fn current_color(&self) -> (color: u32)
        ensures
            color == self@.alive,
    {
        self.current_color
    }

    /// The color that marks a cell dead.
    pub fn background_color(&self) -> (color: u32)
        ensures
            color == self@.dead,
    {
        self.background_color
    }

    /// Chooses the color that marks a cell alive. No cell is rewritten.
    pub fn set_current_color(&mut self, color: u32)
        ensures
            final(self)@ == (Generation { alive: color, ..old(self)@ }),
    {
        self.current_color = color;
    }

    /// Chooses the color that marks a cell dead. No cell is rewritten.
    pub fn set_background_color(&mut self, color: u32)
        ensures
            final(self)@ == (Generation { dead: color, ..old(self)@ }),
    {
        self.background_color = color;
    }

    /// The color stored at `(x, y)`.
    pub fn get(&self, x: usize, y: usize) -> (color: u32)
        requires
            self.wf(),
            self@.in_bounds(x as int, y as int),
        ensures
            color == self@.cell(x as int, y as int),
    {
        proof {
            self.lemma_index_fits(x, y);
        }
        self.buffer[y * self.width + x]
    }

    /// Whether the cell at `(x, y)` is alive. A position beyond the edges of
    /// the grid is dead.
    pub fn is_alive(&self, x: usize, y: usize) -> (alive: bool)
        requires
            self.wf(),
        ensures
            alive == self@.is_alive(x as int, y as int),
    {
        x < self.width && y < self.height && self.get(x, y) == self.current_color
    }

    /// Stores `value` at `(x, y)` and leaves every other cell as it was.
    pub fn set(&mut self, x: usize, y: usize, value: u32)
        requires
            old(self).wf(),
            old(self)@.in_bounds(x as int, y as int),
        ensures
            final(self)@ == (Generation {
                cells: old(self)@.cells.update(old(self)@.index_of(x as int, y as int), value),
                ..old(self)@
            }),
            final(self).wf(),
    {
        proof {
            self.lemma_index_fits(x, y);
        }
        let index: usize = y * self.width + x;
        self.buffer.set(index, value);
    }

    /// Makes the cell at `(x, y)` alive and leaves every other cell as it was.
    pub fn point(&mut self, x: usize, y: usize)
        requires
            old(self).wf(),
            old(self)@.in_bounds(x as int, y as int),
        ensures
            final(self)@ == (Generation {
                cells: old(self)@.cells.update(
                    old(self)@.index_of(x as int, y as int),
                    old(self)@.alive,
                ),
                ..old(self)@
            }),
            final(self).wf(),
    {
        let color = self.current_color;
        self.set(x, y, color);
    }

    /// Makes every cell dead.
    pub fn clear(&mut self)
        requires
            old(self).wf(),
        ensures
            final(self)@ == old(self)@.cleared(),
            final(self)@.two_colored(),
            final(self).wf(),
    {
        let total: usize = self.buffer.len();
        let mut i: usize = 0;
        while i < total
            invariant
                i <= total,
                total == self.buffer.len(),
                self.width == old(self).width,
                self.height == old(self).height,
                self.current_color == old(self).current_color,
                self.background_color == old(self).background_color,
                self.wf(),
                forall|k: int| 0 <= k < i ==> self.buffer[k] == self.background_color,
            decreases total - i,
        {
            let color = self.background_color;
            self.buffer.set(i, color);
            i += 1;
        }
        proof {
            assert(self@.cells =~= old(self)@.cleared().cells);
        }
    }

    /// Puts a whole new generation in place of the present one.
    pub fn replace_buffer(&mut self, buffer: Vec<u32>)
        requires
            buffer@.len() == old(self)@.width * old(self)@.height,
        ensures
            final(self)@ == (Generation { cells: buffer@, ..old(self)@ }),
            final(self).wf(),
    {
        self.buffer = buffer;
    }
}

} // verus!
