//! The frame buffer: a fixed-size grid of glyph cells that every entity
//! draws into. Cells are indexed column-first, `cells[x][y]`, and a frame's
//! dimensions never change after construction. Out-of-range writes are
//! rejected (a no-op), never undefined.

use vstd::prelude::*;

verus! {

/// Default board width in columns.
pub const NUM_COLS: usize = 40;
/// Default board height in rows.
pub const NUM_ROWS: usize = 20;
/// The background glyph a blank frame is filled with.
pub const BACKGROUND: char = ' ';

/// One fully composed snapshot of the screen grid for a single tick.
pub struct Frame {
    pub width: usize,
    pub height: usize,
    pub cells: Vec<Vec<char>>,
}

/// A grid of `width` columns of `height` cells each.
pub open spec fn grid_wf(grid: Seq<Seq<char>>, width: int, height: int) -> bool {
    &&& grid.len() == width
    &&& forall|x: int| 0 <= x < width ==> (#[trigger] grid[x]).len() == height
}

/// A blank grid: every cell holds the background glyph.
pub open spec fn blank_grid(width: int, height: int) -> Seq<Seq<char>> {
    Seq::new(width as nat, |x: int| Seq::new(height as nat, |y: int| BACKGROUND))
}

/// The grid with the cell at (x, y) set to `glyph`; unchanged when (x, y)
/// is out of range.
pub open spec fn grid_set(
    grid: Seq<Seq<char>>,
    width: int,
    height: int,
    x: int,
    y: int,
    glyph: char,
) -> Seq<Seq<char>> {
    if 0 <= x < width && 0 <= y < height {
        grid.update(x, grid[x].update(y, glyph))
    } else {
        grid
    }
}

impl View for Frame {
    type V = Seq<Seq<char>>;

    open spec fn view(&self) -> Seq<Seq<char>> {
        self.cells@.map(|x: int, col: Vec<char>| col@)
    }
}

impl Frame {
    /// Structural invariant: the grid really has the declared dimensions.
    pub open spec fn wf(&self) -> bool {
        grid_wf(self@, self.width as int, self.height as int)
    }

    /// A blank frame of the given dimensions, all cells background.
    pub fn new(width: usize, height: usize) -> (frame: Frame)
        ensures
            frame.wf(),
            frame.width == width,
            frame.height == height,
            frame@ =~~= blank_grid(width as int, height as int),
    {
        let mut cells: Vec<Vec<char>> = Vec::new();
        let mut x: usize = 0;
        while x < width
            invariant
                x <= width,
                cells@.len() == x,
                forall|i: int| 0 <= i < x ==> (#[trigger] cells@[i])@ =~= Seq::new(
                    height as nat,
                    |y: int| BACKGROUND,
                ),
            decreases width - x,
        {
            let mut col: Vec<char> = Vec::new();
            let mut y: usize = 0;
            while y < height
                invariant
                    y <= height,
                    col@.len() == y,
                    forall|j: int| 0 <= j < y ==> col@[j] == BACKGROUND,
                decreases height - y,
            {
                col.push(BACKGROUND);
                y = y + 1;
            }
            assert(col@ =~= Seq::new(height as nat, |j: int| BACKGROUND));
            cells.push(col);
            x = x + 1;
        }
        Frame { width, height, cells }
    }

    /// The glyph at (x, y).
    pub fn get(&self, x: usize, y: usize) -> (glyph: char)
        requires
            self.wf(),
            x < self.width,
            y < self.height,
        ensures
            glyph == self@[x as int][y as int],
    {
        proof {
            assert(self@.len() == self.cells@.len());
            assert(self@[x as int] == self.cells@[x as int]@);
        }
        self.cells[x][y]
    }

    /// Write `glyph` at (x, y); an out-of-range write is rejected and the
    /// frame is left unchanged.
    pub fn set(&mut self, x: usize, y: usize, glyph: char)
        requires
            old(self).wf(),
        ensures
            final(self).wf(),
            final(self).width == old(self).width,
            final(self).height == old(self).height,
            final(self)@ == grid_set(
                old(self)@,
                old(self).width as int,
                old(self).height as int,
                x as int,
                y as int,
                glyph,
            ),
    {
        if x < self.width && y < self.height {
            proof {
                assert(self@.len() == self.cells@.len());
                assert(self@[x as int] == self.cells@[x as int]@);
            }
            self.cells[x][y] = glyph;
            assert(self@ =~~= grid_set(
                old(self)@,
                old(self).width as int,
                old(self).height as int,
                x as int,
                y as int,
                glyph,
            ));
        } else {
            assert(self@ =~~= grid_set(
                old(self)@,
                old(self).width as int,
                old(self).height as int,
                x as int,
                y as int,
                glyph,
            ));
        }
    }
}

/// A blank frame of the default board dimensions.
pub fn new_frame() -> (frame: Frame)
    ensures
        frame.wf(),
        frame.width == NUM_COLS,
        frame.height == NUM_ROWS,
        frame@ == blank_grid(NUM_COLS as int, NUM_ROWS as int),
{
    Frame::new(NUM_COLS, NUM_ROWS)
}

} // verus!
