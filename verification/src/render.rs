//! Diff-based rendering. The renderer keeps the last frame it drew and, for
//! each new frame, emits a write for exactly the cells that changed — or for
//! every cell on the very first frame, to establish a correct baseline no
//! matter what the terminal held before. Performing the emitted writes on
//! the terminal is I/O and is left to the caller.

use vstd::prelude::*;

use crate::frame::{blank_grid, Frame};

verus! {

/// One terminal write: put `glyph` at column `x`, row `y`.
#[derive(Clone, Copy, PartialEq, Eq, Structural, Debug)]
pub struct CellWrite {
    pub x: usize,
    pub y: usize,
    pub glyph: char,
}

/// The write is in range, carries the new frame's glyph, and is emitted
/// only for a changed cell (unless the render is forced).
pub open spec fn valid_write(
    w: CellWrite,
    last: Seq<Seq<char>>,
    curr: Seq<Seq<char>>,
    width: int,
    height: int,
    force: bool,
) -> bool {
    &&& w.x < width
    &&& w.y < height
    &&& w.glyph == curr[w.x as int][w.y as int]
    &&& (force || last[w.x as int][w.y as int] != curr[w.x as int][w.y as int])
}

/// Some write in the list targets cell (x, y).
pub open spec fn contains_write(writes: Seq<CellWrite>, x: int, y: int) -> bool {
    exists|i: int| 0 <= i < writes.len() && (#[trigger] writes[i]).x == x && writes[i].y == y
}

/// Writes are ordered column-major, strictly: no coordinate appears twice.
pub open spec fn lex_before(a: CellWrite, b: CellWrite) -> bool {
    a.x < b.x || (a.x == b.x && a.y < b.y)
}

/// The full contract of a diff: every emitted write is valid, every cell
/// that must be written is covered, and the list is strictly ordered, so
/// each cell is written at most once.
pub open spec fn diff_ok(
    writes: Seq<CellWrite>,
    last: Seq<Seq<char>>,
    curr: Seq<Seq<char>>,
    width: int,
    height: int,
    force: bool,
) -> bool {
    &&& forall|i: int|
        0 <= i < writes.len() ==> valid_write(#[trigger] writes[i], last, curr, width, height, force)
    &&& forall|x: int, y: int|
        0 <= x < width && 0 <= y < height && (force || last[x][y] != curr[x][y])
            ==> #[trigger] contains_write(writes, x, y)
    &&& forall|i: int, j: int|
        #![trigger writes[i], writes[j]]
        0 <= i < j < writes.len() ==> lex_before(writes[i], writes[j])
}

/// A diff against an unchanged frame holds no writes at all: rendering the
/// same content twice costs nothing the second time.
pub proof fn lemma_unchanged_diff_empty(
    writes: Seq<CellWrite>,
    grid: Seq<Seq<char>>,
    width: int,
    height: int,
)
    requires
        diff_ok(writes, grid, grid, width, height, false),
    ensures
        writes.len() == 0,
{
    if writes.len() > 0 {
        assert(valid_write(writes[0], grid, grid, width, height, false));
        assert(false);
    }
}

/// No diff ever writes one cell twice: the strict column-major order makes
/// every targeted coordinate distinct.
pub proof fn lemma_diff_writes_each_cell_once(
    writes: Seq<CellWrite>,
    last: Seq<Seq<char>>,
    curr: Seq<Seq<char>>,
    width: int,
    height: int,
    force: bool,
)
    requires
        diff_ok(writes, last, curr, width, height, force),
    ensures
        forall|i: int, j: int|
            #![trigger writes[i], writes[j]]
            0 <= i < j < writes.len() ==> !(writes[i].x == writes[j].x && writes[i].y
                == writes[j].y),
{
    assert forall|i: int, j: int|
        #![trigger writes[i], writes[j]]
        0 <= i < j < writes.len() implies !(writes[i].x == writes[j].x && writes[i].y
        == writes[j].y) by {
        assert(lex_before(writes[i], writes[j]));
    }
}

/// The writes needed to bring a terminal showing `last` up to `curr`: one
/// write per changed cell, or per cell when `force` is set.
pub fn frame_writes(last: &Frame, curr: &Frame, force: bool) -> (writes: Vec<CellWrite>)
    requires
        last.wf(),
        curr.wf(),
        last.width == curr.width,
        last.height == curr.height,
    ensures
        diff_ok(writes@, last@, curr@, curr.width as int, curr.height as int, force),
        force ==> writes@.len() == curr.width * curr.height,
        !force && last@ == curr@ ==> writes@.len() == 0,
{
    let width = curr.width;
    let height = curr.height;
    let mut writes: Vec<CellWrite> = Vec::new();
    let mut x: usize = 0;
    while x < width
        invariant
            last.wf(),
            curr.wf(),
            last.width == width,
            curr.width == width,
            last.height == height,
            curr.height == height,
            x <= width,
            forall|i: int|
                0 <= i < writes@.len() ==> valid_write(
                    #[trigger] writes@[i],
                    last@,
                    curr@,
                    width as int,
                    height as int,
                    force,
                ),
            forall|i: int| 0 <= i < writes@.len() ==> (#[trigger] writes@[i]).x < x,
            forall|cx: int, cy: int|
                0 <= cx < x && 0 <= cy < height && (force || last@[cx][cy] != curr@[cx][cy])
                    ==> #[trigger] contains_write(writes@, cx, cy),
            forall|i: int, j: int|
                #![trigger writes@[i], writes@[j]]
                0 <= i < j < writes@.len() ==> lex_before(writes@[i], writes@[j]),
            force ==> writes@.len() == x * height,
        decreases width - x,
    {
        let mut y: usize = 0;
        while y < height
            invariant
                last.wf(),
                curr.wf(),
                last.width == width,
                curr.width == width,
                last.height == height,
                curr.height == height,
                x < width,
                y <= height,
                forall|i: int|
                    0 <= i < writes@.len() ==> valid_write(
                        #[trigger] writes@[i],
                        last@,
                        curr@,
                        width as int,
                        height as int,
                        force,
                    ),
                forall|i: int|
                    0 <= i < writes@.len() ==> ((#[trigger] writes@[i]).x < x || (writes@[i].x == x
                        && writes@[i].y < y)),
                forall|cx: int, cy: int|
                    0 <= cx < x && 0 <= cy < height && (force || last@[cx][cy] != curr@[cx][cy])
                        ==> #[trigger] contains_write(writes@, cx, cy),
                forall|cy: int|
                    0 <= cy < y && (force || last@[x as int][cy] != curr@[x as int][cy])
                        ==> #[trigger] contains_write(writes@, x as int, cy),
                forall|i: int, j: int|
                    #![trigger writes@[i], writes@[j]]
                    0 <= i < j < writes@.len() ==> lex_before(writes@[i], writes@[j]),
                force ==> writes@.len() == x * height + y,
            decreases height - y,
        {
            let changed = force || last.get(x, y) != curr.get(x, y);
            if changed {
                let w = CellWrite { x, y, glyph: curr.get(x, y) };
                let ghost before = writes@;
                writes.push(w);
                proof {
                    assert(writes@ == before.push(w));
                    assert(forall|i: int| 0 <= i < before.len() ==> writes@[i] == before[i]);
                    assert(writes@[before.len() as int] == w);
                    assert forall|cx: int, cy: int|
                        0 <= cx < x && 0 <= cy < height && (force || last@[cx][cy]
                            != curr@[cx][cy]) implies #[trigger] contains_write(
                        writes@,
                        cx,
                        cy,
                    ) by {
                        assert(contains_write(before, cx, cy));
                        let i = choose|i: int|
                            0 <= i < before.len() && (#[trigger] before[i]).x == cx
                                && before[i].y == cy;
                        assert(writes@[i].x == cx && writes@[i].y == cy);
                    }
                    assert forall|cy: int|
                        0 <= cy < y + 1 && (force || last@[x as int][cy]
                            != curr@[x as int][cy]) implies #[trigger] contains_write(
                        writes@,
                        x as int,
                        cy,
                    ) by {
                        if cy < y {
                            assert(contains_write(before, x as int, cy));
                            let i = choose|i: int|
                                0 <= i < before.len() && (#[trigger] before[i]).x == x as int
                                    && before[i].y == cy;
                            assert(writes@[i].x == x as int && writes@[i].y == cy);
                        } else {
                            assert(writes@[before.len() as int].x == x as int
                                && writes@[before.len() as int].y == cy);
                        }
                    }
                }
            }
            y = y + 1;
        }
        proof {
            if force {
                assert(x * height + height == (x + 1) * height) by (nonlinear_arith);
            }
        }
        x = x + 1;
    }
    proof {
        if !force && last@ == curr@ {
            if writes@.len() > 0 {
                assert(valid_write(
                    writes@[0],
                    last@,
                    curr@,
                    width as int,
                    height as int,
                    force,
                ));
                assert(false);
            }
        }
        if force {
            assert(width * height == curr.width * curr.height);
        }
    }
    writes
}

/// The renderer's state: the last frame written to the terminal, and
/// whether the forced first render is still pending.
pub struct Renderer {
    pub last: Frame,
    pub first: bool,
}

impl Renderer {
    pub open spec fn wf(&self) -> bool {
        self.last.wf()
    }

    /// A renderer for a terminal of the given dimensions; its baseline is a
    /// blank frame and its first render will be forced.
    pub fn new(width: usize, height: usize) -> (r: Renderer)
        ensures
            r.wf(),
            r.last.width == width,
            r.last.height == height,
            r.last@ == blank_grid(width as int, height as int),
            r.first,
    {
        Renderer { last: Frame::new(width, height), first: true }
    }

    /// Consume the next frame in order: emit the writes that bring the
    /// terminal up to it (all cells on the first render, only changed cells
    /// afterwards), and remember the frame as the new baseline.
    pub fn receive(&mut self, frame: Frame) -> (writes: Vec<CellWrite>)
        requires
            old(self).wf(),
            frame.wf(),
            frame.width == old(self).last.width,
            frame.height == old(self).last.height,
        ensures
            final(self).wf(),
            final(self).last == frame,
            !final(self).first,
            diff_ok(
                writes@,
                old(self).last@,
                frame@,
                frame.width as int,
                frame.height as int,
                old(self).first,
            ),
            old(self).first ==> writes@.len() == frame.width * frame.height,
            !old(self).first && old(self).last@ == frame@ ==> writes@.len() == 0,
    {
        let writes = frame_writes(&self.last, &frame, self.first);
        self.last = frame;
        self.first = false;
        writes
    }
}

} // verus!
