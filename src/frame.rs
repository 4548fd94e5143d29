//! Assembling a frame from scanlines rendered in any order, and splitting a
//! frame's lines into contiguous ranges of work.
use vstd::prelude::*;
use crate::pixmap::{RaytracerPixmap, lemma_grid_cells_apart};

verus! {

/// One rendered scanline, tagged with the frame and the frame size it was
/// rendered for.
pub struct RenderedLine<T> {
    pub frame: usize,
    pub line: usize,
    pub rendered_line: Vec<T>,
    pub anti_aliased: bool,
    pub size: (usize, usize),
}

/// The frame on display: its pixels and which lines have been supersampled.
pub struct FrameContext<T> {
    frame: usize,
    pixmap: RaytracerPixmap<T>,
    anti_aliased_lines: Vec<bool>,
}

impl<T: Copy> FrameContext<T> {
    pub closed spec fn spec_frame(&self) -> usize {
        self.frame
    }

    pub closed spec fn spec_pixmap(&self) -> RaytracerPixmap<T> {
        self.pixmap
    }

    /// For each line, whether it holds supersampled pixels.
    pub closed spec fn anti_aliased(&self) -> Seq<bool> {
        self.anti_aliased_lines@
    }

    pub open spec fn wf(&self) -> bool {
        &&& self.spec_pixmap().wf()
        &&& self.anti_aliased().len() == self.spec_pixmap().spec_height()
    }

    /// Whether a line belongs to this frame: same frame, same size, a line
    /// in range and one pixel per column. Any other line is stale.
    pub open spec fn accepts(&self, line: &RenderedLine<T>) -> bool {
        &&& line.frame == self.spec_frame()
        &&& line.size.0 == self.spec_pixmap().spec_width()
        &&& line.size.1 == self.spec_pixmap().spec_height()
        &&& line.line < self.spec_pixmap().spec_height()
        &&& line.rendered_line@.len() == self.spec_pixmap().spec_width()
    }

    /// Frame `frame` of `width` × `height` pixels, all `fill`, no line
    /// supersampled.
    pub fn new(frame: usize, width: usize, height: usize, fill: T) -> (r: Self)
        requires
            width * height <= usize::MAX,
        ensures
            r.wf(),
            r.spec_frame() == frame,
            r.spec_pixmap().spec_width() == width,
            r.spec_pixmap().spec_height() == height,
            forall|i: int|
                0 <= i < r.spec_pixmap().pixels().len() ==> r.spec_pixmap().pixels()[i] == fill,
            forall|y: int| 0 <= y < height ==> !r.anti_aliased()[y],
    {
        let pixmap = RaytracerPixmap::new(width, height, fill);
        let mut anti_aliased_lines: Vec<bool> = Vec::new();
        let mut i: usize = 0;
        while i < height
            invariant
                i <= height,
                anti_aliased_lines@.len() == i,
                forall|y: int| 0 <= y < i ==> !anti_aliased_lines@[y],
            decreases height - i,
        {
            anti_aliased_lines.push(false);
            i = i + 1;
        }
        FrameContext { frame, pixmap, anti_aliased_lines }
    }

    pub fn frame(&self) -> (r: usize)
        ensures
            r == self.spec_frame(),
    {
        self.frame
    }

    pub fn pixmap(&self) -> (r: &RaytracerPixmap<T>)
        ensures
            *r == self.spec_pixmap(),
    {
        &self.pixmap
    }

    /// Whether line `y` holds supersampled pixels.
    pub fn line_anti_aliased(&self, y: usize) -> (r: bool)
        requires
            self.wf(),
            y < self.spec_pixmap().spec_height(),
        ensures
            r == self.anti_aliased()[y as int],
    {
        self.anti_aliased_lines[y]
    }

    /// Records whether line `y` is supersampled; tells whether that changed.
    pub fn set_line_anti_aliased(&mut self, y: usize, anti_aliased: bool) -> (changed: bool)
        requires
            old(self).wf(),
            y < old(self).spec_pixmap().spec_height(),
        ensures
            final(self).wf(),
            final(self).spec_frame() == old(self).spec_frame(),
            final(self).spec_pixmap() == old(self).spec_pixmap(),
            final(self).anti_aliased() == old(self).anti_aliased().update(y as int, anti_aliased),
            changed == (old(self).anti_aliased()[y as int] != anti_aliased),
    {
        let changed = self.anti_aliased_lines[y] != anti_aliased;
        self.anti_aliased_lines.set(y, anti_aliased);
        changed
    }

    /// Whether `line` belongs to this frame.
    pub fn is_current(&self, line: &RenderedLine<T>) -> (r: bool)
        ensures
            r == self.accepts(line),
    {
        line.frame == self.frame && line.size.0 == self.pixmap.get_width() && line.size.1
            == self.pixmap.get_height() && line.line < self.pixmap.get_height()
            && line.rendered_line.len() == self.pixmap.get_width()
    }

    /// Writes a line of this frame into place and records whether it was
    /// supersampled; a stale line changes nothing. Tells whether the line
    /// was applied.
    pub fn apply_line(&mut self, line: &RenderedLine<T>) -> (applied: bool)
        requires
            old(self).wf(),
        ensures
            final(self).wf(),
            applied == old(self).accepts(line),
            final(self).spec_frame() == old(self).spec_frame(),
            final(self).spec_pixmap().spec_width() == old(self).spec_pixmap().spec_width(),
            final(self).spec_pixmap().spec_height() == old(self).spec_pixmap().spec_height(),
            !applied ==> final(self).spec_pixmap() == old(self).spec_pixmap()
                && final(self).anti_aliased() == old(self).anti_aliased(),
            applied ==> final(self).anti_aliased() == old(self).anti_aliased().update(
                line.line as int,
                line.anti_aliased,
            ),
            applied ==> forall|x: int, y: int|
                0 <= x < old(self).spec_pixmap().spec_width() && 0 <= y
                    < old(self).spec_pixmap().spec_height() ==> (#[trigger] final(self).spec_pixmap().at(x, y)) == (if y == line.line {
                    line.rendered_line@[x]
                } else {
                    old(self).spec_pixmap().at(x, y)
                }),
    {
        if !self.is_current(line) {
            return false;
        }
        let width = self.pixmap.get_width();
        let height = self.pixmap.get_height();
        let y = line.line;
        let mut x: usize = 0;
        while x < width
            invariant
                self.wf(),
                width == self.pixmap.spec_width(),
                height == self.pixmap.spec_height(),
                width == old(self).spec_pixmap().spec_width(),
                height == old(self).spec_pixmap().spec_height(),
                y < height,
                line.rendered_line@.len() == width,
                self.frame == old(self).frame,
                self.anti_aliased_lines@ == old(self).anti_aliased_lines@,
                x <= width,
                forall|px: int, py: int|
                    0 <= px < width && 0 <= py < height ==> #[trigger] self.pixmap.at(px, py) == (
                    if py == y && px < x {
                        line.rendered_line@[px]
                    } else {
                        old(self).spec_pixmap().at(px, py)
                    }),
            decreases width - x,
        {
            let ghost before = self.pixmap;
            self.pixmap.set_pixel_color(x, y, line.rendered_line[x]);
            proof {
                assert forall|px: int, py: int| 0 <= px < width && 0 <= py < height implies #[trigger] self.pixmap.at(px, py) == (
                    if py == y && px < x + 1 {
                        line.rendered_line@[px]
                    } else {
                        old(self).spec_pixmap().at(px, py)
                    }) by {
                    lemma_grid_cells_apart(px, py, x as int, y as int, width as int, height as int);
                    if px != x || py != y {
                        assert(self.pixmap.at(px, py) == before.at(px, py));
                    }
                }
            }
            x = x + 1;
        }
        self.anti_aliased_lines.set(y, line.anti_aliased);
        true
    }
}

/// The `i`-th range of lines: from `i * chunk` up to the next multiple of
/// `chunk` or to `count`, whichever comes first.
pub open spec fn line_range(i: int, chunk: int, count: int) -> (int, int) {
    (i * chunk, if (i + 1) * chunk < count {
        (i + 1) * chunk
    } else {
        count
    })
}

/// Splits lines `0..count` into contiguous ranges of `chunk` lines, the last
/// one possibly shorter; each range is `(start, end)`, end excluded.
pub fn line_ranges(count: usize, chunk: usize) -> (r: Vec<(usize, usize)>)
    requires
        chunk > 0,
    ensures
        r@.len() * chunk >= count,
        r@.len() == 0 || (r@.len() - 1) * chunk < count,
        forall|i: int|
            0 <= i < r@.len() ==> (#[trigger] r@[i]).0 == line_range(i, chunk as int, count as int).0
                && r@[i].1 == line_range(i, chunk as int, count as int).1,
{
    let mut r: Vec<(usize, usize)> = Vec::new();
    let mut start: usize = 0;
    proof {
        assert(r@.len() * chunk == 0) by (nonlinear_arith)
            requires
                r@.len() == 0,
        ;
    }
    while start < count
        invariant
            chunk > 0,
            start == r@.len() * chunk,
            start <= count,
            r@.len() == 0 || (r@.len() - 1) * chunk < count,
            forall|i: int|
                0 <= i < r@.len() ==> (#[trigger] r@[i]).0 == line_range(i, chunk as int, count as int).0
                    && r@[i].1 == line_range(i, chunk as int, count as int).1,
        decreases count - start,
    {
        let end = if count - start > chunk {
            start + chunk
        } else {
            count
        };
        let ghost n = r@.len() as int;
        proof {
            assert((n + 1) * chunk == n * chunk + chunk) by (nonlinear_arith);
            assert((n + 1 - 1) * chunk == n * chunk);
        }
        r.push((start, end));
        if end == count {
            return r;
        }
        start = end;
    }
    r
}

} // verus!
