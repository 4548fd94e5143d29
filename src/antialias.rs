//! Adaptive supersampling. A pixel's square is covered by a grid of
//! `2^level + 1` × `2^level + 1` sub-pixel samples, seeded at its corners with
//! the rendered colors of the pixel and its right, lower and diagonal
//! neighbours. The square is split into four quadrants, recursively, only
//! where corner samples differ, and each grid point is traced at most once.
use vstd::prelude::*;
use crate::pixmap::{RaytracerPixmap, grid_index, lemma_grid_cells_apart};

verus! {

/// The level of subdivision used when none is given.
pub const DEFAULT_LEVEL: u32 = 3;

/// The largest level accepted.
pub const MAX_LEVEL: u32 = 15;

/// 2 to the power `n`.
pub open spec fn two_to(n: nat) -> nat
    decreases n,
{
    if n == 0 {
        1
    } else {
        2 * two_to((n - 1) as nat)
    }
}

proof fn lemma_two_to_monotone(a: nat, b: nat)
    requires
        a <= b,
    ensures
        two_to(a) <= two_to(b),
    decreases b,
{
    if a < b {
        lemma_two_to_monotone(a, (b - 1) as nat);
    }
}

proof fn lemma_two_to_bounds(n: nat)
    requires
        n <= 15,
    ensures
        1 <= two_to(n) <= 32768,
        n < 15 ==> two_to(n) <= 16384,
{
    reveal_with_fuel(two_to, 16);
    assert(two_to(15) == 32768);
    assert(two_to(14) == 16384);
    lemma_two_to_monotone(0, n);
    lemma_two_to_monotone(n, 15);
    if n < 15 {
        lemma_two_to_monotone(n, 14);
    }
}

/// How many entries of `s` hold a sample.
pub open spec fn count_some<T>(s: Seq<Option<T>>) -> nat
    decreases s.len(),
{
    if s.len() == 0 {
        0
    } else {
        count_some(s.drop_last()) + if s.last() is Some {
            1nat
        } else {
            0nat
        }
    }
}

proof fn lemma_count_some_bound<T>(s: Seq<Option<T>>)
    ensures
        count_some(s) <= s.len(),
    decreases s.len(),
{
    if s.len() > 0 {
        lemma_count_some_bound(s.drop_last());
    }
}

proof fn lemma_count_some_fill<T>(s: Seq<Option<T>>, i: int, v: T)
    requires
        0 <= i < s.len(),
        s[i] is None,
    ensures
        count_some(s.update(i, Some(v))) == count_some(s) + 1,
    decreases s.len(),
{
    let u = s.update(i, Some(v));
    if i == s.len() - 1 {
        assert(u.drop_last() =~= s.drop_last());
    } else {
        assert(u.drop_last() =~= s.drop_last().update(i, Some(v)));
        lemma_count_some_fill(s.drop_last(), i, v);
    }
}

proof fn lemma_count_some_none<T>(n: nat)
    ensures
        count_some(Seq::<Option<T>>::new(n, |i: int| None)) == 0,
    decreases n,
{
    if n > 0 {
        assert(Seq::<Option<T>>::new(n, |i: int| None).drop_last() =~= Seq::<Option<T>>::new(
            (n - 1) as nat,
            |i: int| None,
        ));
        lemma_count_some_none::<T>((n - 1) as nat);
    }
}

/// The sub-pixel samples of one pixel: entry (x, y) is `None` until traced.
pub struct SubPixels<T> {
    size: usize,
    cells: Vec<Option<T>>,
}

impl<T: Copy> SubPixels<T> {
    /// The number of grid points along a side.
    pub closed spec fn spec_size(&self) -> nat {
        self.size as nat
    }

    /// The entries, column by column: entry (x, y) is at `x * size + y`.
    pub closed spec fn cells(&self) -> Seq<Option<T>> {
        self.cells@
    }

    pub open spec fn wf(&self) -> bool {
        &&& 1 <= self.spec_size() <= 32769
        &&& self.cells().len() == self.spec_size() * self.spec_size()
        &&& self.cells().len() <= 32769 * 32769
    }

    /// The entry at grid point (x, y).
    pub open spec fn at(&self, x: int, y: int) -> Option<T> {
        self.cells()[x * self.spec_size() + y]
    }

    /// A grid of `size` × `size` empty entries.
    pub fn new(size: usize) -> (r: Self)
        requires
            1 <= size <= 32769,
        ensures
            r.wf(),
            r.spec_size() == size,
            forall|i: int| 0 <= i < r.cells().len() ==> r.cells()[i] is None,
    {
        proof {
            assert(size * size <= 32769 * 32769) by (nonlinear_arith)
                requires
                    1 <= size <= 32769,
            ;
        }
        let n = size * size;
        let mut cells: Vec<Option<T>> = Vec::new();
        let mut i: usize = 0;
        while i < n
            invariant
                i <= n,
                cells@.len() == i,
                forall|j: int| 0 <= j < i ==> cells@[j] is None,
            decreases n - i,
        {
            cells.push(None);
            i = i + 1;
        }
        SubPixels { size, cells }
    }

    /// Empties every entry.
    pub fn clear(&mut self)
        requires
            old(self).wf(),
        ensures
            final(self).wf(),
            final(self).spec_size() == old(self).spec_size(),
            final(self).cells() == Seq::<Option<T>>::new(
                old(self).cells().len(),
                |i: int| None,
            ),
    {
        let n = self.cells.len();
        let mut i: usize = 0;
        while i < n
            invariant
                i <= n,
                n == self.cells@.len(),
                self.wf(),
                self.size == old(self).size,
                forall|j: int| 0 <= j < i ==> self.cells@[j] is None,
            decreases n - i,
        {
            self.cells.set(i, None);
            i = i + 1;
        }
        proof {
            assert(self.cells@ =~= Seq::<Option<T>>::new(n as nat, |i: int| None));
        }
    }

    /// The entry at (x, y).
    pub fn get(&self, x: usize, y: usize) -> (r: Option<T>)
        requires
            self.wf(),
            x < self.spec_size(),
            y < self.spec_size(),
        ensures
            r == self.at(x as int, y as int),
    {
        proof {
            lemma_cell_index(x as int, y as int, self.size as int);
        }
        self.cells[x * self.size + y]
    }

    /// Records the sample at (x, y).
    pub fn set(&mut self, x: usize, y: usize, sample: T)
        requires
            old(self).wf(),
            x < old(self).spec_size(),
            y < old(self).spec_size(),
        ensures
            final(self).wf(),
            final(self).spec_size() == old(self).spec_size(),
            final(self).cells() == old(self).cells().update(
                x * old(self).spec_size() + y,
                Some(sample),
            ),
    {
        proof {
            lemma_cell_index(x as int, y as int, self.size as int);
        }
        let i = x * self.size + y;
        self.cells.set(i, Some(sample));
    }
}

proof fn lemma_cell_index(x: int, y: int, size: int)
    requires
        0 <= x < size,
        0 <= y < size,
        size <= 32769,
    ensures
        0 <= x * size + y < size * size,
        size * size <= 32769 * 32769,
{
    assert(0 <= x * size + y < size * size) by (nonlinear_arith)
        requires
            0 <= x < size,
            0 <= y < size,
    ;
    assert(size * size <= 32769 * 32769) by (nonlinear_arith)
        requires
            0 <= x < size,
            size <= 32769,
    ;
}

/// What the anti-aliaser asks of the renderer: the samples themselves.
/// Nothing is assumed of them; the contracts speak of the samples recorded
/// in the grid. How samples are compared and averaged is handed to the
/// functions below as closures, and their contracts speak of those closures
/// only through what a call of them may return (`call_ensures`).
pub trait SubPixelShader<T> {
    /// Makes (x, y) the pixel whose samples follow.
    fn select_pixel(&mut self, x: usize, y: usize);

    /// Traces the sample at grid point (sub_x, sub_y) of the selected pixel.
    fn sample(&mut self, sub_x: usize, sub_y: usize) -> T;
}

/// The sample recorded at grid point (x, y).
pub open spec fn sample_at<T>(cells: Seq<Option<T>>, size: int, x: int, y: int) -> Option<T> {
    cells[x * size + y]
}

/// `differ` may report `a` and `b` as different.
pub open spec fn differs<T, D: Fn(T, T) -> bool>(differ: D, a: T, b: T) -> bool {
    call_ensures(differ, (a, b), true)
}

/// `differ` may report `a` and `b` as alike.
pub open spec fn alike<T, D: Fn(T, T) -> bool>(differ: D, a: T, b: T) -> bool {
    call_ensures(differ, (a, b), false)
}

/// How a square was supersampled: from its corners alone, or split into
/// four quadrants (lower-left, lower-right, upper-left, upper-right in grid
/// coordinates), each with its own trace. Each node holds the color given.
pub enum QuadTrace<T> {
    Corners(T),
    Split(T, Box<QuadTrace<T>>, Box<QuadTrace<T>>, Box<QuadTrace<T>>, Box<QuadTrace<T>>),
}

impl<T> QuadTrace<T> {
    /// The color that the traced square gives.
    pub open spec fn color(&self) -> T {
        match self {
            QuadTrace::Corners(c) => *c,
            QuadTrace::Split(c, _, _, _, _) => *c,
        }
    }

    pub open spec fn is_split(&self) -> bool {
        self is Split
    }
}

/// Whether `t` is a faithful trace of supersampling the square whose lower
/// corner is (x1, y1) and whose side is `2^level`, given the samples
/// recorded in `cells`. The square's four corners are sampled. When `level`
/// is 0 or `differ` finds the first corner alike to each other corner, the
/// color is the `average` of the corners. Otherwise (`level > 0` and `differ`
/// finds a difference) the square is split into four quadrants, each traced
/// at `level - 1`, and the color is the `average` of the quadrants' colors.
pub open spec fn quad_traced<T, D: Fn(T, T) -> bool, A: Fn(T, T, T, T) -> T>(
    differ: D,
    average: A,
    cells: Seq<Option<T>>,
    size: int,
    x1: int,
    y1: int,
    level: nat,
    t: QuadTrace<T>,
) -> bool
    decreases level,
{
    let side = two_to(level) as int;
    let (x2, y2) = (x1 + side, y1 + side);
    let (o1, o2, o3, o4) = (
        sample_at(cells, size, x1, y1),
        sample_at(cells, size, x2, y1),
        sample_at(cells, size, x1, y2),
        sample_at(cells, size, x2, y2),
    );
    if o1 is Some && o2 is Some && o3 is Some && o4 is Some {
        let (c1, c2, c3, c4) = (o1->Some_0, o2->Some_0, o3->Some_0, o4->Some_0);
        match t {
            QuadTrace::Corners(color) => {
                &&& (level == 0 || (alike(differ, c1, c2) && alike(differ, c1, c3) && alike(
                    differ,
                    c1,
                    c4,
                )))
                &&& call_ensures(average, (c1, c2, c3, c4), color)
            },
            QuadTrace::Split(color, t1, t2, t3, t4) => {
                if level == 0 {
                    false
                } else {
                    let l = (level - 1) as nat;
                    let h = two_to(l) as int;
                    &&& (differs(differ, c1, c2) || differs(differ, c1, c3) || differs(
                        differ,
                        c1,
                        c4,
                    ))
                    &&& quad_traced(differ, average, cells, size, x1, y1, l, *t1)
                    &&& quad_traced(differ, average, cells, size, x1 + h, y1, l, *t2)
                    &&& quad_traced(differ, average, cells, size, x1, y1 + h, l, *t3)
                    &&& quad_traced(differ, average, cells, size, x1 + h, y1 + h, l, *t4)
                    &&& call_ensures(
                        average,
                        (t1.color(), t2.color(), t3.color(), t4.color()),
                        color,
                    )
                }
            },
        }
    } else {
        false
    }
}

/// Whether supersampling the square whose lower corner is (x1, y1) and whose
/// side is `2^level` can give `color`, with `split` telling whether the square
/// was divided: some faithful trace gives them.
pub open spec fn quad_color<T, D: Fn(T, T) -> bool, A: Fn(T, T, T, T) -> T>(
    differ: D,
    average: A,
    cells: Seq<Option<T>>,
    size: int,
    x1: int,
    y1: int,
    level: nat,
    color: T,
    split: bool,
) -> bool {
    exists|t: QuadTrace<T>|
        #[trigger] quad_traced(differ, average, cells, size, x1, y1, level, t) && t.color()
            == color && t.is_split() == split
}

/// A faithful trace stays one when samples are added to the grid: recorded
/// samples never change.
proof fn lemma_quad_traced_stable<T, D: Fn(T, T) -> bool, A: Fn(T, T, T, T) -> T>(
    differ: D,
    average: A,
    cells: Seq<Option<T>>,
    cells2: Seq<Option<T>>,
    size: int,
    x1: int,
    y1: int,
    level: nat,
    t: QuadTrace<T>,
)
    requires
        quad_traced(differ, average, cells, size, x1, y1, level, t),
        size <= 32769,
        cells.len() == size * size,
        cells2.len() == cells.len(),
        0 <= x1,
        0 <= y1,
        x1 + two_to(level) < size,
        y1 + two_to(level) < size,
        forall|i: int| 0 <= i < cells.len() && (#[trigger] cells[i]) is Some ==> cells2[i] == cells[i],
    ensures
        quad_traced(differ, average, cells2, size, x1, y1, level, t),
    decreases level,
{
    let side = two_to(level) as int;
    lemma_cell_index(x1, y1, size);
    lemma_cell_index(x1 + side, y1, size);
    lemma_cell_index(x1, y1 + side, size);
    lemma_cell_index(x1 + side, y1 + side, size);
    if let QuadTrace::Split(_, t1, t2, t3, t4) = t {
        if level > 0 {
            let l = (level - 1) as nat;
            let h = two_to(l) as int;
            assert(side == 2 * h);
            lemma_quad_traced_stable(differ, average, cells, cells2, size, x1, y1, l, *t1);
            lemma_quad_traced_stable(differ, average, cells, cells2, size, x1 + h, y1, l, *t2);
            lemma_quad_traced_stable(differ, average, cells, cells2, size, x1, y1 + h, l, *t3);
            lemma_quad_traced_stable(differ, average, cells, cells2, size, x1 + h, y1 + h, l, *t4);
        }
    }
}

/// Whether `color` can be the supersampled color of pixel (x, y) of
/// `source`: the pixel's square, sampled on a `size` × `size` grid seeded at
/// its corners with the colors of the pixel and of its right, lower and
/// diagonal neighbours, gives `color` by `quad_color` at `level`.
pub open spec fn anti_aliased_color<T: Copy, D: Fn(T, T) -> bool, A: Fn(T, T, T, T) -> T>(
    differ: D,
    average: A,
    size: int,
    level: nat,
    source: RaytracerPixmap<T>,
    x: int,
    y: int,
    color: T,
) -> bool {
    let last = size - 1;
    exists|cells: Seq<Option<T>>, split: bool|
        #[trigger] quad_color(differ, average, cells, size, 0, 0, level, color, split)
            && sample_at(cells, size, 0, 0) == Some(source.at(x, y))
            && sample_at(cells, size, last, 0) == Some(source.at(x + 1, y))
            && sample_at(cells, size, 0, last) == Some(source.at(x, y + 1))
            && sample_at(cells, size, last, last) == Some(source.at(x + 1, y + 1))
}

/// `differ` never reports a sample as different from itself.
pub open spec fn reflexively_alike<T, D: Fn(T, T) -> bool>(differ: D) -> bool {
    forall|a: T, d: bool| call_ensures(differ, (a, a), d) ==> !d
}

/// The parameters of adaptive supersampling.
pub struct AntiAliaser {
    level: u32,
    size: usize,
}

impl AntiAliaser {
    pub closed spec fn spec_level(&self) -> nat {
        self.level as nat
    }

    /// Grid points along a side of a pixel: `2^level + 1`.
    pub closed spec fn spec_size(&self) -> nat {
        self.size as nat
    }

    pub open spec fn wf(&self) -> bool {
        &&& self.spec_level() <= MAX_LEVEL
        &&& self.spec_size() == two_to(self.spec_level()) + 1
    }

    /// An anti-aliaser that subdivides at most `level` times (3 when `None`).
    pub fn new(level: Option<u32>) -> (r: Self)
        requires
            level matches Some(l) ==> l <= MAX_LEVEL,
        ensures
            r.wf(),
            r.spec_level() == (match level {
                Some(l) => l,
                None => DEFAULT_LEVEL,
            }),
    {
        let level = match level {
            Some(l) => l,
            None => DEFAULT_LEVEL,
        };
        let mut side: usize = 1;
        let mut i: u32 = 0;
        while i < level
            invariant
                i <= level <= MAX_LEVEL,
                side == two_to(i as nat),
            decreases level - i,
        {
            proof {
                lemma_two_to_bounds(i as nat);
            }
            side = side * 2;
            i = i + 1;
        }
        proof {
            lemma_two_to_bounds(level as nat);
        }
        AntiAliaser { level, size: side + 1 }
    }

    /// The level of subdivision.
    pub fn level(&self) -> (r: u32)
        ensures
            r == self.spec_level(),
    {
        self.level
    }

    /// Grid points along a side of a pixel.
    pub fn size(&self) -> (r: usize)
        ensures
            r == self.spec_size(),
    {
        self.size
    }

    /// An empty grid of the right size.
    pub fn create_sub_pixel_buffer<T: Copy>(&self) -> (r: SubPixels<T>)
        requires
            self.wf(),
        ensures
            r.wf(),
            r.spec_size() == self.spec_size(),
            forall|i: int| 0 <= i < r.cells().len() ==> r.cells()[i] is None,
    {
        proof {
            lemma_two_to_bounds(self.level as nat);
        }
        SubPixels::new(self.size)
    }

    /// Empties a grid of this anti-aliaser's size.
    pub fn clear_matrices<T: Copy>(&self, sub_pixels: &mut SubPixels<T>)
        requires
            self.wf(),
            old(sub_pixels).wf(),
            old(sub_pixels).spec_size() == self.spec_size(),
        ensures
            final(sub_pixels).wf(),
            final(sub_pixels).spec_size() == self.spec_size(),
            forall|i: int|
                0 <= i < final(sub_pixels).cells().len() ==> (#[trigger] final(sub_pixels).cells()[i]) is None,
    {
        sub_pixels.clear();
    }

    /// The sample at (x, y): from the grid when already traced, else traced
    /// now, recorded, and counted.
    fn sub_render<T: Copy, S: SubPixelShader<T>>(
        grid: &mut SubPixels<T>,
        shader: &mut S,
        x: usize,
        y: usize,
        rays: &mut u64,
    ) -> (r: T)
        requires
            old(grid).wf(),
            x < old(grid).spec_size(),
            y < old(grid).spec_size(),
            *old(rays) + old(grid).cells().len() - count_some(old(grid).cells()) <= u64::MAX,
        ensures
            final(grid).wf(),
            final(grid).spec_size() == old(grid).spec_size(),
            final(grid).at(x as int, y as int) == Some(r),
            old(grid).at(x as int, y as int) is Some ==> final(grid).cells() == old(grid).cells()
                && *final(rays) == *old(rays),
            old(grid).at(x as int, y as int) is None ==> final(grid).cells() == old(
                grid,
            ).cells().update(x * old(grid).spec_size() + y, Some(r)),
            *final(rays) + final(grid).cells().len() - count_some(final(grid).cells()) == *old(rays)
                + old(grid).cells().len() - count_some(old(grid).cells()),
            *final(rays) >= *old(rays),
    {
        proof {
            lemma_cell_index(x as int, y as int, grid.size as int);
            lemma_count_some_bound(grid.cells@);
        }
        match grid.get(x, y) {
            Some(c) => c,
            None => {
                let c = shader.sample(x, y);
                proof {
                    lemma_count_some_fill(grid.cells@, x * grid.size + y, c);
                    lemma_count_some_bound(grid.cells@.update(x * grid.size + y, Some(c)));
                }
                *rays = *rays + 1;
                grid.set(x, y, c);
                c
            },
        }
    }

    /// The color of the square from (x1, y1) to (x2, y2), whose side is
    /// `2^level`, and whether it was split: see `quad_color`. Samples already
    /// in the grid are never traced again, and `rays` counts those traced.
    pub fn get_sub_pixel_color<
        T: Copy,
        S: SubPixelShader<T>,
        D: Fn(T, T) -> bool,
        A: Fn(T, T, T, T) -> T,
    >(
        &self,
        grid: &mut SubPixels<T>,
        shader: &mut S,
        differ: &D,
        average: &A,
        x1: usize,
        y1: usize,
        x2: usize,
        y2: usize,
        level: u32,
        rays: &mut u64,
    ) -> (r: (T, bool))
        requires
            old(grid).wf(),
            forall|a: T, b: T| call_requires(*differ, (a, b)),
            forall|a: T, b: T, c: T, d: T| call_requires(*average, (a, b, c, d)),
            level <= MAX_LEVEL,
            x2 == x1 + two_to(level as nat),
            y2 == y1 + two_to(level as nat),
            x2 < old(grid).spec_size(),
            y2 < old(grid).spec_size(),
            *old(rays) + old(grid).cells().len() - count_some(old(grid).cells()) <= u64::MAX,
        ensures
            final(grid).wf(),
            final(grid).spec_size() == old(grid).spec_size(),
            quad_color(
                *differ,
                *average,
                final(grid).cells(),
                final(grid).spec_size() as int,
                x1 as int,
                y1 as int,
                level as nat,
                r.0,
                r.1,
            ),
            forall|i: int|
                0 <= i < old(grid).cells().len() && (#[trigger] old(grid).cells()[i]) is Some
                    ==> final(grid).cells()[i] == old(grid).cells()[i],
            *final(rays) + final(grid).cells().len() - count_some(final(grid).cells()) == *old(rays)
                + old(grid).cells().len() - count_some(old(grid).cells()),
            *final(rays) >= *old(rays),
            !r.1 && old(grid).at(x1 as int, y1 as int) is Some && old(grid).at(x2 as int, y1 as int) is Some
                && old(grid).at(x1 as int, y2 as int) is Some && old(grid).at(x2 as int, y2 as int) is Some
                ==> *final(rays) == *old(rays) && final(grid).cells() == old(grid).cells(),
        decreases level,
    {
        let ghost g0 = grid.cells@;
        let ghost sz = grid.size as int;
        proof {
            lemma_two_to_bounds(level as nat);
            lemma_cell_index(x1 as int, y1 as int, sz);
            lemma_cell_index(x2 as int, y2 as int, sz);
            lemma_cell_index(x2 as int, y1 as int, sz);
            lemma_cell_index(x1 as int, y2 as int, sz);
        }
        let color1 = Self::sub_render(grid, shader, x1, y1, rays);
        let color2 = Self::sub_render(grid, shader, x2, y1, rays);
        let color3 = Self::sub_render(grid, shader, x1, y2, rays);
        let color4 = Self::sub_render(grid, shader, x2, y2, rays);
        let ghost g4 = grid.cells@;
        proof {
            assert(sample_at(g4, sz, x1 as int, y1 as int) == Some(color1));
            assert(sample_at(g4, sz, x2 as int, y1 as int) == Some(color2));
            assert(sample_at(g4, sz, x1 as int, y2 as int) == Some(color3));
            assert(sample_at(g4, sz, x2 as int, y2 as int) == Some(color4));
        }
        let different = differ(color1, color2) || differ(color1, color3) || differ(color1, color4);
        if !different || level == 0 {
            let color = average(color1, color2, color3, color4);
            proof {
                assert(quad_traced(
                    *differ, *average, g4, sz, x1 as int, y1 as int, level as nat,
                    QuadTrace::Corners(color),
                ));
            }
            return (color, false);
        }
        let half = (x2 - x1) / 2;
        proof {
            assert(two_to(level as nat) == 2 * two_to((level - 1) as nat));
        }
        let mid_x = x1 + half;
        let mid_y = y1 + half;
        let (c1, s1) = self.get_sub_pixel_color(
            grid, shader, differ, average, x1, y1, mid_x, mid_y, level - 1, rays);
        let ghost g5 = grid.cells@;
        let (c2, s2) = self.get_sub_pixel_color(
            grid, shader, differ, average, mid_x, y1, x2, mid_y, level - 1, rays);
        let ghost g6 = grid.cells@;
        let (c3, s3) = self.get_sub_pixel_color(
            grid, shader, differ, average, x1, mid_y, mid_x, y2, level - 1, rays);
        let ghost g7 = grid.cells@;
        let (c4, s4) = self.get_sub_pixel_color(
            grid, shader, differ, average, mid_x, mid_y, x2, y2, level - 1, rays);
        let color = average(c1, c2, c3, c4);
        proof {
            let gf = grid.cells@;
            let l = (level - 1) as nat;
            let (d, a) = (*differ, *average);
            assert forall|i: int|
                0 <= i < g0.len() && (#[trigger] g0[i]) is Some implies gf[i] == g0[i] by {
                assert(g4[i] == g0[i]);
            }
            assert forall|i: int| 0 <= i < g4.len() && (#[trigger] g4[i]) is Some implies gf[i] == g4[i] by {
                assert(g5[i] == g4[i]);
                assert(g6[i] == g5[i]);
                assert(g7[i] == g6[i]);
            }
            assert forall|i: int| 0 <= i < g5.len() && (#[trigger] g5[i]) is Some implies gf[i] == g5[i] by {
                assert(g6[i] == g5[i]);
                assert(g7[i] == g6[i]);
            }
            assert forall|i: int| 0 <= i < g6.len() && (#[trigger] g6[i]) is Some implies gf[i] == g6[i] by {
                assert(g7[i] == g6[i]);
            }
            let t1 = choose|t: QuadTrace<T>| #[trigger] quad_traced(d, a, g5, sz, x1 as int, y1 as int, l, t) && t.color() == c1 && t.is_split() == s1;
            let t2 = choose|t: QuadTrace<T>| #[trigger] quad_traced(d, a, g6, sz, mid_x as int, y1 as int, l, t) && t.color() == c2 && t.is_split() == s2;
            let t3 = choose|t: QuadTrace<T>| #[trigger] quad_traced(d, a, g7, sz, x1 as int, mid_y as int, l, t) && t.color() == c3 && t.is_split() == s3;
            let t4 = choose|t: QuadTrace<T>| #[trigger] quad_traced(d, a, gf, sz, mid_x as int, mid_y as int, l, t) && t.color() == c4 && t.is_split() == s4;
            lemma_quad_traced_stable(d, a, g5, gf, sz, x1 as int, y1 as int, l, t1);
            lemma_quad_traced_stable(d, a, g6, gf, sz, mid_x as int, y1 as int, l, t2);
            lemma_quad_traced_stable(d, a, g7, gf, sz, x1 as int, mid_y as int, l, t3);
            lemma_cell_index(x1 as int, y1 as int, sz);
            lemma_cell_index(x2 as int, y1 as int, sz);
            lemma_cell_index(x1 as int, y2 as int, sz);
            lemma_cell_index(x2 as int, y2 as int, sz);
            assert(sample_at(gf, sz, x1 as int, y1 as int) == Some(color1));
            assert(sample_at(gf, sz, x2 as int, y1 as int) == Some(color2));
            assert(sample_at(gf, sz, x1 as int, y2 as int) == Some(color3));
            assert(sample_at(gf, sz, x2 as int, y2 as int) == Some(color4));
            let t = QuadTrace::Split(color, Box::new(t1), Box::new(t2), Box::new(t3), Box::new(t4));
            assert(quad_traced(d, a, gf, sz, x1 as int, y1 as int, level as nat, t));
        }
        (color, true)
    }

    /// The anti-aliased color of pixel (x, y) of `source` (see
    /// `anti_aliased_color`). The grid is cleared and seeded with the
    /// pixel's color and those of its right, lower and diagonal neighbours;
    /// `rays` counts the samples traced. Where the four seeds are equal and
    /// `differ` never tells a sample from itself, the square is not split:
    /// no ray is traced and the color is the `average` of the four seeds.
    pub fn get_anti_aliased_pixel<
        T: Copy,
        S: SubPixelShader<T>,
        D: Fn(T, T) -> bool,
        A: Fn(T, T, T, T) -> T,
    >(
        &self,
        x: usize,
        y: usize,
        grid: &mut SubPixels<T>,
        rays: &mut u64,
        source: &RaytracerPixmap<T>,
        shader: &mut S,
        differ: &D,
        average: &A,
    ) -> (r: T)
        requires
            self.wf(),
            old(grid).wf(),
            old(grid).spec_size() == self.spec_size(),
            forall|a: T, b: T| call_requires(*differ, (a, b)),
            forall|a: T, b: T, c: T, d: T| call_requires(*average, (a, b, c, d)),
            source.wf(),
            x + 1 < source.spec_width(),
            y + 1 < source.spec_height(),
            *old(rays) + old(grid).cells().len() <= u64::MAX,
        ensures
            final(grid).wf(),
            final(grid).spec_size() == old(grid).spec_size(),
            anti_aliased_color(
                *differ,
                *average,
                self.spec_size() as int,
                self.spec_level(),
                *source,
                x as int,
                y as int,
                r,
            ),
            final(grid).at(0, 0) == Some(source.at(x as int, y as int)),
            final(grid).at(0, self.spec_size() - 1) == Some(source.at(x as int, y + 1)),
            final(grid).at(self.spec_size() - 1, 0) == Some(source.at(x + 1, y as int)),
            final(grid).at(self.spec_size() - 1, self.spec_size() - 1) == Some(
                source.at(x + 1, y + 1),
            ),
            *final(rays) == *old(rays) + count_some(final(grid).cells()) - 4,
            *final(rays) >= *old(rays),
            reflexively_alike(*differ) && source.at(x + 1, y as int) == source.at(x as int, y as int)
                && source.at(x as int, y + 1) == source.at(x as int, y as int) && source.at(x + 1, y + 1)
                == source.at(x as int, y as int) ==> *final(rays) == *old(rays) && call_ensures(
                *average,
                (
                    source.at(x as int, y as int),
                    source.at(x as int, y as int),
                    source.at(x as int, y as int),
                    source.at(x as int, y as int),
                ),
                r,
            ),
    {
        let ghost n = grid.cells@.len();
        self.clear_matrices(grid);
        proof {
            assert(grid.cells@ =~= Seq::<Option<T>>::new(n, |i: int| None));
        }
        proof {
            lemma_count_some_none::<T>(n);
            lemma_two_to_bounds(self.level as nat);
        }
        shader.select_pixel(x, y);
        let last = self.size - 1;
        let ghost sz = self.size as int;
        proof {
            lemma_cell_index(0, 0, sz);
            lemma_cell_index(0, last as int, sz);
            lemma_cell_index(last as int, 0, sz);
            lemma_cell_index(last as int, last as int, sz);
            assert(last as int * sz + 0 != 0 * sz + last as int) by (nonlinear_arith)
                requires
                    last == sz - 1,
                    last >= 1,
            ;
            assert(last as int * sz + last as int != 0 * sz + last as int) by (nonlinear_arith)
                requires
                    last == sz - 1,
                    last >= 1,
            ;
            assert(last as int * sz + last as int != last as int * sz + 0);
        }
        let c00 = source.get_pixel_color(x, y);
        let c01 = source.get_pixel_color(x, y + 1);
        let c10 = source.get_pixel_color(x + 1, y);
        let c11 = source.get_pixel_color(x + 1, y + 1);
        grid.set(0, 0, c00);
        proof {
            lemma_count_some_fill(Seq::<Option<T>>::new(n, |i: int| None), 0, c00);
        }
        let ghost g1 = grid.cells@;
        grid.set(0, last, c01);
        proof {
            lemma_count_some_fill(g1, last as int, c01);
        }
        let ghost g2 = grid.cells@;
        grid.set(last, 0, c10);
        proof {
            lemma_count_some_fill(g2, last as int * sz, c10);
        }
        let ghost g3 = grid.cells@;
        grid.set(last, last, c11);
        proof {
            lemma_count_some_fill(g3, last as int * sz + last as int, c11);
            assert(count_some(grid.cells@) == 4);
            assert(two_to(self.level as nat) == last);
        }
        let ghost seeded = grid.cells@;
        let (color, split) = self.get_sub_pixel_color(
            grid, shader, differ, average, 0, 0, last, last, self.level, rays);
        proof {
            let gf = grid.cells@;
            assert(gf[0] == seeded[0]);
            assert(gf[last as int] == seeded[last as int]);
            assert(gf[last as int * sz] == seeded[last as int * sz]);
            assert(gf[last as int * sz + last as int] == seeded[last as int * sz + last as int]);
            assert(sample_at(gf, sz, 0, 0) == Some(c00));
            assert(sample_at(gf, sz, last as int, 0) == Some(c10));
            assert(sample_at(gf, sz, 0, last as int) == Some(c01));
            assert(sample_at(gf, sz, last as int, last as int) == Some(c11));
            let t = choose|t: QuadTrace<T>| #[trigger] quad_traced(*differ, *average, gf, sz, 0, 0, self.level as nat, t) && t.color() == color && t.is_split() == split;
            assert(quad_color(*differ, *average, gf, sz, 0, 0, self.level as nat, color, split));
            if reflexively_alike(*differ) && c10 == c00 && c01 == c00 && c11 == c00 {
                assert(!differs(*differ, c00, c00));
                assert(!t.is_split());
            }
        }
        color
    }

    /// Line `y` of `source`, anti-aliased: each pixel but the last has its
    /// `anti_aliased_color`; the last, which has no right neighbour, is
    /// copied.
    pub fn anti_alias_line_vec<
        T: Copy,
        S: SubPixelShader<T>,
        D: Fn(T, T) -> bool,
        A: Fn(T, T, T, T) -> T,
    >(
        &self,
        y: usize,
        grid: &mut SubPixels<T>,
        rays: &mut u64,
        source: &RaytracerPixmap<T>,
        shader: &mut S,
        differ: &D,
        average: &A,
    ) -> (r: Vec<T>)
        requires
            self.wf(),
            old(grid).wf(),
            old(grid).spec_size() == self.spec_size(),
            forall|a: T, b: T| call_requires(*differ, (a, b)),
            forall|a: T, b: T, c: T, d: T| call_requires(*average, (a, b, c, d)),
            source.wf(),
            source.spec_width() >= 1,
            y + 1 < source.spec_height(),
            *old(rays) + source.spec_width() * old(grid).cells().len() <= u64::MAX,
        ensures
            final(grid).wf(),
            final(grid).spec_size() == old(grid).spec_size(),
            r@.len() == source.spec_width(),
            forall|px: int|
                0 <= px < source.spec_width() - 1 ==> anti_aliased_color(
                    *differ,
                    *average,
                    self.spec_size() as int,
                    self.spec_level(),
                    *source,
                    px,
                    y as int,
                    #[trigger] r@[px],
                ),
            r@.last() == source.at(source.spec_width() - 1, y as int),
            *final(rays) >= *old(rays),
    {
        let width = source.get_width();
        let last_pixel = width - 1;
        let ghost cells = grid.cells@.len();
        let ghost start = *rays;
        let mut line: Vec<T> = Vec::new();
        let mut x: usize = 0;
        while x < last_pixel
            invariant
                self.wf(),
                grid.wf(),
                grid.spec_size() == self.spec_size(),
                grid.cells@.len() == cells,
                source.wf(),
                width == source.spec_width(),
                last_pixel == width - 1,
                y + 1 < source.spec_height(),
                x <= last_pixel,
                line@.len() == x,
                forall|a: T, b: T| call_requires(*differ, (a, b)),
                forall|a: T, b: T, c: T, d: T| call_requires(*average, (a, b, c, d)),
                forall|px: int|
                    0 <= px < x ==> anti_aliased_color(
                        *differ,
                        *average,
                        self.spec_size() as int,
                        self.spec_level(),
                        *source,
                        px,
                        y as int,
                        #[trigger] line@[px],
                    ),
                start <= *rays <= start + x * cells,
                start + width * cells <= u64::MAX,
            decreases last_pixel - x,
        {
            proof {
                assert(start + x * cells + cells <= start + width * cells) by (nonlinear_arith)
                    requires
                        x < width,
                ;
            }
            let color = self.get_anti_aliased_pixel(x, y, grid, rays, source, shader, differ, average);
            proof {
                lemma_count_some_bound(grid.cells());
                assert(start + x * cells + cells == start + (x + 1) * cells) by (nonlinear_arith);
            }
            line.push(color);
            x = x + 1;
        }
        line.push(source.get_pixel_color(last_pixel, y));
        line
    }

    /// Writes line `y` of `source`, anti-aliased, into `destination`: each
    /// pixel but the last gets its `anti_aliased_color`; the last, which has
    /// no right neighbour, is copied. Other lines are left as they were.
    pub fn anti_alias_line<
        T: Copy,
        S: SubPixelShader<T>,
        D: Fn(T, T) -> bool,
        A: Fn(T, T, T, T) -> T,
    >(
        &self,
        y: usize,
        grid: &mut SubPixels<T>,
        rays: &mut u64,
        source: &RaytracerPixmap<T>,
        destination: &mut RaytracerPixmap<T>,
        shader: &mut S,
        differ: &D,
        average: &A,
    )
        requires
            self.wf(),
            old(grid).wf(),
            old(grid).spec_size() == self.spec_size(),
            forall|a: T, b: T| call_requires(*differ, (a, b)),
            forall|a: T, b: T, c: T, d: T| call_requires(*average, (a, b, c, d)),
            source.wf(),
            source.spec_width() >= 1,
            y + 1 < source.spec_height(),
            *old(rays) + source.spec_width() * old(grid).cells().len() <= u64::MAX,
            old(destination).wf(),
            old(destination).spec_width() == source.spec_width(),
            old(destination).spec_height() == source.spec_height(),
        ensures
            final(grid).wf(),
            final(grid).spec_size() == old(grid).spec_size(),
            final(destination).wf(),
            final(destination).spec_width() == old(destination).spec_width(),
            final(destination).spec_height() == old(destination).spec_height(),
            forall|px: int, py: int|
                0 <= px < source.spec_width() && 0 <= py < source.spec_height() && py != y
                    ==> #[trigger] final(destination).at(px, py) == old(destination).at(px, py),
            forall|px: int|
                0 <= px < source.spec_width() - 1 ==> anti_aliased_color(
                    *differ,
                    *average,
                    self.spec_size() as int,
                    self.spec_level(),
                    *source,
                    px,
                    y as int,
                    #[trigger] final(destination).at(px, y as int),
                ),
            final(destination).at(source.spec_width() - 1, y as int) == source.at(
                source.spec_width() - 1,
                y as int,
            ),
            *final(rays) >= *old(rays),
    {
        let line = self.anti_alias_line_vec(y, grid, rays, source, shader, differ, average);
        let width = source.get_width();
        let mut x: usize = 0;
        while x < width
            invariant
                line@.len() == width,
                width == source.spec_width(),
                y < source.spec_height(),
                destination.wf(),
                destination.spec_width() == source.spec_width(),
                destination.spec_height() == source.spec_height(),
                forall|px: int, py: int|
                    0 <= px < source.spec_width() && 0 <= py < source.spec_height() && py != y
                        ==> #[trigger] destination.at(px, py) == old(destination).at(px, py),
                forall|px: int| 0 <= px < x ==> #[trigger] destination.at(px, y as int) == line@[px],
                x <= width,
            decreases width - x,
        {
            let ghost before = *destination;
            destination.set_pixel_color(x, y, line[x]);
            proof {
                let h = source.spec_height() as int;
                let i = grid_index(width as int, x as int, y as int);
                lemma_grid_cells_apart(x as int, y as int, x as int, y as int, width as int, h);
                assert forall|px: int, py: int|
                    0 <= px < width && 0 <= py < h && (px != x || py != y) implies #[trigger] destination.at(px, py) == before.at(px, py) by {
                    lemma_grid_cells_apart(px, py, x as int, y as int, width as int, h);
                    assert(destination.pixels() == before.pixels().update(i, line@[x as int]));
                }
            }
            x = x + 1;
        }
    }
}

} // verus!
