//! Pixel buffers: a row-major grid of pixel values, and a view of a packed
//! byte buffer with a row stride, as image libraries hand them out.
use vstd::prelude::*;

verus! {

/// `y * width + x` stays below `width * height` for a pixel in the grid.
proof fn lemma_index_in_grid(x: int, y: int, width: int, height: int)
    requires
        0 <= x < width,
        0 <= y < height,
    ensures
        0 <= y * width + x < width * height,
{
    assert(y * width + x < width * height) by (nonlinear_arith)
        requires
            0 <= x < width,
            0 <= y < height,
    ;
    assert(0 <= y * width) by (nonlinear_arith)
        requires
            0 <= x < width,
            0 <= y,
    ;
}

/// Two different pixels of a grid have different positions in it, both in
/// range.
pub proof fn lemma_grid_cells_apart(x1: int, y1: int, x2: int, y2: int, width: int, height: int)
    requires
        0 <= x1 < width,
        0 <= x2 < width,
        0 <= y1 < height,
        0 <= y2 < height,
    ensures
        (x1 != x2 || y1 != y2) ==> grid_index(width, x1, y1) != grid_index(width, x2, y2),
        0 <= grid_index(width, x1, y1) < width * height,
        0 <= grid_index(width, x2, y2) < width * height,
{
    if y1 < y2 {
        assert(y1 * width + x1 < y2 * width + x2) by (nonlinear_arith)
            requires
                y1 < y2,
                0 <= x1 < width,
                0 <= x2,
        ;
    } else if y2 < y1 {
        assert(y2 * width + x2 < y1 * width + x1) by (nonlinear_arith)
            requires
                y2 < y1,
                0 <= x2 < width,
                0 <= x1,
        ;
    }
    lemma_index_in_grid(x1, y1, width, height);
    lemma_index_in_grid(x2, y2, width, height);
}

/// A `width` × `height` grid of pixels stored row by row.
pub struct RaytracerPixmap<T> {
    width: usize,
    height: usize,
    pixels: Vec<T>,
}

/// Position of pixel (x, y) in the row-major sequence.
pub open spec fn grid_index(width: int, x: int, y: int) -> int {
    y * width + x
}

impl<T: Copy> RaytracerPixmap<T> {
    pub closed spec fn spec_width(&self) -> nat {
        self.width as nat
    }

    pub closed spec fn spec_height(&self) -> nat {
        self.height as nat
    }

    /// The pixels, row by row.
    pub closed spec fn pixels(&self) -> Seq<T> {
        self.pixels@
    }

    /// One value per pixel.
    pub open spec fn wf(&self) -> bool {
        &&& self.pixels().len() == self.spec_width() * self.spec_height()
        &&& self.spec_width() <= usize::MAX
        &&& self.spec_height() <= usize::MAX
    }

    /// The pixel at (x, y).
    pub open spec fn at(&self, x: int, y: int) -> T {
        self.pixels()[grid_index(self.spec_width() as int, x, y)]
    }

    /// A grid whose every pixel is `fill`.
    pub fn new(width: usize, height: usize, fill: T) -> (r: Self)
        requires
            width * height <= usize::MAX,
        ensures
            r.wf(),
            r.spec_width() == width,
            r.spec_height() == height,
            forall|i: int| 0 <= i < r.pixels().len() ==> r.pixels()[i] == fill,
    {
        let n: usize = width * height;
        let mut pixels: Vec<T> = Vec::new();
        let mut i: usize = 0;
        while i < n
            invariant
                i <= n,
                pixels@.len() == i,
                forall|j: int| 0 <= j < i ==> pixels@[j] == fill,
            decreases n - i,
        {
            pixels.push(fill);
            i = i + 1;
        }
        RaytracerPixmap { width, height, pixels }
    }

    pub fn get_width(&self) -> (r: usize)
        ensures
            r == self.spec_width(),
    {
        self.width
    }

    pub fn get_height(&self) -> (r: usize)
        ensures
            r == self.spec_height(),
    {
        self.height
    }

    /// The pixel at (x, y).
    pub fn get_pixel_color(&self, x: usize, y: usize) -> (r: T)
        requires
            self.wf(),
            x < self.spec_width(),
            y < self.spec_height(),
        ensures
            r == self.at(x as int, y as int),
    {
        proof {
            lemma_index_in_grid(x as int, y as int, self.width as int, self.height as int);
        }
        let len = self.pixels.len();
        assert(y * self.width + x < len);
        self.pixels[y * self.width + x]
    }

    /// Replaces the pixel at (x, y) and leaves every other pixel as it was.
    pub fn set_pixel_color(&mut self, x: usize, y: usize, color: T)
        requires
            old(self).wf(),
            x < old(self).spec_width(),
            y < old(self).spec_height(),
        ensures
            final(self).wf(),
            final(self).spec_width() == old(self).spec_width(),
            final(self).spec_height() == old(self).spec_height(),
            final(self).pixels() == old(self).pixels().update(
                grid_index(old(self).spec_width() as int, x as int, y as int),
                color,
            ),
    {
        proof {
            lemma_index_in_grid(x as int, y as int, self.width as int, self.height as int);
        }
        let len = self.pixels.len();
        assert(y * self.width + x < len);
        let i = y * self.width + x;
        self.pixels.set(i, color);
    }

    /// Sets every pixel to `color`.
    pub fn fill_with_color(&mut self, color: T)
        requires
            old(self).wf(),
        ensures
            final(self).wf(),
            final(self).spec_width() == old(self).spec_width(),
            final(self).spec_height() == old(self).spec_height(),
            forall|i: int| 0 <= i < final(self).pixels().len() ==> final(self).pixels()[i] == color,
    {
        let n = self.pixels.len();
        let mut i: usize = 0;
        while i < n
            invariant
                i <= n,
                n == self.pixels@.len(),
                self.wf(),
                self.width == old(self).width,
                self.height == old(self).height,
                forall|j: int| 0 <= j < i ==> self.pixels@[j] == color,
            decreases n - i,
        {
            self.pixels.set(i, color);
            i = i + 1;
        }
    }

    /// A copy of a grid given as its rows, or `None` when the number of
    /// values is not `width * height`.
    pub fn from_pixels(width: usize, height: usize, pixels: Vec<T>) -> (r: Option<Self>)
        ensures
            r is Some <==> pixels@.len() == width * height,
            r matches Some(p) ==> p.wf() && p.spec_width() == width && p.spec_height() == height
                && p.pixels() == pixels@,
    {
        let len = pixels.len();
        if height != 0 && width > usize::MAX / height {
            proof {
                assert(width * height > usize::MAX) by (nonlinear_arith)
                    requires
                        height > 0,
                        width > usize::MAX / height,
                ;
            }
            return None;
        }
        proof {
            if height != 0 {
                assert(width * height <= usize::MAX) by (nonlinear_arith)
                    requires
                        height > 0,
                        width <= usize::MAX / height,
                ;
            }
        }
        if len != width * height {
            None
        } else {
            Some(RaytracerPixmap { width, height, pixels })
        }
    }
}

/// A view of a packed byte buffer: pixel (x, y) starts at byte
/// `y * row_stride + x * n_channels` and stores blue, green and red in its
/// first three bytes.
pub struct EasyPixbuf {
    width: usize,
    height: usize,
    row_stride: usize,
    n_channels: usize,
    pixels: Vec<u8>,
}

/// Offset of the first byte of pixel (x, y).
pub open spec fn pixel_offset(row_stride: int, n_channels: int, x: int, y: int) -> int {
    y * row_stride + x * n_channels
}

/// Every pixel of the grid, with at least three channels, lies within the
/// buffer.
pub open spec fn layout_fits(
    width: int,
    height: int,
    row_stride: int,
    n_channels: int,
    len: int,
) -> bool {
    &&& n_channels >= 3
    &&& (width > 0 && height > 0) ==> (height - 1) * row_stride + width * n_channels <= len
}

proof fn lemma_pixel_in_buffer(
    width: int,
    height: int,
    row_stride: int,
    n_channels: int,
    len: int,
    x: int,
    y: int,
)
    requires
        layout_fits(width, height, row_stride, n_channels, len),
        0 <= x < width,
        0 <= y < height,
        row_stride >= 0,
    ensures
        0 <= pixel_offset(row_stride, n_channels, x, y),
        pixel_offset(row_stride, n_channels, x, y) + n_channels <= len,
        0 <= y * row_stride <= len,
        0 <= x * n_channels <= len,
{
    assert(y * row_stride <= (height - 1) * row_stride) by (nonlinear_arith)
        requires
            0 <= y < height,
            row_stride >= 0,
    ;
    assert(x * n_channels + n_channels <= width * n_channels) by (nonlinear_arith)
        requires
            0 <= x < width,
            n_channels >= 3,
    ;
    assert(0 <= y * row_stride) by (nonlinear_arith)
        requires
            0 <= y,
            row_stride >= 0,
    ;
    assert(0 <= x * n_channels) by (nonlinear_arith)
        requires
            0 <= x,
            n_channels >= 3,
    ;
}

impl EasyPixbuf {
    pub closed spec fn spec_width(&self) -> nat {
        self.width as nat
    }

    pub closed spec fn spec_height(&self) -> nat {
        self.height as nat
    }

    pub closed spec fn spec_row_stride(&self) -> nat {
        self.row_stride as nat
    }

    pub closed spec fn spec_n_channels(&self) -> nat {
        self.n_channels as nat
    }

    /// The bytes of the buffer.
    pub closed spec fn bytes(&self) -> Seq<u8> {
        self.pixels@
    }

    pub open spec fn wf(&self) -> bool {
        layout_fits(
            self.spec_width() as int,
            self.spec_height() as int,
            self.spec_row_stride() as int,
            self.spec_n_channels() as int,
            self.bytes().len() as int,
        )
    }

    /// Offset of the first byte of pixel (x, y).
    pub open spec fn offset(&self, x: int, y: int) -> int {
        pixel_offset(self.spec_row_stride() as int, self.spec_n_channels() as int, x, y)
    }

    /// A view of `pixels` with the given geometry.
    pub fn new(
        width: usize,
        height: usize,
        row_stride: usize,
        n_channels: usize,
        pixels: Vec<u8>,
    ) -> (r: Self)
        requires
            layout_fits(
                width as int,
                height as int,
                row_stride as int,
                n_channels as int,
                pixels@.len() as int,
            ),
        ensures
            r.wf(),
            r.spec_width() == width,
            r.spec_height() == height,
            r.spec_row_stride() == row_stride,
            r.spec_n_channels() == n_channels,
            r.bytes() == pixels@,
    {
        EasyPixbuf { width, height, row_stride, n_channels, pixels }
    }

    pub fn get_width(&self) -> (r: usize)
        ensures
            r == self.spec_width(),
    {
        self.width
    }

    pub fn get_height(&self) -> (r: usize)
        ensures
            r == self.spec_height(),
    {
        self.height
    }

    /// Hands the buffer back.
    pub fn into_pixels(self) -> (r: Vec<u8>)
        ensures
            r@ == self.bytes(),
    {
        self.pixels
    }

    /// The bytes of pixel (x, y): one per channel.
    pub fn get_pixel_slice(&self, x: usize, y: usize) -> (r: &[u8])
        requires
            self.wf(),
            x < self.spec_width(),
            y < self.spec_height(),
        ensures
            r@ == self.bytes().subrange(
                self.offset(x as int, y as int),
                self.offset(x as int, y as int) + self.spec_n_channels(),
            ),
    {
        proof {
            lemma_pixel_in_buffer(
                self.width as int,
                self.height as int,
                self.row_stride as int,
                self.n_channels as int,
                self.pixels@.len() as int,
                x as int,
                y as int,
            );
        }
        let len = self.pixels.len();
        assert(y * self.row_stride <= len && x * self.n_channels <= len);
        let pos = y * self.row_stride + x * self.n_channels;
        let all = self.pixels.as_slice();
        &all[pos..pos + self.n_channels]
    }

    /// The bytes of pixel (x, y), to be written in place.
    pub fn get_pixel_slice_mut(&mut self, x: usize, y: usize) -> (r: &mut [u8])
        requires
            old(self).wf(),
            x < old(self).spec_width(),
            y < old(self).spec_height(),
        ensures
            r@ == old(self).bytes().subrange(
                old(self).offset(x as int, y as int),
                old(self).offset(x as int, y as int) + old(self).spec_n_channels(),
            ),
            final(r)@.len() == r@.len() ==> final(self).bytes() == old(self).bytes().subrange(
                0,
                old(self).offset(x as int, y as int),
            ) + final(r)@ + old(self).bytes().subrange(
                old(self).offset(x as int, y as int) + old(self).spec_n_channels(),
                old(self).bytes().len() as int,
            ),
            final(self).spec_width() == old(self).spec_width(),
            final(self).spec_height() == old(self).spec_height(),
            final(self).spec_row_stride() == old(self).spec_row_stride(),
            final(self).spec_n_channels() == old(self).spec_n_channels(),
    {
        proof {
            lemma_pixel_in_buffer(
                self.width as int,
                self.height as int,
                self.row_stride as int,
                self.n_channels as int,
                self.pixels@.len() as int,
                x as int,
                y as int,
            );
        }
        let len = self.pixels.len();
        assert(y * self.row_stride <= len && x * self.n_channels <= len);
        let pos = y * self.row_stride + x * self.n_channels;
        let n = self.n_channels;
        let all = self.pixels.as_mut_slice();
        let (_, rest) = all.split_at_mut(pos);
        let (pixel, _) = rest.split_at_mut(n);
        pixel
    }
}

} // verus!
