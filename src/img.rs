use vstd::prelude::*;

use crate::color::Rgba8;

verus! {

/// Number of bytes per pixel: red, green, blue, alpha.
pub const CHANNELS: usize = 4;

/// The pixel that starts at byte `4 * i` of an RGBA buffer.
pub open spec fn pixel_at(data: Seq<u8>, i: int) -> Rgba8 {
    Rgba8 {
        red: data[4 * i],
        green: data[4 * i + 1],
        blue: data[4 * i + 2],
        alpha: data[4 * i + 3],
    }
}

/// The coordinates of the `i`-th pixel of a row-major image of the given width.
pub open spec fn coords_of(width: int, i: int) -> (usize, usize) {
    ((i % width) as usize, (i / width) as usize)
}

/// An 8-bit RGBA image, stored row-major with four bytes per pixel.
pub struct ImageData {
    width: usize,
    height: usize,
    data: Vec<u8>,
}

impl ImageData {
    /// The buffer holds exactly one RGBA pixel per coordinate pair.
    pub open spec fn wf(&self) -> bool {
        &&& self.spec_width() * self.spec_height() * CHANNELS <= usize::MAX
        &&& self.spec_data().len() == self.spec_width() * self.spec_height() * CHANNELS
    }

    pub closed spec fn spec_width(&self) -> int {
        self.width as int
    }

    pub closed spec fn spec_height(&self) -> int {
        self.height as int
    }

    /// Number of pixels in the image.
    pub open spec fn pixels(&self) -> int {
        self.spec_width() * self.spec_height()
    }

    pub closed spec fn spec_data(&self) -> Seq<u8> {
        self.data@
    }

    /// A transparent black image of `width` by `height` pixels.
    pub fn new(width: usize, height: usize) -> (r: Self)
        requires
            width * height * CHANNELS <= usize::MAX,
        ensures
            r.wf(),
            r.spec_width() == width,
            r.spec_height() == height,
            forall|k: int| 0 <= k < r.spec_data().len() ==> r.spec_data()[k] == 0,
    {
        let len: usize = width * height * CHANNELS;
        let mut data: Vec<u8> = Vec::with_capacity(len);
        let mut k: usize = 0;
        while k < len
            invariant
                k <= len,
                data@.len() == k,
                forall|j: int| 0 <= j < k ==> data@[j] == 0,
            decreases len - k,
        {
            data.push(0);
            k = k + 1;
        }
        ImageData { width, height, data }
    }

    pub fn width(&self) -> (r: usize)
        ensures
            r == self.spec_width(),
    {
        self.width
    }

    pub fn height(&self) -> (r: usize)
        ensures
            r == self.spec_height(),
    {
        self.height
    }

    /// The raw bytes, four per pixel, row by row.
    pub fn data(&self) -> (r: &Vec<u8>)
        ensures
            r@ == self.spec_data(),
    {
        &self.data
    }

    /// Index of the pixel at column `x` of row `y`.
    pub fn coords_to_inx(&self, x: usize, y: usize) -> (r: usize)
        requires
            self.wf(),
            x < self.spec_width(),
            y < self.spec_height(),
        ensures
            r == y * self.spec_width() + x,
            r < self.pixels(),
    {
        proof {
            let w = self.width as int;
            let h = self.height as int;
            assert(y * w + x < w * h) by (nonlinear_arith)
                requires
                    0 <= x < w,
                    0 <= y < h,
            ;
            assert(w * h <= w * h * 4) by (nonlinear_arith)
                requires
                    0 <= w,
                    0 <= h,
            ;
        }
        y * self.width + x
    }

    /// Column and row of the pixel with index `inx`.
    pub fn inx_to_coords(&self, inx: usize) -> (r: (usize, usize))
        requires
            self.spec_width() > 0,
        ensures
            r == coords_of(self.spec_width(), inx as int),
    {
        let y = inx / self.width;
        let x = inx % self.width;
        (x, y)
    }

    /// Writes `color` into the four bytes that start at byte `inx`.
    pub fn set_inx(&mut self, inx: usize, color: Rgba8)
        requires
            old(self).wf(),
            inx + CHANNELS <= old(self).spec_data().len(),
        ensures
            final(self).wf(),
            final(self).spec_width() == old(self).spec_width(),
            final(self).spec_height() == old(self).spec_height(),
            final(self).spec_data().len() == old(self).spec_data().len(),
            forall|k: int|
                0 <= k < old(self).spec_data().len() ==> final(self).spec_data()[k] == if inx <= k
                    < inx + CHANNELS {
                    color.bytes()[k - inx]
                } else {
                    old(self).spec_data()[k]
                },
    {
        self.data.set(inx, color.red);
        self.data.set(inx + 1, color.green);
        self.data.set(inx + 2, color.blue);
        self.data.set(inx + 3, color.alpha);
    }

    /// Writes `color` into the pixel at column `x` of row `y`.
    pub fn set(&mut self, x: usize, y: usize, color: Rgba8)
        requires
            old(self).wf(),
            x < old(self).spec_width(),
            y < old(self).spec_height(),
        ensures
            final(self).wf(),
            final(self).spec_width() == old(self).spec_width(),
            final(self).spec_height() == old(self).spec_height(),
            final(self).spec_data().len() == old(self).spec_data().len(),
            pixel_at(final(self).spec_data(), y * old(self).spec_width() + x) == color,
            forall|k: int|
                0 <= k < old(self).spec_data().len() && !(CHANNELS * (y * old(self).spec_width()
                    + x) <= k < CHANNELS * (y * old(self).spec_width() + x) + CHANNELS)
                    ==> final(self).spec_data()[k] == old(self).spec_data()[k],
            forall|i: int|
                0 <= i < old(self).pixels() && i != y * old(self).spec_width() + x ==> pixel_at(
                    final(self).spec_data(),
                    i,
                ) == pixel_at(old(self).spec_data(), i),
    {
        let p = self.coords_to_inx(x, y);
        self.set_inx(p * CHANNELS, color);
    }

    /// The byte offset at which each pixel starts, in pixel order.
    pub fn indexes(&self) -> (r: Vec<usize>)
        requires
            self.wf(),
        ensures
            r@.len() == self.pixels(),
            r@.len() * CHANNELS == self.spec_data().len(),
            forall|i: int| 0 <= i < r@.len() ==> r@[i] == CHANNELS * i,
            forall|i: int| 0 <= i < r@.len() ==> r@[i] + CHANNELS <= self.spec_data().len(),
    {
        let n: usize = self.data.len() / CHANNELS;
        let mut r: Vec<usize> = Vec::new();
        let mut i: usize = 0;
        while i < n
            invariant
                n == self.pixels(),
                self.wf(),
                i <= n,
                r@.len() == i,
                forall|j: int| 0 <= j < i ==> r@[j] == CHANNELS * j,
            decreases n - i,
        {
            r.push(i * CHANNELS);
            i = i + 1;
        }
        r
    }

    /// The coordinates of each pixel, in pixel order (row by row).
    pub fn coords(&self) -> (r: Vec<(usize, usize)>)
        requires
            self.wf(),
        ensures
            r@.len() == self.pixels(),
            forall|i: int| 0 <= i < r@.len() ==> r@[i] == coords_of(self.spec_width(), i),
    {
        let n: usize = self.data.len() / CHANNELS;
        let mut r: Vec<(usize, usize)> = Vec::new();
        let mut i: usize = 0;
        while i < n
            invariant
                n == self.pixels(),
                self.wf(),
                i <= n,
                r@.len() == i,
                forall|j: int| 0 <= j < i ==> r@[j] == coords_of(self.spec_width(), j),
            decreases n - i,
        {
            proof {
                lemma_width_positive(self.width as int, self.height as int, i as int);
            }
            r.push(self.inx_to_coords(i));
            i = i + 1;
        }
        r
    }

    /// Each pixel's starting byte together with its coordinates, in pixel order.
    pub fn indexes_coords(&self) -> (r: Vec<(usize, (usize, usize))>)
        requires
            self.wf(),
        ensures
            r@.len() == self.pixels(),
            forall|i: int|
                0 <= i < r@.len() ==> r@[i] == (
                    (CHANNELS * i) as usize,
                    coords_of(self.spec_width(), i),
                ),
    {
        let n: usize = self.data.len() / CHANNELS;
        let mut r: Vec<(usize, (usize, usize))> = Vec::new();
        let mut i: usize = 0;
        while i < n
            invariant
                n == self.pixels(),
                self.wf(),
                i <= n,
                r@.len() == i,
                forall|j: int|
                    0 <= j < i ==> r@[j] == ((CHANNELS * j) as usize, coords_of(self.spec_width(), j)),
            decreases n - i,
        {
            proof {
                lemma_width_positive(self.width as int, self.height as int, i as int);
            }
            r.push((i * CHANNELS, self.inx_to_coords(i)));
            i = i + 1;
        }
        r
    }

    /// Fills every pixel with the color that `func` gives for its column and row.
    pub fn render_fn<F: Fn(usize, usize) -> Rgba8>(&mut self, func: F)
        requires
            old(self).wf(),
            forall|x: usize, y: usize|
                x < old(self).spec_width() && y < old(self).spec_height() ==> #[trigger] func.requires(
                    (x, y),
                ),
        ensures
            final(self).wf(),
            final(self).spec_width() == old(self).spec_width(),
            final(self).spec_height() == old(self).spec_height(),
            forall|i: int|
                0 <= i < old(self).pixels() ==> #[trigger] func.ensures(
                    coords_of(old(self).spec_width(), i),
                    pixel_at(final(self).spec_data(), i),
                ),
    {
        let n: usize = self.data.len() / CHANNELS;
        let ghost w = self.width as int;
        let ghost h = self.height as int;
        let mut i: usize = 0;
        while i < n
            invariant
                n == w * h,
                self.wf(),
                self.spec_width() == w,
                self.spec_height() == h,
                i <= n,
                forall|x: usize, y: usize| x < w && y < h ==> #[trigger] func.requires((x, y)),
                forall|j: int|
                    0 <= j < i ==> #[trigger] func.ensures(
                        coords_of(w, j),
                        pixel_at(self.spec_data(), j),
                    ),
            decreases n - i,
        {
            proof {
                lemma_width_positive(w, h, i as int);
                lemma_coords_in_bounds(w, h, i as int);
            }
            let (x, y) = self.inx_to_coords(i);
            let c = func(x, y);
            let ghost before = self.spec_data();
            self.set_inx(i * CHANNELS, c);
            proof {
                assert forall|j: int| 0 <= j < i + 1 implies #[trigger] func.ensures(
                    coords_of(w, j),
                    pixel_at(self.spec_data(), j),
                ) by {
                    if j < i {
                        assert(pixel_at(self.spec_data(), j) == pixel_at(before, j));
                        assert(func.ensures(coords_of(w, j), pixel_at(before, j)));
                    } else {
                        assert(pixel_at(self.spec_data(), j) == c);
                        assert(coords_of(w, j) == (x, y));
                    }
                }
            }
            i = i + 1;
        }
    }
}

proof fn lemma_width_positive(w: int, h: int, i: int)
    requires
        0 <= w,
        0 <= h,
        0 <= i < w * h,
    ensures
        w > 0,
{
    if w == 0 {
        assert(w * h == 0);
    }
}

proof fn lemma_coords_in_bounds(w: int, h: int, i: int)
    requires
        0 < w,
        0 <= h,
        0 <= i < w * h,
    ensures
        0 <= i % w < w,
        0 <= i / w < h,
{
    assert(0 <= i % w < w) by (nonlinear_arith)
        requires
            0 < w,
            0 <= i,
    ;
    assert(i / w < h) by (nonlinear_arith)
        requires
            0 < w,
            0 <= i < w * h,
    ;
    assert(0 <= i / w) by (nonlinear_arith)
        requires
            0 < w,
            0 <= i,
    ;
}

} // verus!
