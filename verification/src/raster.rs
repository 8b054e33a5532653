use vstd::prelude::*;

verus! {

/// Index of one channel sample inside an interleaved RGB8 buffer of
/// row width `w`: pixel `(x, y)`, channel `c` (`0` = red, `1` = green,
/// `2` = blue).
pub open spec fn sample_idx(w: int, x: int, y: int, c: int) -> int {
    (y * w + x) * 3 + c
}

/// An RGB8 raster: `width * height` pixels, three bytes per pixel,
/// interleaved in row-major order.
#[derive(Debug, Clone, PartialEq, Eq)]
pub struct Image {
    pub width: u32,
    pub height: u32,
    pub data: Vec<u8>,
}

impl Image {
    /// The buffer holds exactly three bytes per pixel.
    pub open spec fn wf(&self) -> bool {
        self.data@.len() == 3 * self.width * self.height
    }

    /// The channel sample at pixel `(x, y)`, channel `c`.
    pub open spec fn pixel(&self, x: int, y: int, c: int) -> u8 {
        self.data@[sample_idx(self.width as int, x, y, c)]
    }

    /// A sample index of a pixel inside the raster lies inside the buffer.
    pub proof fn lemma_sample_idx_in_bounds(&self, x: int, y: int, c: int)
        requires
            self.wf(),
            0 <= x < self.width,
            0 <= y < self.height,
            0 <= c < 3,
        ensures
            0 <= sample_idx(self.width as int, x, y, c) < self.data@.len(),
    {
        let w = self.width as int;
        let h = self.height as int;
        assert((y * w + x) * 3 + c < 3 * w * h) by (nonlinear_arith)
            requires
                0 <= x < w,
                0 <= y < h,
                0 <= c < 3,
        ;
        assert(0 <= (y * w + x) * 3 + c) by (nonlinear_arith)
            requires
                0 <= x,
                0 <= y,
                0 <= c,
                0 <= w,
        ;
    }

    /// Distinct pixels of the raster occupy distinct buffer indices.
    pub proof fn lemma_sample_idx_injective(&self, x1: int, y1: int, c1: int, x2: int, y2: int, c2: int)
        requires
            0 <= x1 < self.width,
            0 <= y1 < self.height,
            0 <= c1 < 3,
            0 <= x2 < self.width,
            0 <= y2 < self.height,
            0 <= c2 < 3,
            sample_idx(self.width as int, x1, y1, c1) == sample_idx(self.width as int, x2, y2, c2),
        ensures
            x1 == x2 && y1 == y2 && c1 == c2,
    {
        let w = self.width as int;
        assert(x1 == x2 && y1 == y2 && c1 == c2) by (nonlinear_arith)
            requires
                (y1 * w + x1) * 3 + c1 == (y2 * w + x2) * 3 + c2,
                0 <= x1 < w,
                0 <= x2 < w,
                0 <= c1 < 3,
                0 <= c2 < 3,
                0 <= y1,
                0 <= y2,
        ;
    }

    /// An all-black (zero-filled) raster of the given dimensions.
    pub fn new_black(width: u32, height: u32) -> (r: Image)
        requires
            3 * width * height <= usize::MAX,
        ensures
            r.wf(),
            r.width == width,
            r.height == height,
            forall|i: int| 0 <= i < r.data@.len() ==> r.data@[i] == 0u8,
    {
        proof {
            assert(0 <= width * height && width * height * 3 == 3 * width * height)
                by (nonlinear_arith);
        }
        let count: usize = (width as usize) * (height as usize) * 3;
        let data: Vec<u8> = vec![0u8; count];
        Image { width, height, data }
    }

    /// Wraps a raw interleaved RGB8 buffer; `None` when the buffer
    /// length does not match the dimensions.
    pub fn from_raw(width: u32, height: u32, data: Vec<u8>) -> (r: Option<Image>)
        ensures
            (data@.len() == 3 * width * height) <==> r is Some,
            r matches Some(img) ==> img.wf() && img.width == width && img.height == height
                && img.data@ == data@,
    {
        proof {
            assert(0 <= width * height && width * height * 3 == 3 * width * height
                && width * height * 3 <= 0xffff_ffffu64 * 0xffff_ffffu64 * 3)
                by (nonlinear_arith)
                requires
                    width <= 0xffff_ffffu64,
                    height <= 0xffff_ffffu64,
            ;
        }
        let expected: u128 = (width as u128) * (height as u128) * 3;
        if (data.len() as u128) == expected {
            Some(Image { width, height, data })
        } else {
            None
        }
    }

    /// Reads the channel sample at pixel `(x, y)`, channel `c`.
    pub fn get(&self, x: u32, y: u32, c: u32) -> (r: u8)
        requires
            self.wf(),
            x < self.width,
            y < self.height,
            c < 3,
        ensures
            r == self.pixel(x as int, y as int, c as int),
    {
        proof {
            assert(self.data.len() == self.data@.len());
            self.lemma_sample_idx_in_bounds(x as int, y as int, c as int);
            assert(0 <= (y as int) * (self.width as int)
                && (y as int) * (self.width as int) + (x as int)
                    <= ((y as int) * (self.width as int) + (x as int)) * 3 + (c as int))
                by (nonlinear_arith)
                requires
                    0 <= x as int,
                    0 <= y as int,
                    0 <= c as int,
                    0 <= self.width as int,
            ;
        }
        let idx: usize = ((y as usize) * (self.width as usize) + (x as usize)) * 3 + (c as usize);
        self.data[idx]
    }

    /// Writes the channel sample at pixel `(x, y)`, channel `c`; all
    /// other samples keep their values.
    pub fn set(&mut self, x: u32, y: u32, c: u32, v: u8)
        requires
            old(self).wf(),
            x < old(self).width,
            y < old(self).height,
            c < 3,
        ensures
            final(self).wf(),
            final(self).width == old(self).width,
            final(self).height == old(self).height,
            final(self).data@ == old(self).data@.update(
                sample_idx(old(self).width as int, x as int, y as int, c as int),
                v,
            ),
            final(self).pixel(x as int, y as int, c as int) == v,
            forall|x2: int, y2: int, c2: int|
                0 <= x2 < old(self).width && 0 <= y2 < old(self).height && 0 <= c2 < 3
                    && !(x2 == x && y2 == y && c2 == c)
                    ==> final(self).pixel(x2, y2, c2) == old(self).pixel(x2, y2, c2),
    {
        proof {
            assert(old(self).data.len() == old(self).data@.len());
            old(self).lemma_sample_idx_in_bounds(x as int, y as int, c as int);
            assert(0 <= (y as int) * (self.width as int)
                && (y as int) * (self.width as int) + (x as int)
                    <= ((y as int) * (self.width as int) + (x as int)) * 3 + (c as int))
                by (nonlinear_arith)
                requires
                    0 <= x as int,
                    0 <= y as int,
                    0 <= c as int,
                    0 <= self.width as int,
            ;
        }
        let idx: usize = ((y as usize) * (self.width as usize) + (x as usize)) * 3 + (c as usize);
        self.data[idx] = v;
        proof {
            assert forall|x2: int, y2: int, c2: int|
                0 <= x2 < old(self).width && 0 <= y2 < old(self).height && 0 <= c2 < 3
                    && !(x2 == x && y2 == y && c2 == c)
                implies self.pixel(x2, y2, c2) == old(self).pixel(x2, y2, c2) by {
                old(self).lemma_sample_idx_in_bounds(x2, y2, c2);
                if sample_idx(old(self).width as int, x2, y2, c2)
                    == sample_idx(old(self).width as int, x as int, y as int, c as int) {
                    old(self).lemma_sample_idx_injective(
                        x2, y2, c2, x as int, y as int, c as int,
                    );
                }
            }
        }
    }

    /// Two well-formed rasters with the same dimensions and the same
    /// samples at every pixel are equal.
    pub proof fn lemma_pixelwise_eq(&self, other: &Image)
        requires
            self.wf(),
            other.wf(),
            self.width == other.width,
            self.height == other.height,
            forall|x: int, y: int, c: int|
                0 <= x < self.width && 0 <= y < self.height && 0 <= c < 3
                    ==> self.pixel(x, y, c) == other.pixel(x, y, c),
        ensures
            self.data@ =~= other.data@,
    {
        let w = self.width as int;
        let h = self.height as int;
        assert forall|i: int| 0 <= i < self.data@.len() implies self.data@[i] == other.data@[i] by {
            assert(w >= 1 && h >= 1) by (nonlinear_arith)
                requires
                    0 < 3 * w * h,
                    w >= 0,
                    h >= 0,
            ;
            let c = i % 3;
            let p = i / 3;
            let x = p % w;
            let y = p / w;
            assert(i == (y * w + x) * 3 + c && 0 <= x < w && 0 <= y < h && 0 <= c < 3)
                by (nonlinear_arith)
                requires
                    c == i % 3,
                    p == i / 3,
                    x == p % w,
                    y == p / w,
                    0 <= i < 3 * w * h,
                    w >= 1,
                    h >= 1,
            ;
            assert(self.pixel(x, y, c) == other.pixel(x, y, c));
        }
    }
}

} // verus!
