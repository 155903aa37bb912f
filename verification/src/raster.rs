use vstd::prelude::*;
use crate::pixel::Rgba;
use crate::texture::lemma_row_major_index_in_range;

verus! {

/// The output image of a render: an 8-bit RGBA raster written one pixel at
/// a time. A new raster starts filled with a background color, so a renderer
/// only has to overwrite the pixels whose primary ray hits something.
pub struct Raster {
    width: u32,
    height: u32,
    pixels: Vec<Rgba>,
}

impl Raster {
    /// The buffer holds exactly one pixel per grid point.
    pub closed spec fn wf(&self) -> bool {
        self.pixels@.len() == (self.width as nat) * (self.height as nat)
    }

    pub closed spec fn spec_width(&self) -> u32 {
        self.width
    }

    pub closed spec fn spec_height(&self) -> u32 {
        self.height
    }

    /// Row-major pixel contents.
    pub closed spec fn spec_pixels(&self) -> Seq<Rgba> {
        self.pixels@
    }

    /// The pixel at column `x`, row `y`.
    pub open spec fn spec_pixel(&self, x: int, y: int) -> Rgba {
        self.spec_pixels()[y * (self.spec_width() as int) + x]
    }

    /// Allocates a raster with every pixel set to `background`; rejects
    /// dimensions whose total byte size (four bytes per pixel) cannot be
    /// addressed.
    pub fn new(width: u32, height: u32, background: Rgba) -> (r: Option<Raster>)
        ensures
            match r {
                Some(t) => {
                    &&& t.wf()
                    &&& t.spec_width() == width
                    &&& t.spec_height() == height
                    &&& t.spec_pixels().len() == (width as nat) * (height as nat)
                    &&& forall|i: int|
                        0 <= i < t.spec_pixels().len() ==> t.spec_pixels()[i] == background
                    &&& 4 * ((width as nat) * (height as nat)) <= usize::MAX as nat
                },
                None => 4 * ((width as nat) * (height as nat)) > usize::MAX as nat,
            },
    {
        proof {
            assert((width as int) * (height as int) <= u64::MAX as int) by (nonlinear_arith);
        }
        let total: u128 = (width as u128) * (height as u128);
        if 4 * total > usize::MAX as u128 {
            return None;
        }
        let n: usize = total as usize;
        let mut pixels: Vec<Rgba> = Vec::new();
        let mut i: usize = 0;
        while i < n
            invariant
                i <= n,
                pixels@.len() == i,
                forall|j: int| 0 <= j < i ==> pixels@[j] == background,
            decreases n - i,
        {
            pixels.push(background);
            i = i + 1;
        }
        Some(Raster { width, height, pixels })
    }

    pub fn width(&self) -> (r: u32)
        ensures
            r == self.spec_width(),
    {
        self.width
    }

    pub fn height(&self) -> (r: u32)
        ensures
            r == self.spec_height(),
    {
        self.height
    }

    /// Fetches the pixel at `(x, y)`.
    pub fn get_pixel(&self, x: u32, y: u32) -> (r: Rgba)
        requires
            self.wf(),
            x < self.spec_width(),
            y < self.spec_height(),
        ensures
            r == self.spec_pixel(x as int, y as int),
    {
        let n: usize = self.pixels.len();
        proof {
            lemma_row_major_index_in_range(
                x as int,
                y as int,
                self.spec_width() as int,
                self.spec_height() as int,
            );
            assert((y as int) * (self.width as int) + (x as int) < n as int);
        }
        let idx: usize = (y as usize) * (self.width as usize) + (x as usize);
        self.pixels[idx]
    }

    /// Overwrites the pixel at `(x, y)` and nothing else.
    pub fn put_pixel(&mut self, x: u32, y: u32, px: Rgba)
        requires
            old(self).wf(),
            x < old(self).spec_width(),
            y < old(self).spec_height(),
        ensures
            final(self).wf(),
            final(self).spec_width() == old(self).spec_width(),
            final(self).spec_height() == old(self).spec_height(),
            final(self).spec_pixels() == old(self).spec_pixels().update(
                (y as int) * (old(self).spec_width() as int) + (x as int),
                px,
            ),
            final(self).spec_pixel(x as int, y as int) == px,
            forall|i: int, j: int|
                0 <= i < old(self).spec_width() && 0 <= j < old(self).spec_height() && !(i == x
                    && j == y) ==> final(self).spec_pixel(i, j) == old(self).spec_pixel(i, j),
    {
        let n: usize = self.pixels.len();
        proof {
            lemma_row_major_index_in_range(
                x as int,
                y as int,
                self.spec_width() as int,
                self.spec_height() as int,
            );
            assert((y as int) * (self.width as int) + (x as int) < n as int);
        }
        let idx: usize = (y as usize) * (self.width as usize) + (x as usize);
        self.pixels.set(idx, px);
        proof {
            let w = self.spec_width() as int;
            let h = self.spec_height() as int;
            assert forall|i: int, j: int|
                0 <= i < w && 0 <= j < h && !(i == x && j == y) implies self.spec_pixel(i, j)
                == old(self).spec_pixel(i, j) by {
                lemma_row_major_index_in_range(i, j, w, h);
                lemma_row_major_index_injective(i, j, x as int, y as int, w);
            }
        }
    }

    /// Hands the finished raster over as a row-major pixel buffer.
    pub fn into_pixels(self) -> (r: Vec<Rgba>)
        ensures
            r@ == self.spec_pixels(),
    {
        self.pixels
    }

    /// Flattens the raster into interleaved RGBA bytes, four per pixel in
    /// row-major order, the form an image encoder consumes.
    pub fn into_rgba_bytes(self) -> (r: Vec<u8>)
        ensures
            r@.len() == 4 * self.spec_pixels().len(),
            forall|i: int|
                0 <= i < self.spec_pixels().len() ==> {
                    &&& r@[4 * i] == self.spec_pixels()[i].r
                    &&& r@[4 * i + 1] == self.spec_pixels()[i].g
                    &&& r@[4 * i + 2] == self.spec_pixels()[i].b
                    &&& r@[4 * i + 3] == self.spec_pixels()[i].a
                },
    {
        let n: usize = self.pixels.len();
        let mut bytes: Vec<u8> = Vec::new();
        let mut i: usize = 0;
        while i < n
            invariant
                n == self.pixels@.len(),
                i <= n,
                bytes@.len() == 4 * (i as int),
                forall|j: int|
                    0 <= j < i ==> {
                        &&& bytes@[4 * j] == self.pixels@[j].r
                        &&& bytes@[4 * j + 1] == self.pixels@[j].g
                        &&& bytes@[4 * j + 2] == self.pixels@[j].b
                        &&& bytes@[4 * j + 3] == self.pixels@[j].a
                    },
            decreases n - i,
        {
            let p = self.pixels[i];
            bytes.push(p.r);
            bytes.push(p.g);
            bytes.push(p.b);
            bytes.push(p.a);
            i = i + 1;
        }
        bytes
    }
}

/// Distinct grid points get distinct row-major indices.
pub proof fn lemma_row_major_index_injective(
    x1: int,
    y1: int,
    x2: int,
    y2: int,
    w: int,
) by (nonlinear_arith)
    requires
        0 <= x1 < w,
        0 <= x2 < w,
        0 <= y1,
        0 <= y2,
        !(x1 == x2 && y1 == y2),
    ensures
        y1 * w + x1 != y2 * w + x2,
{
}

} // verus!
