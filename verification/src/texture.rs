use vstd::prelude::*;
use vstd::arithmetic::div_mod::{
    lemma_fundamental_div_mod, lemma_fundamental_div_mod_converse, lemma_mod_add_multiples_vanish,
    lemma_mod_bound, lemma_mod_pos_bound, lemma_mod_sub_multiples_vanish,
};
use crate::pixel::Rgba;

verus! {

/// A texture: an in-memory 8-bit RGBA raster sampled during shading.
/// Pixels are stored row-major; the well-formedness invariant ties the
/// buffer length to the dimensions.
pub struct Texture {
    width: u32,
    height: u32,
    pixels: Vec<Rgba>,
}

impl Texture {
    /// The buffer holds exactly one pixel per grid point.
    pub closed spec fn wf(&self) -> bool {
        self.pixels@.len() == (self.width as nat) * (self.height as nat)
    }

    pub closed spec fn spec_width(&self) -> u32 {
        self.width
    }

    pub closed spec fn spec_height(&self) -> u32 {
        self.height
    }

    /// Row-major pixel contents.
    pub closed spec fn spec_pixels(&self) -> Seq<Rgba> {
        self.pixels@
    }

    /// The pixel at column `x`, row `y`.
    pub open spec fn spec_pixel(&self, x: int, y: int) -> Rgba {
        self.spec_pixels()[y * (self.spec_width() as int) + x]
    }

    /// Builds a texture from a row-major pixel buffer; rejects a buffer whose
    /// length does not match the dimensions.
    pub fn new(width: u32, height: u32, pixels: Vec<Rgba>) -> (r: Option<Texture>)
        ensures
            match r {
                Some(t) => {
                    &&& t.wf()
                    &&& t.spec_width() == width
                    &&& t.spec_height() == height
                    &&& t.spec_pixels() == pixels@
                    &&& pixels@.len() == (width as nat) * (height as nat)
                },
                None => pixels@.len() != (width as nat) * (height as nat),
            },
    {
        proof {
            assert((width as int) * (height as int) <= u64::MAX as int) by (nonlinear_arith);
        }
        let expected: u128 = (width as u128) * (height as u128);
        if (pixels.len() as u128) == expected {
            Some(Texture { width, height, pixels })
        } else {
            None
        }
    }

    pub fn width(&self) -> (r: u32)
        ensures
            r == self.spec_width(),
    {
        self.width
    }

    pub fn height(&self) -> (r: u32)
        ensures
            r == self.spec_height(),
    {
        self.height
    }

    /// Fetches the pixel at `(x, y)`.
    pub fn get_pixel(&self, x: u32, y: u32) -> (r: Rgba)
        requires
            self.wf(),
            x < self.spec_width(),
            y < self.spec_height(),
        ensures
            r == self.spec_pixel(x as int, y as int),
    {
        let n: usize = self.pixels.len();
        proof {
            lemma_row_major_index_in_range(
                x as int,
                y as int,
                self.spec_width() as int,
                self.spec_height() as int,
            );
            assert((y as int) * (self.width as int) + (x as int) < n as int);
        }
        let idx: usize = (y as usize) * (self.width as usize) + (x as usize);
        self.pixels[idx]
    }
}

/// A row-major index lies inside the buffer whenever the coordinates lie
/// inside the grid.
pub proof fn lemma_row_major_index_in_range(x: int, y: int, w: int, h: int) by (nonlinear_arith)
    requires
        0 <= x < w,
        0 <= y < h,
    ensures
        0 <= y * w + x < w * h,
        w * h == h * w,
{
}

/// The checkerboard color at a grid point: square cells `cell` pixels on a
/// side, colored alternately, with the cell at the origin getting `even`.
pub open spec fn checker_spec(cell: int, x: int, y: int, even: Rgba, odd: Rgba) -> Rgba
    recommends
        cell > 0,
{
    if (x / cell + y / cell) % 2 == 0 {
        even
    } else {
        odd
    }
}

/// Builds a checkerboard texture; rejects dimensions whose total byte size
/// (four bytes per pixel) cannot be addressed.
pub fn checkerboard(cell: u32, width: u32, height: u32, even: Rgba, odd: Rgba) -> (r: Option<
    Texture,
>)
    requires
        cell >= 1,
    ensures
        match r {
            Some(t) => {
                &&& t.wf()
                &&& t.spec_width() == width
                &&& t.spec_height() == height
                &&& forall|x: int, y: int|
                    0 <= x < width && 0 <= y < height ==> t.spec_pixel(x, y) == checker_spec(
                        cell as int,
                        x,
                        y,
                        even,
                        odd,
                    )
                &&& 4 * ((width as nat) * (height as nat)) <= usize::MAX as nat
            },
            None => 4 * ((width as nat) * (height as nat)) > usize::MAX as nat,
        },
{
    proof {
        assert((width as int) * (height as int) <= u64::MAX as int) by (nonlinear_arith);
    }
    let total: u128 = (width as u128) * (height as u128);
    if 4 * total > usize::MAX as u128 {
        return None;
    }
    let mut pixels: Vec<Rgba> = Vec::new();
    let mut y: u32 = 0;
    while y < height
        invariant
            cell >= 1,
            y <= height,
            pixels@.len() == (y as int) * (width as int),
            forall|i: int, j: int|
                0 <= i < width && 0 <= j < y ==> pixels@[j * (width as int) + i] == checker_spec(
                    cell as int,
                    i,
                    j,
                    even,
                    odd,
                ),
        decreases height - y,
    {
        let mut x: u32 = 0;
        while x < width
            invariant
                cell >= 1,
                y < height,
                x <= width,
                pixels@.len() == (y as int) * (width as int) + (x as int),
                forall|i: int, j: int|
                    0 <= i < width && 0 <= j < y ==> pixels@[j * (width as int) + i]
                        == checker_spec(cell as int, i, j, even, odd),
                forall|i: int|
                    0 <= i < x ==> pixels@[(y as int) * (width as int) + i] == checker_spec(
                        cell as int,
                        i,
                        y as int,
                        even,
                        odd,
                    ),
            decreases width - x,
        {
            let parity: u64 = ((x as u64) / (cell as u64) + (y as u64) / (cell as u64)) % 2;
            let c = if parity == 0 {
                even
            } else {
                odd
            };
            let ghost prev = pixels@;
            pixels.push(c);
            x = x + 1;
            proof {
                assert forall|i: int, j: int|
                    0 <= i < width && 0 <= j < y implies pixels@[j * (width as int) + i]
                    == checker_spec(cell as int, i, j, even, odd) by {
                    lemma_row_major_index_in_range(i, j, width as int, y as int);
                    assert(j * (width as int) + i < prev.len());
                    assert(pixels@[j * (width as int) + i] == prev[j * (width as int) + i]);
                }
            }
        }
        proof {
            assert((y as int + 1) * (width as int) == (y as int) * (width as int) + (width as int))
                by (nonlinear_arith);
        }
        y = y + 1;
    }
    proof {
        assert((height as int) * (width as int) == (width as int) * (height as int))
            by (nonlinear_arith);
    }
    Some(Texture { width, height, pixels })
}

/// Where a wrapped texture coordinate lands: the Euclidean remainder, in
/// `[0, bound)` for positive `bound`.
pub open spec fn wrap_spec(coord: int, bound: int) -> int
    recommends
        bound > 0,
{
    coord % bound
}

/// Wraps a scaled texture coordinate into the pixel grid `[0, bound)`.
/// Sampling a texture scales the fractional coordinate by the image size
/// and truncates; this folds the resulting (possibly negative) integer
/// back into range, so out-of-range coordinates tile the texture.
pub fn wrap_index(coord: i32, bound: u32) -> (r: u32)
    requires
        1 <= bound <= i32::MAX as u32,
    ensures
        r == wrap_spec(coord as int, bound as int),
        r < bound,
{
    proof {
        lemma_mod_bound(coord as int, bound as int);
    }
    if coord >= 0 {
        (coord as u32) % bound
    } else {
        let mag: u64 = (-(coord as i64)) as u64;
        let m: u64 = mag % (bound as u64);
        proof {
            lemma_mod_pos_bound(mag as int, bound as int);
            lemma_fundamental_div_mod(mag as int, bound as int);
            let c = coord as int;
            let b = bound as int;
            let q = (mag as int) / b;
            if m == 0 {
                assert(c == (0 - q) * b + 0) by (nonlinear_arith)
                    requires
                        mag as int == b * q + (m as int),
                        c == 0 - mag as int,
                        m == 0,
                ;
                lemma_fundamental_div_mod_converse(c, b, 0 - q, 0);
            } else {
                assert(c == (0 - q - 1) * b + (b - m as int)) by (nonlinear_arith)
                    requires
                        mag as int == b * q + (m as int),
                        c == 0 - mag as int,
                ;
                lemma_fundamental_div_mod_converse(c, b, 0 - q - 1, b - m as int);
            }
        }
        if m == 0 {
            0
        } else {
            bound - (m as u32)
        }
    }
}

/// Sampling tiles the texture: moving a whole texture width (or height) in
/// either direction wraps to the same pixel.
pub proof fn lemma_wrap_periodic(coord: int, bound: int)
    requires
        bound > 0,
    ensures
        wrap_spec(coord + bound, bound) == wrap_spec(coord, bound),
        wrap_spec(coord - bound, bound) == wrap_spec(coord, bound),
{
    lemma_mod_add_multiples_vanish(coord, bound);
    lemma_mod_sub_multiples_vanish(coord, bound);
}

/// A placeholder texture with no pixels at all.
pub fn dummy_texture() -> (r: Texture)
    ensures
        r.wf(),
        r.spec_width() == 0,
        r.spec_height() == 0,
        r.spec_pixels().len() == 0,
{
    Texture { width: 0, height: 0, pixels: Vec::new() }
}

} // verus!
