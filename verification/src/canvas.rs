//! The pixel canvas and the raw RGBA8 encoder.
use vstd::prelude::*;
use crate::color::Rgba;
use crate::layout::MAX_DIM;
use crate::Error;

verus! {

/// A width x height grid of RGBA pixels, row-major, top row first.
#[derive(Debug, Clone)]
pub struct Canvas {
    pub width: u32,
    pub height: u32,
    pub pixels: Vec<Rgba>,
}

impl Canvas {
    /// The pixel grid is complete and the dimensions are in range.
    pub open spec fn wf(&self) -> bool {
        &&& self.pixels@.len() == self.width * self.height
        &&& self.width <= MAX_DIM
        &&& self.height <= MAX_DIM
    }

    /// The pixel at column `x` of row `y`.
    pub open spec fn at(&self, x: int, y: int) -> Rgba {
        self.pixels@[y * self.width + x]
    }

    /// Reads the pixel at column `x` of row `y`.
    pub fn get(&self, x: u32, y: u32) -> (c: Rgba)
        requires
            self.wf(),
            x < self.width,
            y < self.height,
        ensures
            c == self.at(x as int, y as int),
    {
        proof {
            lemma_row_major_index(x as int, y as int, self.width as int, self.height as int);
            assert(y * self.width + x < 8192 * 8192) by (nonlinear_arith)
                requires 0 <= x < self.width <= 8192 && 0 <= y < self.height <= 8192;
        }
        self.pixels[y as usize * self.width as usize + x as usize]
    }
}

/// A row-major index stays inside the grid.
pub proof fn lemma_row_major_index(x: int, y: int, w: int, h: int)
    requires
        0 <= x < w,
        0 <= y < h,
    ensures
        0 <= y * w + x < w * h,
        y * w + x == x + w * y,
{
    assert(0 <= y * w + x < w * h && y * w + x == x + w * y) by (nonlinear_arith)
        requires 0 <= x < w && 0 <= y < h;
}

/// Serializes the canvas as interleaved R,G,B,A bytes, row-major, top to
/// bottom, `width * 4` bytes per row with no padding. Fails with
/// `NonRgbaBuffer` exactly when the canvas is malformed — which the
/// pipeline never produces; the check is defensive.
pub fn encode_raw(c: &Canvas) -> (r: Result<Vec<u8>, Error>)
    ensures
        r is Ok <==> c.wf(),
        r matches Ok(bytes) ==> {
            &&& bytes@.len() == c.width * c.height * 4
            &&& forall|i: int|
                0 <= i < c.width * c.height ==> {
                    &&& bytes@[4 * i] == c.pixels@[i].r
                    &&& bytes@[4 * i + 1] == c.pixels@[i].g
                    &&& bytes@[4 * i + 2] == c.pixels@[i].b
                    &&& bytes@[4 * i + 3] == c.pixels@[i].a
                }
        },
        r matches Err(e) ==> e is NonRgbaBuffer,
{
    if c.width > MAX_DIM || c.height > MAX_DIM {
        return Err(Error::NonRgbaBuffer);
    }
    proof {
        assert(c.width * c.height <= 8192 * 8192) by (nonlinear_arith)
            requires 0 <= c.width <= 8192 && 0 <= c.height <= 8192;
    }
    let n: usize = c.width as usize * c.height as usize;
    if c.pixels.len() != n {
        return Err(Error::NonRgbaBuffer);
    }
    let mut bytes: Vec<u8> = Vec::new();
    let mut i: usize = 0;
    while i < n
        invariant
            i <= n,
            n == c.width * c.height,
            c.pixels@.len() == n,
            n <= MAX_DIM * MAX_DIM,
            bytes@.len() == 4 * i,
            forall|j: int|
                0 <= j < i ==> {
                    &&& bytes@[4 * j] == c.pixels@[j].r
                    &&& bytes@[4 * j + 1] == c.pixels@[j].g
                    &&& bytes@[4 * j + 2] == c.pixels@[j].b
                    &&& bytes@[4 * j + 3] == c.pixels@[j].a
                },
        decreases n - i,
    {
        let p = c.pixels[i];
        bytes.push(p.r);
        bytes.push(p.g);
        bytes.push(p.b);
        bytes.push(p.a);
        i += 1;
    }
    Ok(bytes)
}

} // verus!
