//! Small containers: a pair of per-axis values and a dense pixel matrix.

use vstd::prelude::*;

verus! {

/// A value for each of the two axes.
#[derive(Clone, Copy, PartialEq, Eq, Structural, Debug)]
pub struct Dim<T> {
    /// The horizontal component.
    pub x: T,
    /// The vertical component.
    pub y: T,
}

impl<T> Dim<T> {
    /// Packs the two components.
    pub fn new(x: T, y: T) -> (r: Self)
        ensures
            r == (Dim { x, y }),
    {
        Self { x, y }
    }
}

/// A dense row-major matrix of RGB pixels: the entry for pixel `(x, y)`
/// sits at index `x + y * width`.
pub struct Matrix<T> {
    /// Number of pixel columns.
    pub width: usize,
    /// Number of pixel rows.
    pub height: usize,
    /// The entries, one per pixel, rows concatenated.
    pub vec: Vec<T>,
}

impl Matrix<[u8; 3]> {
    /// The matrix holds exactly one entry per pixel.
    pub open spec fn wf(self) -> bool {
        self.vec@.len() == self.width * self.height
    }

    /// Creates a matrix of the given dimensions, every pixel black.
    pub fn dim(w: usize, h: usize) -> (r: Self)
        requires
            w * h <= usize::MAX,
        ensures
            r.width == w,
            r.height == h,
            r.wf(),
            forall|i: int| 0 <= i < w * h ==> r.vec@[i] == [0u8, 0u8, 0u8],
    {
        let n: usize = w * h;
        let mut vec: Vec<[u8; 3]> = Vec::new();
        let mut i: usize = 0;
        while i < n
            invariant
                i <= n,
                vec@.len() == i,
                forall|j: int| 0 <= j < i ==> vec@[j] == [0u8, 0u8, 0u8],
            decreases n - i,
        {
            vec.push([0u8, 0u8, 0u8]);
            i = i + 1;
        }
        Self { width: w, height: h, vec }
    }

    /// Reads the pixel at `(x, y)`.
    pub fn get(&self, x: usize, y: usize) -> (r: [u8; 3])
        requires
            self.wf(),
            x < self.width,
            y < self.height,
        ensures
            r == self.vec@[x + y * self.width],
    {
        let _len: usize = self.vec.len();
        proof {
            lemma_row_major_in_bounds(x as int, y as int, self.width as int, self.height as int);
        }
        self.vec[x + y * self.width]
    }

    /// Writes the pixel at `(x, y)`; no other entry changes.
    pub fn set(&mut self, x: usize, y: usize, val: [u8; 3])
        requires
            old(self).wf(),
            x < old(self).width,
            y < old(self).height,
        ensures
            final(self).width == old(self).width,
            final(self).height == old(self).height,
            final(self).wf(),
            final(self).vec@ == old(self).vec@.update(x + y * old(self).width, val),
    {
        let _len: usize = self.vec.len();
        proof {
            lemma_row_major_in_bounds(x as int, y as int, self.width as int, self.height as int);
        }
        let i: usize = x + y * self.width;
        self.vec.set(i, val);
    }

    /// Flattens the matrix to row-major RGBA bytes, alpha fully opaque.
    pub fn raw(&self) -> (r: Vec<u8>)
        requires
            self.wf(),
            4 * (self.width * self.height) <= usize::MAX,
        ensures
            r@.len() == 4 * (self.width * self.height),
            forall|i: int|
                0 <= i < self.width * self.height ==> {
                    &&& r@[4 * i] == self.vec@[i][0]
                    &&& r@[4 * i + 1] == self.vec@[i][1]
                    &&& r@[4 * i + 2] == self.vec@[i][2]
                    &&& r@[4 * i + 3] == 255u8
                },
    {
        let row_length: usize = self.width;
        let column_height: usize = self.height;
        let ghost total: int = self.width * self.height;
        let mut data: Vec<u8> = Vec::new();
        let mut y: usize = 0;
        proof {
            assert(row_length * column_height == total && 0 <= total) by (nonlinear_arith)
                requires
                    0 <= row_length,
                    0 <= column_height,
                    row_length == self.width,
                    column_height == self.height,
                    total == self.width * self.height,
            ;
        }
        while y < column_height
            invariant
                self.wf(),
                row_length == self.width,
                column_height == self.height,
                total == self.width * self.height,
                4 * total <= usize::MAX,
                y <= column_height,
                data@.len() == 4 * (y * row_length),
                y * row_length <= total,
                forall|i: int|
                    0 <= i < y * row_length ==> {
                        &&& data@[4 * i] == self.vec@[i][0]
                        &&& data@[4 * i + 1] == self.vec@[i][1]
                        &&& data@[4 * i + 2] == self.vec@[i][2]
                        &&& data@[4 * i + 3] == 255u8
                    },
            decreases column_height - y,
        {
            let mut x: usize = 0;
            while x < row_length
                invariant
                    self.wf(),
                    row_length == self.width,
                    column_height == self.height,
                    total == self.width * self.height,
                    4 * total <= usize::MAX,
                    y < column_height,
                    x <= row_length,
                    y * row_length + x <= total,
                    data@.len() == 4 * (y * row_length + x),
                    forall|i: int|
                        0 <= i < y * row_length + x ==> {
                            &&& data@[4 * i] == self.vec@[i][0]
                            &&& data@[4 * i + 1] == self.vec@[i][1]
                            &&& data@[4 * i + 2] == self.vec@[i][2]
                            &&& data@[4 * i + 3] == 255u8
                        },
                decreases row_length - x,
            {
                proof {
                    lemma_row_major_in_bounds(
                        x as int,
                        y as int,
                        self.width as int,
                        self.height as int,
                    );
                    assert(x + y * row_length == y * row_length + x);
                }
                let bytes: [u8; 3] = self.get(x, y);
                data.push(bytes[0]);
                data.push(bytes[1]);
                data.push(bytes[2]);
                data.push(255u8);
                x = x + 1;
            }
            y = y + 1;
            proof {
                assert((y - 1) * row_length + row_length == y * row_length)
                    by (nonlinear_arith);
                assert(y * row_length <= total) by (nonlinear_arith)
                    requires
                        0 <= y <= column_height,
                        0 <= row_length,
                        row_length * column_height == total,
                ;
            }
        }
        proof {
            assert(column_height * row_length == self.width * self.height)
                by (nonlinear_arith)
                requires
                    row_length == self.width,
                    column_height == self.height,
            ;
        }
        data
    }
}

/// A row-major index stays inside the matrix.
pub(crate) proof fn lemma_row_major_in_bounds(x: int, y: int, w: int, h: int)
    by (nonlinear_arith)
    requires
        0 <= x < w,
        0 <= y < h,
    ensures
        0 <= x + y * w < w * h,
        x + y * w < h * w,
{
}

} // verus!
