//! Dense color grids and their flattening into raw byte buffers.
//!
//! A grid is a vector of rows (the y axis is outer), and flattening is
//! row-major: the bytes of pixel `(x, y)` start at `(y * width + x) * k`
//! for `k` bytes per pixel.

use vstd::prelude::*;

verus! {

/// A dense row-major grid of pixels with its dimensions alongside.
pub struct ColorMap<T> {
    /// Number of pixel columns.
    pub width: usize,
    /// Number of pixel rows.
    pub height: usize,
    /// One entry per pixel, rows concatenated: pixel `(x, y)` sits at
    /// index `y * width + x`.
    pub data: Vec<T>,
}

impl ColorMap<[u8; 4]> {
    /// The grid holds exactly one entry per pixel.
    pub open spec fn wf(self) -> bool {
        self.data@.len() == self.width * self.height
    }

    /// Creates a grid of the given dimensions, every pixel opaque black.
    pub fn new(width: usize, height: usize) -> (r: Self)
        requires
            width * height <= usize::MAX,
        ensures
            r.width == width,
            r.height == height,
            r.wf(),
            forall|i: int| 0 <= i < width * height ==> r.data@[i] == [0u8, 0u8, 0u8, 255u8],
    {
        let n: usize = width * height;
        let mut data: Vec<[u8; 4]> = Vec::new();
        let mut i: usize = 0;
        while i < n
            invariant
                i <= n,
                data@.len() == i,
                forall|j: int| 0 <= j < i ==> data@[j] == [0u8, 0u8, 0u8, 255u8],
            decreases n - i,
        {
            data.push([0u8, 0u8, 0u8, 255u8]);
            i = i + 1;
        }
        Self { width, height, data }
    }

    /// Reads the pixel whose column and row are given by `index`.
    pub fn index(&self, index: (usize, usize)) -> (r: [u8; 4])
        requires
            self.wf(),
            index.0 < self.width,
            index.1 < self.height,
        ensures
            r == self.data@[index.1 * self.width + index.0],
    {
        let _len: usize = self.data.len();
        proof {
            crate::util::lemma_row_major_in_bounds(
                index.0 as int,
                index.1 as int,
                self.width as int,
                self.height as int,
            );
        }
        self.data[index.1 * self.width + index.0]
    }
}

/// All rows of the grid have the length of the first one.
pub open spec fn rectangular<T>(rows: Seq<Vec<T>>) -> bool {
    forall|y: int| 0 <= y < rows.len() ==> (#[trigger] rows[y])@.len() == rows[0]@.len()
}

/// The width of a grid: the length of its first row, or zero.
pub open spec fn grid_width<T>(rows: Seq<Vec<T>>) -> int {
    if rows.len() == 0 {
        0
    } else {
        rows[0]@.len() as int
    }
}

/// Flattens a grid of RGBA pixels to row-major bytes, four per pixel.
pub fn to_binary(yx_map: &Vec<Vec<[u8; 4]>>) -> (r: Vec<u8>)
    requires
        rectangular(yx_map@),
        4 * (yx_map@.len() * grid_width(yx_map@)) <= usize::MAX,
    ensures
        r@.len() == 4 * (yx_map@.len() * grid_width(yx_map@)),
        forall|y: int, x: int|
            0 <= y < yx_map@.len() && 0 <= x < grid_width(yx_map@) ==> {
                let p = #[trigger] yx_map@[y]@[x];
                let base = 4 * (y * grid_width(yx_map@) + x);
                &&& r@[base] == p[0]
                &&& r@[base + 1] == p[1]
                &&& r@[base + 2] == p[2]
                &&& r@[base + 3] == p[3]
            },
{
    let column_height: usize = yx_map.len();
    let row_length: usize = if column_height == 0 {
        0
    } else {
        yx_map[0].len()
    };
    let ghost w: int = grid_width(yx_map@);
    let ghost total: int = yx_map@.len() * w;
    proof {
        lemma_grid_total_nonneg(yx_map@.len() as int, w);
    }
    let mut data: Vec<u8> = Vec::new();
    let mut y: usize = 0;
    while y < column_height
        invariant
            rectangular(yx_map@),
            column_height == yx_map@.len(),
            row_length == w,
            w == grid_width(yx_map@),
            total == yx_map@.len() * w,
            4 * total <= usize::MAX,
            y <= column_height,
            y * w <= total,
            data@.len() == 4 * (y * w),
            forall|yy: int, x: int|
                0 <= yy < y && 0 <= x < w ==> {
                    let p = #[trigger] yx_map@[yy]@[x];
                    let base = 4 * (yy * w + x);
                    &&& data@[base] == p[0]
                    &&& data@[base + 1] == p[1]
                    &&& data@[base + 2] == p[2]
                    &&& data@[base + 3] == p[3]
                },
        decreases column_height - y,
    {
        let row: &Vec<[u8; 4]> = &yx_map[y];
        let mut x: usize = 0;
        while x < row_length
            invariant
                rectangular(yx_map@),
                column_height == yx_map@.len(),
                row_length == w,
                w == grid_width(yx_map@),
                total == yx_map@.len() * w,
                4 * total <= usize::MAX,
                y < column_height,
                row@ == yx_map@[y as int]@,
                x <= row_length,
                y * w + x <= total,
                data@.len() == 4 * (y * w + x),
                forall|yy: int, x2: int|
                    0 <= yy < y && 0 <= x2 < w ==> {
                        let p = #[trigger] yx_map@[yy]@[x2];
                        let base = 4 * (yy * w + x2);
                        &&& data@[base] == p[0]
                        &&& data@[base + 1] == p[1]
                        &&& data@[base + 2] == p[2]
                        &&& data@[base + 3] == p[3]
                    },
                forall|x2: int|
                    0 <= x2 < x ==> {
                        let p = #[trigger] yx_map@[y as int]@[x2];
                        let base = 4 * (y * w + x2);
                        &&& data@[base] == p[0]
                        &&& data@[base + 1] == p[1]
                        &&& data@[base + 2] == p[2]
                        &&& data@[base + 3] == p[3]
                    },
            decreases row_length - x,
        {
            proof {
                crate::util::lemma_row_major_in_bounds(
                    x as int,
                    y as int,
                    w,
                    column_height as int,
                );
            }
            let bytes: [u8; 4] = row[x];
            let ghost old_data: Seq<u8> = data@;
            data.push(bytes[0]);
            data.push(bytes[1]);
            data.push(bytes[2]);
            data.push(bytes[3]);
            x = x + 1;
            proof {
                assert(data@.len() == old_data.len() + 4);
                assert(forall|i: int| 0 <= i < old_data.len() ==> data@[i] == old_data[i]);
                assert(data@[old_data.len() as int] == bytes[0]);
                assert(data@[old_data.len() as int + 1] == bytes[1]);
                assert(data@[old_data.len() as int + 2] == bytes[2]);
                assert(data@[old_data.len() as int + 3] == bytes[3]);
                assert forall|yy: int, x2: int| 0 <= yy < y && 0 <= x2 < w implies {
                    let p = #[trigger] yx_map@[yy]@[x2];
                    let base = 4 * (yy * w + x2);
                    &&& data@[base] == p[0]
                    &&& data@[base + 1] == p[1]
                    &&& data@[base + 2] == p[2]
                    &&& data@[base + 3] == p[3]
                } by {
                    crate::util::lemma_row_major_in_bounds(x2, yy, w, y as int);
                };
            }
        }
        y = y + 1;
        proof {
            assert((y - 1) * w + w == y * w) by (nonlinear_arith);
            assert(y * w <= total) by (nonlinear_arith)
                requires
                    0 <= y <= column_height as int,
                    0 <= w,
                    total == column_height as int * w,
            ;
        }
    }
    data
}

/// Flattens a grid of RGB pixels to row-major bytes, three per pixel.
pub fn to_rgb_binary(yx_map: &Vec<Vec<[u8; 3]>>) -> (r: Vec<u8>)
    requires
        rectangular(yx_map@),
        3 * (yx_map@.len() * grid_width(yx_map@)) <= usize::MAX,
    ensures
        r@.len() == 3 * (yx_map@.len() * grid_width(yx_map@)),
        forall|y: int, x: int|
            0 <= y < yx_map@.len() && 0 <= x < grid_width(yx_map@) ==> {
                let p = #[trigger] yx_map@[y]@[x];
                let base = 3 * (y * grid_width(yx_map@) + x);
                &&& r@[base] == p[0]
                &&& r@[base + 1] == p[1]
                &&& r@[base + 2] == p[2]
            },
{
    let column_height: usize = yx_map.len();
    let row_length: usize = if column_height == 0 {
        0
    } else {
        yx_map[0].len()
    };
    let ghost w: int = grid_width(yx_map@);
    let ghost total: int = yx_map@.len() * w;
    proof {
        lemma_grid_total_nonneg(yx_map@.len() as int, w);
    }
    let mut data: Vec<u8> = Vec::new();
    let mut y: usize = 0;
    while y < column_height
        invariant
            rectangular(yx_map@),
            column_height == yx_map@.len(),
            row_length == w,
            w == grid_width(yx_map@),
            total == yx_map@.len() * w,
            3 * total <= usize::MAX,
            y <= column_height,
            y * w <= total,
            data@.len() == 3 * (y * w),
            forall|yy: int, x: int|
                0 <= yy < y && 0 <= x < w ==> {
                    let p = #[trigger] yx_map@[yy]@[x];
                    let base = 3 * (yy * w + x);
                    &&& data@[base] == p[0]
                    &&& data@[base + 1] == p[1]
                    &&& data@[base + 2] == p[2]
                },
        decreases column_height - y,
    {
        let row: &Vec<[u8; 3]> = &yx_map[y];
        let mut x: usize = 0;
        while x < row_length
            invariant
                rectangular(yx_map@),
                column_height == yx_map@.len(),
                row_length == w,
                w == grid_width(yx_map@),
                total == yx_map@.len() * w,
                3 * total <= usize::MAX,
                y < column_height,
                row@ == yx_map@[y as int]@,
                x <= row_length,
                y * w + x <= total,
                data@.len() == 3 * (y * w + x),
                forall|yy: int, x2: int|
                    0 <= yy < y && 0 <= x2 < w ==> {
                        let p = #[trigger] yx_map@[yy]@[x2];
                        let base = 3 * (yy * w + x2);
                        &&& data@[base] == p[0]
                        &&& data@[base + 1] == p[1]
                        &&& data@[base + 2] == p[2]
                    },
                forall|x2: int|
                    0 <= x2 < x ==> {
                        let p = #[trigger] yx_map@[y as int]@[x2];
                        let base = 3 * (y * w + x2);
                        &&& data@[base] == p[0]
                        &&& data@[base + 1] == p[1]
                        &&& data@[base + 2] == p[2]
                    },
            decreases row_length - x,
        {
            proof {
                crate::util::lemma_row_major_in_bounds(x as int, y as int, w, column_height as int);
            }
            let bytes: [u8; 3] = row[x];
            let ghost old_data: Seq<u8> = data@;
            data.push(bytes[0]);
            data.push(bytes[1]);
            data.push(bytes[2]);
            x = x + 1;
            proof {
                assert(data@.len() == old_data.len() + 3);
                assert(forall|i: int| 0 <= i < old_data.len() ==> data@[i] == old_data[i]);
                assert(data@[old_data.len() as int] == bytes[0]);
                assert(data@[old_data.len() as int + 1] == bytes[1]);
                assert(data@[old_data.len() as int + 2] == bytes[2]);
                assert forall|yy: int, x2: int| 0 <= yy < y && 0 <= x2 < w implies {
                    let p = #[trigger] yx_map@[yy]@[x2];
                    let base = 3 * (yy * w + x2);
                    &&& data@[base] == p[0]
                    &&& data@[base + 1] == p[1]
                    &&& data@[base + 2] == p[2]
                } by {
                    crate::util::lemma_row_major_in_bounds(x2, yy, w, y as int);
                };
            }
        }
        y = y + 1;
        proof {
            assert((y - 1) * w + w == y * w) by (nonlinear_arith);
            assert(y * w <= total) by (nonlinear_arith)
                requires
                    0 <= y <= column_height as int,
                    0 <= w,
                    total == column_height as int * w,
            ;
        }
    }
    data
}

/// Flattens a grid of RGB pixels to row-major RGBA bytes, four per pixel,
/// the alpha channel fully opaque.
pub fn to_rgba_binary(yx_map: &Vec<Vec<[u8; 3]>>) -> (r: Vec<u8>)
    requires
        rectangular(yx_map@),
        4 * (yx_map@.len() * grid_width(yx_map@)) <= usize::MAX,
    ensures
        r@.len() == 4 * (yx_map@.len() * grid_width(yx_map@)),
        forall|y: int, x: int|
            0 <= y < yx_map@.len() && 0 <= x < grid_width(yx_map@) ==> {
                let p = #[trigger] yx_map@[y]@[x];
                let base = 4 * (y * grid_width(yx_map@) + x);
                &&& r@[base] == p[0]
                &&& r@[base + 1] == p[1]
                &&& r@[base + 2] == p[2]
                &&& r@[base + 3] == 255u8
            },
{
    let column_height: usize = yx_map.len();
    let row_length: usize = if column_height == 0 {
        0
    } else {
        yx_map[0].len()
    };
    let ghost w: int = grid_width(yx_map@);
    let ghost total: int = yx_map@.len() * w;
    proof {
        lemma_grid_total_nonneg(yx_map@.len() as int, w);
    }
    let mut data: Vec<u8> = Vec::new();
    let mut y: usize = 0;
    while y < column_height
        invariant
            rectangular(yx_map@),
            column_height == yx_map@.len(),
            row_length == w,
            w == grid_width(yx_map@),
            total == yx_map@.len() * w,
            4 * total <= usize::MAX,
            y <= column_height,
            y * w <= total,
            data@.len() == 4 * (y * w),
            forall|yy: int, x: int|
                0 <= yy < y && 0 <= x < w ==> {
                    let p = #[trigger] yx_map@[yy]@[x];
                    let base = 4 * (yy * w + x);
                    &&& data@[base] == p[0]
                    &&& data@[base + 1] == p[1]
                    &&& data@[base + 2] == p[2]
                    &&& data@[base + 3] == 255u8
                },
        decreases column_height - y,
    {
        let row: &Vec<[u8; 3]> = &yx_map[y];
        let mut x: usize = 0;
        while x < row_length
            invariant
                rectangular(yx_map@),
                column_height == yx_map@.len(),
                row_length == w,
                w == grid_width(yx_map@),
                total == yx_map@.len() * w,
                4 * total <= usize::MAX,
                y < column_height,
                row@ == yx_map@[y as int]@,
                x <= row_length,
                y * w + x <= total,
                data@.len() == 4 * (y * w + x),
                forall|yy: int, x2: int|
                    0 <= yy < y && 0 <= x2 < w ==> {
                        let p = #[trigger] yx_map@[yy]@[x2];
                        let base = 4 * (yy * w + x2);
                        &&& data@[base] == p[0]
                        &&& data@[base + 1] == p[1]
                        &&& data@[base + 2] == p[2]
                        &&& data@[base + 3] == 255u8
                    },
                forall|x2: int|
                    0 <= x2 < x ==> {
                        let p = #[trigger] yx_map@[y as int]@[x2];
                        let base = 4 * (y * w + x2);
                        &&& data@[base] == p[0]
                        &&& data@[base + 1] == p[1]
                        &&& data@[base + 2] == p[2]
                        &&& data@[base + 3] == 255u8
                    },
            decreases row_length - x,
        {
            proof {
                crate::util::lemma_row_major_in_bounds(x as int, y as int, w, column_height as int);
            }
            let bytes: [u8; 3] = row[x];
            let ghost old_data: Seq<u8> = data@;
            data.push(bytes[0]);
            data.push(bytes[1]);
            data.push(bytes[2]);
            data.push(255u8);
            x = x + 1;
            proof {
                assert(data@.len() == old_data.len() + 4);
                assert(forall|i: int| 0 <= i < old_data.len() ==> data@[i] == old_data[i]);
                assert(data@[old_data.len() as int] == bytes[0]);
                assert(data@[old_data.len() as int + 1] == bytes[1]);
                assert(data@[old_data.len() as int + 2] == bytes[2]);
                assert(data@[old_data.len() as int + 3] == 255u8);
                assert forall|yy: int, x2: int| 0 <= yy < y && 0 <= x2 < w implies {
                    let p = #[trigger] yx_map@[yy]@[x2];
                    let base = 4 * (yy * w + x2);
                    &&& data@[base] == p[0]
                    &&& data@[base + 1] == p[1]
                    &&& data@[base + 2] == p[2]
                    &&& data@[base + 3] == 255u8
                } by {
                    crate::util::lemma_row_major_in_bounds(x2, yy, w, y as int);
                };
            }
        }
        y = y + 1;
        proof {
            assert((y - 1) * w + w == y * w) by (nonlinear_arith);
            assert(y * w <= total) by (nonlinear_arith)
                requires
                    0 <= y <= column_height as int,
                    0 <= w,
                    total == column_height as int * w,
            ;
        }
    }
    data
}

/// The pixel count of a grid is not negative.
proof fn lemma_grid_total_nonneg(h: int, w: int)
    by (nonlinear_arith)
    requires
        0 <= h,
        0 <= w,
    ensures
        0 <= h * w,
        h * w == w * h,
{
}

} // verus!
