//! Multi-resolution terrain height field.
//!
//! A `HeightMapData` owns a pyramid of coarsened height samples over a
//! rectangular world-space footprint.  Level 0 carries the decoded
//! source image (red channel, scaled to the footprint's vertical size);
//! every coarser level stores, per cell, the **minimum** of the 2x2
//! block of the next-finer level.  A coarse cell therefore never
//! overestimates the ground, which is what makes coarse-to-fine ray
//! skipping safe.

use vstd::prelude::*;

use crate::fixed_point::FP_ONE;
use crate::fixed_point::FpVec3;
use crate::fixed_point::abs_i;
use crate::fixed_point::clip;
use crate::fixed_point::fdiv;
use crate::fixed_point::floor_log2;
use crate::fixed_point::fx_mul_div;
use crate::fixed_point::lemma_pow2_floor_log2;
use crate::fixed_point::lemma_pow2_mono;
use crate::fixed_point::lemma_pow2_pos;
use crate::fixed_point::lemma_tdiv_exact;
use crate::fixed_point::lemma_tdiv_mono;
use crate::fixed_point::lemma_tdiv_scale_le;
use crate::fixed_point::max_i;
use crate::fixed_point::min_i;
use crate::fixed_point::pow2i;
use crate::fixed_point::tdiv;

verus! {

/// Largest accepted source-image dimension (pixels per side).
pub const DIM_LIMIT: usize = 16384;

/// Largest magnitude accepted for a world-space fixed-point coordinate.
pub const COORD_LIMIT: i64 = 0x100_0000_0000;

/// World-space footprint of the terrain: a box given by its minimum
/// corner and its (per-axis) size, in fixed point.
#[derive(Clone, Copy, Debug, PartialEq, Eq, Structural)]
pub struct BoundingBox {
    pub _min: FpVec3,
    pub _size: FpVec3,
}

impl BoundingBox {
    /// A footprint the height field can work over: positive horizontal
    /// extent, nonnegative vertical extent, everything within the
    /// coordinate limit.
    pub open spec fn wf(self) -> bool {
        &&& 1 <= self._size.x <= COORD_LIMIT
        &&& 0 <= self._size.y <= COORD_LIMIT
        &&& 1 <= self._size.z <= COORD_LIMIT
        &&& abs_i(self._min.x as int) <= COORD_LIMIT
        &&& abs_i(self._min.y as int) <= COORD_LIMIT
        &&& abs_i(self._min.z as int) <= COORD_LIMIT
    }
}

/// Why construction of a height field was refused.
#[derive(Clone, Copy, Debug, PartialEq, Eq, Structural)]
pub enum HeightMapError {
    /// The source image admits fewer than two mip levels.
    TooFewLevels,
    /// The sample buffer is shorter than the stated dimensions require.
    MalformedImage,
}

/// The minimum of a 2x2 block.
pub open spec fn min4(a: int, b: int, c: int, d: int) -> int {
    min_i(min_i(a, b), min_i(c, d))
}

/// Width of mip level `i`, as a mathematical integer.
pub open spec fn grid_w(wv: Seq<usize>, i: int) -> int {
    wv[i] as int
}

/// Sample of mip level `i` at column `x`, row `y` (row-major storage).
pub open spec fn cell(dv: Seq<Vec<i64>>, wv: Seq<usize>, i: int, x: int, y: int) -> int {
    dv[i]@[y * grid_w(wv, i) + x] as int
}

/// The first `n` levels form a well-sized min-pyramid with samples in
/// `[0, size_y]`.
pub open spec fn levels_wf(
    wv: Seq<usize>,
    hv: Seq<usize>,
    dv: Seq<Vec<i64>>,
    n: int,
    size_y: int,
) -> bool {
    &&& wv.len() >= n
    &&& hv.len() >= n
    &&& dv.len() >= n
    &&& forall|i: int| 0 <= i < n ==> 1 <= #[trigger] grid_w(wv, i)
    &&& forall|i: int| 0 <= i < n ==> 1 <= #[trigger] grid_w(hv, i)
    &&& forall|i: int| 1 <= i < n ==> #[trigger] grid_w(wv, i) == grid_w(wv, i - 1) / 2
    &&& forall|i: int| 1 <= i < n ==> #[trigger] grid_w(hv, i) == grid_w(hv, i - 1) / 2
    &&& forall|i: int|
        0 <= i < n ==> (#[trigger] dv[i]@.len()) == grid_w(wv, i) * grid_w(hv, i)
    &&& forall|i: int, k: int|
        0 <= i < n && 0 <= k < dv[i]@.len() ==> 0 <= (#[trigger] dv[i]@[k]) <= size_y
    &&& forall|i: int, x: int, y: int|
        1 <= i < n && 0 <= x < grid_w(wv, i) && 0 <= y < grid_w(hv, i) ==> #[trigger] cell(
            dv,
            wv,
            i,
            x,
            y,
        ) == min4(
            cell(dv, wv, i - 1, 2 * x, 2 * y),
            cell(dv, wv, i - 1, 2 * x + 1, 2 * y),
            cell(dv, wv, i - 1, 2 * x, 2 * y + 1),
            cell(dv, wv, i - 1, 2 * x + 1, 2 * y + 1),
        )
}

/// Normalized texture coordinate of `p` over the span `[lo, lo + size]`,
/// clamped to `[0, FP_ONE]`.
pub open spec fn s_texcoord(p: int, lo: int, size: int) -> int
    recommends
        size >= 1,
{
    clip(fdiv(p - lo, size), 0, FP_ONE as int)
}

/// Linear interpolation `a + (b - a) * t` for a fixed-point weight
/// `t` in `[0, FP_ONE]`.
pub open spec fn s_lerp(a: int, b: int, t: int) -> int {
    a + tdiv((b - a) * t, FP_ONE as int)
}

/// Interpolation never leaves the interval spanned by its endpoints.
pub proof fn lemma_lerp_range(a: int, b: int, t: int)
    requires
        0 <= t <= FP_ONE as int,
    ensures
        min_i(a, b) <= s_lerp(a, b, t) <= max_i(a, b),
{
    crate::fixed_point::lemma_fmul_shrink(b - a, t);
    crate::fixed_point::lemma_tdiv_mag((b - a) * t, FP_ONE as int);
    if b >= a {
        assert((b - a) * t >= 0) by (nonlinear_arith)
            requires
                b - a >= 0,
                t >= 0,
        ;
    } else {
        assert((b - a) * t <= 0) by (nonlinear_arith)
            requires
                b - a <= 0,
                t >= 0,
        ;
    }
}

/// Hierarchical min-pyramid over a rectangular world footprint.
///
/// Built once from a decoded 8-bit heightmap image, immutable
/// afterwards.  Heights returned by the queries are world-space `y`
/// values, never below `_sea_height`.
#[derive(Clone, Debug)]
pub struct HeightMapData {
    pub _sea_height: i64,
    pub _bounding_box: BoundingBox,
    pub _lod_count: usize,
    pub _width: Vec<usize>,
    pub _height: Vec<usize>,
    pub _min_height_map_data: Vec<Vec<i64>>,
}

impl HeightMapData {
    /// Width of mip level `lod`.
    pub open spec fn level_w(self, lod: int) -> int {
        grid_w(self._width@, lod)
    }

    /// Height (row count) of mip level `lod`.
    pub open spec fn level_h(self, lod: int) -> int {
        grid_w(self._height@, lod)
    }

    /// Stored sample of mip level `lod` at column `x`, row `y`.
    pub open spec fn sample(self, lod: int, x: int, y: int) -> int {
        cell(self._min_height_map_data@, self._width@, lod, x, y)
    }

    /// Structural invariant: a complete min-pyramid with at least two
    /// levels over a well-formed footprint.
    pub open spec fn wf(self) -> bool {
        &&& self._bounding_box.wf()
        &&& abs_i(self._sea_height as int) <= 2 * COORD_LIMIT
        &&& 2 <= self._lod_count <= 15
        &&& self._width@.len() == self._lod_count
        &&& self._height@.len() == self._lod_count
        &&& self._min_height_map_data@.len() == self._lod_count
        &&& self.level_w(0) <= DIM_LIMIT && self.level_h(0) <= DIM_LIMIT
        &&& levels_wf(
            self._width@,
            self._height@,
            self._min_height_map_data@,
            self._lod_count as int,
            self._bounding_box._size.y as int,
        )
    }
}

/// Floor base-2 logarithm of a positive dimension.
fn log2_floor(n: usize) -> (k: usize)
    requires
        1 <= n <= DIM_LIMIT,
    ensures
        k == floor_log2(n as int),
        k <= 14,
{
    let mut v: usize = n;
    let mut k: usize = 0;
    while v >= 2
        invariant
            1 <= v <= n,
            k <= 14,
            floor_log2(n as int) == k + floor_log2(v as int),
            pow2i(k as int) * v as int <= n as int,
            n <= DIM_LIMIT,
        decreases v,
    {
        proof {
            let p = pow2i(k as int);
            lemma_pow2_pos(k as int);
            assert(pow2i(k as int + 1) * (v as int / 2) <= p * v as int)
                by (nonlinear_arith)
                requires
                    p >= 1,
                    v >= 2,
                    pow2i(k as int + 1) == 2 * p,
            ;
            // bound the exponent: 2^(k+1) <= n <= 2^14
            assert(2 * p <= p * v as int) by (nonlinear_arith)
                requires
                    p >= 1,
                    v >= 2,
            ;
            if k as int + 1 > 14 {
                lemma_pow2_mono(15, k as int + 1);
                assert(pow2i(15) == 32768) by {
                    reveal_with_fuel(pow2i, 17);
                }
                assert(false);
            }
        }
        v = v / 2;
        k = k + 1;
    }
    k
}

/// Row-major indices order pairs lexicographically: within a grid of
/// width `w`, `y1 * w + x1 < y2 * w + x2` exactly when `(y1, x1)`
/// precedes `(y2, x2)`.
proof fn lemma_row_major(w: int, y1: int, x1: int, y2: int, x2: int)
    requires
        0 <= x1 < w,
        0 <= x2 < w,
        0 <= y1,
        0 <= y2,
    ensures
        (y1 * w + x1 < y2 * w + x2) <==> (y1 < y2 || (y1 == y2 && x1 < x2)),
{
    assert((y1 * w + x1 < y2 * w + x2) <==> (y1 < y2 || (y1 == y2 && x1 < x2)))
        by (nonlinear_arith)
        requires
            0 <= x1 < w,
            0 <= x2 < w,
            0 <= y1,
            0 <= y2,
    ;
}

impl HeightMapData {
    /// Appends the coarser mip levels: each new level halves the
    /// previous one's dimensions and stores, per cell, the minimum of
    /// the corresponding 2x2 block (trailing odd row/column dropped).
    #[verifier::rlimit(100)]
    #[verifier::spinoff_prover]
    fn generate_hiz_min(
        widths: &mut Vec<usize>,
        heights: &mut Vec<usize>,
        data: &mut Vec<Vec<i64>>,
        lod_count: usize,
        size_y: i64,
    )
        requires
            old(widths)@.len() == 1,
            old(heights)@.len() == 1,
            old(data)@.len() == 1,
            2 <= lod_count <= 15,
            grid_w(old(widths)@, 0) <= DIM_LIMIT,
            grid_w(old(heights)@, 0) <= DIM_LIMIT,
            pow2i(lod_count - 1) <= grid_w(old(widths)@, 0),
            pow2i(lod_count - 1) <= grid_w(old(heights)@, 0),
            size_y >= 0,
            levels_wf(old(widths)@, old(heights)@, old(data)@, 1, size_y as int),
        ensures
            final(widths)@.len() == lod_count,
            final(heights)@.len() == lod_count,
            final(data)@.len() == lod_count,
            final(widths)@[0] == old(widths)@[0],
            final(heights)@[0] == old(heights)@[0],
            final(data)@[0] == old(data)@[0],
            levels_wf(final(widths)@, final(heights)@, final(data)@, lod_count as int, size_y as int),
    {
        let mut i: usize = 1;
        while i < lod_count
            invariant
                1 <= i <= lod_count,
                2 <= lod_count <= 15,
                widths@.len() == i,
                heights@.len() == i,
                data@.len() == i,
                widths@[0] == old(widths)@[0],
                heights@[0] == old(heights)@[0],
                data@[0] == old(data)@[0],
                grid_w(widths@, 0) <= DIM_LIMIT,
                grid_w(heights@, 0) <= DIM_LIMIT,
                pow2i(lod_count - (i as int)) <= grid_w(widths@, i - 1),
                pow2i(lod_count - (i as int)) <= grid_w(heights@, i - 1),
                forall|j: int|
                    0 <= j < i ==> #[trigger] grid_w(widths@, j) <= DIM_LIMIT && #[trigger] grid_w(
                        heights@,
                        j,
                    ) <= DIM_LIMIT,
                size_y >= 0,
                levels_wf(widths@, heights@, data@, i as int, size_y as int),
            decreases lod_count - i,
        {
            let pw: usize = widths[i - 1];
            let ph: usize = heights[i - 1];
            proof {
                lemma_pow2_pos(lod_count - (i as int) - 1);
                assert(pow2i(lod_count - (i as int)) == 2 * pow2i(lod_count - (i as int) - 1));
            }
            let w2: usize = pw / 2;
            let h2: usize = ph / 2;
            let prev: &Vec<i64> = &data[i - 1];
            let mut fresh: Vec<i64> = Vec::new();
            let mut y2: usize = 0;
            while y2 < h2
                invariant
                    0 <= y2 <= h2,
                    w2 == pw / 2,
                    h2 == ph / 2,
                    1 <= w2,
                    1 <= h2,
                    pw <= DIM_LIMIT,
                    ph <= DIM_LIMIT,
                    prev@.len() == pw * ph,
                    forall|k: int| 0 <= k < prev@.len() ==> 0 <= (#[trigger] prev@[k]) <= size_y,
                    fresh@.len() == y2 * w2,
                    forall|k: int| 0 <= k < fresh@.len() ==> 0 <= (#[trigger] fresh@[k]) <= size_y,
                    forall|yy: int, xx: int|
                        0 <= yy < y2 && 0 <= xx < w2 ==> (#[trigger] fresh@[yy * w2 + xx]) == min4(
                            prev@[(2 * yy) * (pw as int) + 2 * xx] as int,
                            prev@[(2 * yy) * (pw as int) + 2 * xx + 1] as int,
                            prev@[(2 * yy + 1) * (pw as int) + 2 * xx] as int,
                            prev@[(2 * yy + 1) * (pw as int) + 2 * xx + 1] as int,
                        ),
                decreases h2 - y2,
            {
                let mut x2: usize = 0;
                while x2 < w2
                    invariant
                        0 <= x2 <= w2,
                        0 <= y2 < h2,
                        w2 == pw / 2,
                        h2 == ph / 2,
                        1 <= w2,
                        1 <= h2,
                        pw <= DIM_LIMIT,
                        ph <= DIM_LIMIT,
                        prev@.len() == pw * ph,
                        forall|k: int|
                            0 <= k < prev@.len() ==> 0 <= (#[trigger] prev@[k]) <= size_y,
                        fresh@.len() == y2 * w2 + x2,
                        forall|k: int|
                            0 <= k < fresh@.len() ==> 0 <= (#[trigger] fresh@[k]) <= size_y,
                        forall|yy: int, xx: int|
                            (0 <= yy < y2 && 0 <= xx < w2) || (yy == y2 && 0 <= xx < x2)
                                ==> (#[trigger] fresh@[yy * w2 + xx]) == min4(
                                prev@[(2 * yy) * (pw as int) + 2 * xx] as int,
                                prev@[(2 * yy) * (pw as int) + 2 * xx + 1] as int,
                                prev@[(2 * yy + 1) * (pw as int) + 2 * xx] as int,
                                prev@[(2 * yy + 1) * (pw as int) + 2 * xx + 1] as int,
                            ),
                    decreases w2 - x2,
                {
                    proof {
                        assert((2 * (y2 as int) + 1) * (pw as int) + 2 * (x2 as int) + 1 < (
                        pw as int) * (ph as int) && (2 * (y2 as int)) * (pw as int) + 2 * (
                        x2 as int) + 1 < (pw as int) * (ph as int) && 0 <= (2 * (y2 as int)) * (
                        pw as int) + 2 * (x2 as int) && (pw as int) * (ph as int)
                            <= 268435456) by (nonlinear_arith)
                            requires
                                0 <= x2 < w2,
                                0 <= y2 < h2,
                                w2 == pw / 2,
                                h2 == ph / 2,
                                pw >= 2,
                                ph >= 2,
                                pw <= 16384,
                                ph <= 16384,
                        ;
                        assert((2 * (y2 as int) + 1) * (pw as int) == 2 * (y2 as int) * (pw as int)
                            + pw as int) by (nonlinear_arith);
                    }
                    let base0: usize = (2 * y2) * pw + 2 * x2;
                    let base1: usize = (2 * y2 + 1) * pw + 2 * x2;
                    let h00: i64 = prev[base0];
                    let h01: i64 = prev[base0 + 1];
                    let h10: i64 = prev[base1];
                    let h11: i64 = prev[base1 + 1];
                    let mut m: i64 = h00;
                    if h01 < m {
                        m = h01;
                    }
                    let mut m2: i64 = h10;
                    if h11 < m2 {
                        m2 = h11;
                    }
                    if m2 < m {
                        m = m2;
                    }
                    fresh.push(m);
                    proof {
                        assert forall|yy: int, xx: int|
                            (0 <= yy < y2 && 0 <= xx < w2) || (yy == y2 && 0 <= xx < x2 + 1)
                            implies (#[trigger] fresh@[yy * w2 + xx]) == min4(
                            prev@[(2 * yy) * (pw as int) + 2 * xx] as int,
                            prev@[(2 * yy) * (pw as int) + 2 * xx + 1] as int,
                            prev@[(2 * yy + 1) * (pw as int) + 2 * xx] as int,
                            prev@[(2 * yy + 1) * (pw as int) + 2 * xx + 1] as int,
                        ) by {
                            lemma_row_major(w2 as int, yy, xx, y2 as int, x2 as int);
                            if yy == y2 && xx == x2 {
                                assert(yy * w2 + xx == fresh@.len() - 1);
                            } else {
                                assert(yy * w2 + xx < y2 * w2 + x2);
                            }
                        }
                    }
                    x2 = x2 + 1;
                }
                y2 = y2 + 1;
                proof {
                    assert((y2 as int) * (w2 as int) == (y2 as int - 1) * (w2 as int)
                        + w2 as int) by (nonlinear_arith);
                }
            }
            let ghost pv = prev@;
            let ghost fv = fresh@;
            let ghost pre_wv = widths@;
            let ghost pre_hv = heights@;
            let ghost pre_dv = data@;
            widths.push(w2);
            heights.push(h2);
            data.push(fresh);
            i = i + 1;
            proof {
                let wv = widths@;
                let hv = heights@;
                let dv = data@;
                let n = i as int;
                assert(wv =~= pre_wv.push(w2));
                assert(hv =~= pre_hv.push(h2));
                assert(grid_w(wv, n - 1) == w2 as int);
                assert(grid_w(hv, n - 1) == h2 as int);
                assert(dv[n - 1]@ == fv);
                assert forall|j: int| 0 <= j < n - 1 implies #[trigger] grid_w(wv, j) == grid_w(
                    pre_wv,
                    j,
                ) && #[trigger] grid_w(hv, j) == grid_w(pre_hv, j) && dv[j] == pre_dv[j] by {
                    assert(wv[j] == pre_wv[j]);
                    assert(hv[j] == pre_hv[j]);
                    assert(dv[j] == pre_dv[j]);
                }
                assert(dv[n - 1]@.len() == grid_w(wv, n - 1) * grid_w(hv, n - 1))
                    by (nonlinear_arith)
                    requires
                        dv[n - 1]@.len() == (h2 as int) * (w2 as int),
                        grid_w(wv, n - 1) == w2 as int,
                        grid_w(hv, n - 1) == h2 as int,
                ;
                assert forall|j: int, x: int, y: int|
                    0 <= j < n - 1 && 0 <= x && 0 <= y implies #[trigger] cell(dv, wv, j, x, y)
                    == cell(pre_dv, pre_wv, j, x, y) by {
                    assert(grid_w(wv, j) == grid_w(pre_wv, j));
                    assert(dv[j] == pre_dv[j]);
                }
                assert forall|x: int, y: int|
                    0 <= x < grid_w(wv, n - 1) && 0 <= y < grid_w(hv, n - 1) implies #[trigger] cell(
                    dv,
                    wv,
                    n - 1,
                    x,
                    y,
                ) == min4(
                    cell(dv, wv, n - 2, 2 * x, 2 * y),
                    cell(dv, wv, n - 2, 2 * x + 1, 2 * y),
                    cell(dv, wv, n - 2, 2 * x, 2 * y + 1),
                    cell(dv, wv, n - 2, 2 * x + 1, 2 * y + 1),
                ) by {
                    assert(fv[y * w2 + x] == min4(
                        pv[(2 * y) * (pw as int) + 2 * x] as int,
                        pv[(2 * y) * (pw as int) + 2 * x + 1] as int,
                        pv[(2 * y + 1) * (pw as int) + 2 * x] as int,
                        pv[(2 * y + 1) * (pw as int) + 2 * x + 1] as int,
                    ));
                    assert(cell(dv, wv, n - 1, x, y) == fv[y * w2 + x]);
                    assert(grid_w(wv, n - 2) == pw as int);
                    assert(dv[n - 2]@ == pv);
                }
                assert forall|i2: int, k: int|
                    0 <= i2 < n && 0 <= k < dv[i2]@.len() implies 0 <= (#[trigger] dv[i2]@[k])
                    <= size_y by {
                    if i2 < n - 1 {
                        assert(dv[i2] == pre_dv[i2]);
                    } else {
                        assert(dv[i2]@ == fv);
                    }
                }
            }
        }
    }
    /// Builds the height field from a decoded 8-bit image (row-major,
    /// 4 bytes per pixel, red channel used), a world footprint and a
    /// sea level.
    ///
    /// Succeeds exactly when both dimensions admit at least two mip
    /// levels and the buffer holds the stated number of pixels.  On
    /// success, level 0 holds the red channel normalized to the
    /// footprint's vertical extent, and every coarser level is the
    /// 2x2 minimum of the previous one (forced by `wf`).
    pub fn initialize_height_map_data(
        bounding_box: &BoundingBox,
        width: usize,
        height: usize,
        height_map_data: &Vec<u8>,
        sea_height: i64,
    ) -> (r: Result<HeightMapData, HeightMapError>)
        requires
            bounding_box.wf(),
            width <= DIM_LIMIT,
            height <= DIM_LIMIT,
            abs_i(sea_height as int) <= 2 * COORD_LIMIT,
        ensures
            match r {
                Ok(hm) => {
                    &&& hm.wf()
                    &&& width >= 2
                    &&& height >= 2
                    &&& height_map_data@.len() >= 4 * width * height
                    &&& hm._sea_height == sea_height
                    &&& hm._bounding_box == *bounding_box
                    &&& hm._lod_count as int == min_i(
                        floor_log2(width as int),
                        floor_log2(height as int),
                    ) + 1
                    &&& hm.level_w(0) == width
                    &&& hm.level_h(0) == height
                    &&& forall|x: int, y: int|
                        0 <= x < width && 0 <= y < height ==> #[trigger] hm.sample(0, x, y) == tdiv(
                            height_map_data@[4 * (y * width + x)] as int
                                * bounding_box._size.y as int,
                            255,
                        )
                },
                Err(HeightMapError::TooFewLevels) => width < 2 || height < 2,
                Err(HeightMapError::MalformedImage) => width >= 2 && height >= 2
                    && height_map_data@.len() < 4 * width * height,
            },
    {
        if width < 2 || height < 2 {
            return Err(HeightMapError::TooFewLevels);
        }
        proof {
            assert(4 * (width as int) * (height as int) <= 4 * 16384 * 16384)
                by (nonlinear_arith)
                requires
                    2 <= width <= 16384,
                    2 <= height <= 16384,
            ;
            assert(0 <= (width as int) * (height as int) <= 16384 * 16384
                && 4 * ((width as int) * (height as int)) == 4 * (width as int) * (
            height as int)) by (nonlinear_arith)
                requires
                    2 <= width <= 16384,
                    2 <= height <= 16384,
            ;
        }
        let needed: usize = 4 * width * height;
        if height_map_data.len() < needed {
            return Err(HeightMapError::MalformedImage);
        }
        let kw: usize = log2_floor(width);
        let kh: usize = log2_floor(height);
        let lod_count: usize = if kw < kh {
            kw + 1
        } else {
            kh + 1
        };
        proof {
            // at least two levels since both dimensions are at least 2
            crate::fixed_point::lemma_floor_log2_bounds(width as int);
            crate::fixed_point::lemma_floor_log2_bounds(height as int);
            // the dimensions cover the whole pyramid
            lemma_pow2_floor_log2(width as int);
            lemma_pow2_floor_log2(height as int);
            lemma_pow2_mono(lod_count - 1, kw as int);
            lemma_pow2_mono(lod_count - 1, kh as int);
        }
        let size_y: i64 = bounding_box._size.y;
        let n0: usize = width * height;
        let mut level0: Vec<i64> = Vec::new();
        let mut idx: usize = 0;
        while idx < n0
            invariant
                0 <= idx <= n0,
                n0 == width * height,
                4 * n0 <= height_map_data@.len(),
                n0 <= 268435456,
                0 <= size_y <= COORD_LIMIT,
                level0@.len() == idx,
                forall|k: int|
                    0 <= k < idx ==> #[trigger] level0@[k] as int == tdiv(
                        height_map_data@[4 * k] as int * size_y as int,
                        255,
                    ) && 0 <= level0@[k] <= size_y,
            decreases n0 - idx,
        {
            let b: u8 = height_map_data[4 * idx];
            proof {
                lemma_tdiv_scale_le(size_y as int, b as int, 255);
                assert((b as int) * (size_y as int) == (size_y as int) * (b as int))
                    by (nonlinear_arith);
                assert(0 <= (b as int) * (size_y as int) <= 255 * 0x100_0000_0000)
                    by (nonlinear_arith)
                    requires
                        0 <= b as int <= 255,
                        0 <= size_y as int <= 0x100_0000_0000,
                ;
            }
            let s: i64 = (b as i64) * size_y / 255;
            level0.push(s);
            idx = idx + 1;
        }
        let mut widths: Vec<usize> = Vec::new();
        let mut heights: Vec<usize> = Vec::new();
        let mut data: Vec<Vec<i64>> = Vec::new();
        widths.push(width);
        heights.push(height);
        data.push(level0);
        proof {
            assert(grid_w(widths@, 0) == width as int);
            assert(data@[0]@.len() == grid_w(widths@, 0) * grid_w(heights@, 0))
                by (nonlinear_arith)
                requires
                    data@[0]@.len() == (width as int) * (height as int),
                    grid_w(widths@, 0) == width as int,
                    grid_w(heights@, 0) == height as int,
            ;
            assert(levels_wf(widths@, heights@, data@, 1, size_y as int));
        }
        let ghost l0 = data@[0]@;
        Self::generate_hiz_min(&mut widths, &mut heights, &mut data, lod_count, size_y);
        let hm = HeightMapData {
            _sea_height: sea_height,
            _bounding_box: *bounding_box,
            _lod_count: lod_count,
            _width: widths,
            _height: heights,
            _min_height_map_data: data,
        };
        proof {
            assert(hm.level_w(0) == width as int);
            assert(hm._min_height_map_data@[0]@ =~= l0);
            assert forall|x: int, y: int| 0 <= x < width && 0 <= y < height implies #[trigger] hm
                .sample(0, x, y) == tdiv(
                height_map_data@[4 * (y * width + x)] as int * bounding_box._size.y as int,
                255,
            ) by {
                assert(0 <= y * (width as int) + x < (width as int) * (height as int))
                    by (nonlinear_arith)
                    requires
                        0 <= x < width as int,
                        0 <= y < height as int,
                ;
                assert(hm.sample(0, x, y) == l0[y * (width as int) + x]);
            }
        }
        Ok(hm)
    }

    /// The level actually sampled for a requested `lod`: clamped to the
    /// coarsest available level.
    pub open spec fn clamped_lod(self, lod: int) -> int {
        min_i(lod, self._lod_count - 1)
    }

    /// Column index of the point-sample pixel for world `x` coordinate
    /// `px` at level `l`.
    pub open spec fn s_pixel_x(self, l: int, px: int) -> int {
        tdiv(
            s_texcoord(px, self._bounding_box._min.x as int, self._bounding_box._size.x as int) * (
            self.level_w(l) - 1),
            FP_ONE as int,
        )
    }

    /// Row index of the point-sample pixel for world `z` coordinate
    /// `pz` at level `l`.
    pub open spec fn s_pixel_z(self, l: int, pz: int) -> int {
        tdiv(
            s_texcoord(pz, self._bounding_box._min.z as int, self._bounding_box._size.z as int) * (
            self.level_h(l) - 1),
            FP_ONE as int,
        )
    }

    /// Mathematical value of the bilinear height query: texture
    /// coordinates clamped to the footprint, four neighboring samples
    /// interpolated, world minimum added, sea level applied.
    pub open spec fn s_height_bilinear(self, px: int, pz: int, lod: int) -> int {
        let l = self.clamped_lod(lod);
        let w = self.level_w(l);
        let h = self.level_h(l);
        let tx = s_texcoord(px, self._bounding_box._min.x as int, self._bounding_box._size.x as int);
        let tz = s_texcoord(pz, self._bounding_box._min.z as int, self._bounding_box._size.z as int);
        let fx = tx * (w - 1);
        let fz = tz * (h - 1);
        let x0 = tdiv(fx, FP_ONE as int);
        let xf = fx % (FP_ONE as int);
        let x1 = if xf > 0 { x0 + 1 } else { x0 };
        let z0 = tdiv(fz, FP_ONE as int);
        let zf = fz % (FP_ONE as int);
        let z1 = if zf > 0 { z0 + 1 } else { z0 };
        let h0 = s_lerp(self.sample(l, x0, z0), self.sample(l, x1, z0), xf);
        let h1 = s_lerp(self.sample(l, x0, z1), self.sample(l, x1, z1), xf);
        let hh = s_lerp(h0, h1, zf);
        max_i(self._sea_height as int, self._bounding_box._min.y + hh)
    }

    /// Mathematical value of the nearest-pixel height query.
    pub open spec fn s_height_point(self, px: int, pz: int, lod: int) -> int {
        let l = self.clamped_lod(lod);
        max_i(
            self._sea_height as int,
            self._bounding_box._min.y + self.sample(l, self.s_pixel_x(l, px), self.s_pixel_z(l, pz)),
        )
    }
}

impl HeightMapData {
    /// Every level's dimensions stay within the level-0 caps.
    pub proof fn lemma_level_dims(self, l: int)
        requires
            self.wf(),
            0 <= l < self._lod_count,
        ensures
            1 <= self.level_w(l) <= DIM_LIMIT,
            1 <= self.level_h(l) <= DIM_LIMIT,
        decreases l,
    {
        assert(levels_wf(
            self._width@,
            self._height@,
            self._min_height_map_data@,
            self._lod_count as int,
            self._bounding_box._size.y as int,
        ));
        assert(1 <= grid_w(self._width@, l));
        assert(1 <= grid_w(self._height@, l));
        if l > 0 {
            self.lemma_level_dims(l - 1);
            assert(grid_w(self._width@, l) == grid_w(self._width@, l - 1) / 2);
            assert(grid_w(self._height@, l) == grid_w(self._height@, l - 1) / 2);
            vstd::arithmetic::div_mod::lemma_div_nonincreasing(self.level_w(l - 1), 2);
            vstd::arithmetic::div_mod::lemma_div_nonincreasing(self.level_h(l - 1), 2);
        }
    }

    /// Samples the height under a world-space point by bilinear
    /// interpolation at mip level `lod` (clamped to the available
    /// levels).  Points outside the footprint are clamped to its
    /// boundary; the result is never below the sea level.
    #[verifier::rlimit(80)]
    #[verifier::spinoff_prover]
    pub fn get_height_bilinear(&self, pos: &FpVec3, lod: usize) -> (r: i64)
        requires
            self.wf(),
            abs_i(pos.x as int) <= 2 * COORD_LIMIT,
            abs_i(pos.z as int) <= 2 * COORD_LIMIT,
        ensures
            r == self.s_height_bilinear(pos.x as int, pos.z as int, lod as int),
            r >= self._sea_height,
            r <= max_i(
                self._sea_height as int,
                self._bounding_box._min.y + self._bounding_box._size.y,
            ),
    {
        let l: usize = if lod < self._lod_count - 1 {
            lod
        } else {
            self._lod_count - 1
        };
        proof {
            self.lemma_level_dims(l as int);
        }
        let w: usize = self._width[l];
        let h: usize = self._height[l];
        let wi: i64 = w as i64;
        let hi: i64 = h as i64;
        let tx: i64 = texcoord(pos.x, self._bounding_box._min.x, self._bounding_box._size.x);
        let tz: i64 = texcoord(pos.z, self._bounding_box._min.z, self._bounding_box._size.z);
        proof {
            assert(0 <= tx as int * (wi - 1) <= 65536 * 16383 && 0 <= tz as int * (hi - 1)
                <= 65536 * 16383 && tx as int * (wi - 1) <= (wi - 1) * 65536 && tz as int * (hi
                - 1) <= (hi - 1) * 65536) by (nonlinear_arith)
                requires
                    0 <= tx <= 65536,
                    0 <= tz <= 65536,
                    1 <= wi <= 16384,
                    1 <= hi <= 16384,
            ;
        }
        let fx: i64 = tx * (wi - 1);
        let fz: i64 = tz * (hi - 1);
        let x0: i64 = fx / FP_ONE;
        let xf: i64 = fx % FP_ONE;
        let z0: i64 = fz / FP_ONE;
        let zf: i64 = fz % FP_ONE;
        proof {
            lemma_pixel_bounds(fx as int, wi as int);
            lemma_pixel_bounds(fz as int, hi as int);
        }
        let x1: i64 = if xf > 0 {
            x0 + 1
        } else {
            x0
        };
        let z1: i64 = if zf > 0 {
            z0 + 1
        } else {
            z0
        };
        proof {
            lemma_grid_index(wi as int, hi as int, x0 as int, z0 as int);
            lemma_grid_index(wi as int, hi as int, x1 as int, z0 as int);
            lemma_grid_index(wi as int, hi as int, x0 as int, z1 as int);
            lemma_grid_index(wi as int, hi as int, x1 as int, z1 as int);
        }
        let row: &Vec<i64> = &self._min_height_map_data[l];
        let s00: i64 = row[(z0 as usize) * w + (x0 as usize)];
        let s01: i64 = row[(z0 as usize) * w + (x1 as usize)];
        let s10: i64 = row[(z1 as usize) * w + (x0 as usize)];
        let s11: i64 = row[(z1 as usize) * w + (x1 as usize)];
        proof {
            assert(s00 == self.sample(l as int, x0 as int, z0 as int));
            assert(s01 == self.sample(l as int, x1 as int, z0 as int));
            assert(s10 == self.sample(l as int, x0 as int, z1 as int));
            assert(s11 == self.sample(l as int, x1 as int, z1 as int));
        }
        let h0: i64 = fx_lerp(s00, s01, xf);
        let h1: i64 = fx_lerp(s10, s11, xf);
        let hh: i64 = fx_lerp(h0, h1, zf);
        let base: i64 = self._bounding_box._min.y + hh;
        if base < self._sea_height {
            self._sea_height
        } else {
            base
        }
    }

    /// Samples the height under a world-space point at the nearest
    /// pixel of mip level `lod` (clamped to the available levels).
    pub fn get_height_point(&self, pos: &FpVec3, lod: usize) -> (r: i64)
        requires
            self.wf(),
            abs_i(pos.x as int) <= 2 * COORD_LIMIT,
            abs_i(pos.z as int) <= 2 * COORD_LIMIT,
        ensures
            r == self.s_height_point(pos.x as int, pos.z as int, lod as int),
            r >= self._sea_height,
    {
        let l: usize = if lod < self._lod_count - 1 {
            lod
        } else {
            self._lod_count - 1
        };
        proof {
            self.lemma_level_dims(l as int);
        }
        let w: usize = self._width[l];
        let h: usize = self._height[l];
        let wi: i64 = w as i64;
        let hi: i64 = h as i64;
        let tx: i64 = texcoord(pos.x, self._bounding_box._min.x, self._bounding_box._size.x);
        let tz: i64 = texcoord(pos.z, self._bounding_box._min.z, self._bounding_box._size.z);
        proof {
            assert(0 <= tx as int * (wi - 1) <= 65536 * 16383 && 0 <= tz as int * (hi - 1)
                <= 65536 * 16383 && tx as int * (wi - 1) <= (wi - 1) * 65536 && tz as int * (hi
                - 1) <= (hi - 1) * 65536) by (nonlinear_arith)
                requires
                    0 <= tx <= 65536,
                    0 <= tz <= 65536,
                    1 <= wi <= 16384,
                    1 <= hi <= 16384,
            ;
        }
        let fx: i64 = tx * (wi - 1);
        let fz: i64 = tz * (hi - 1);
        let x0: i64 = fx / FP_ONE;
        let z0: i64 = fz / FP_ONE;
        proof {
            lemma_pixel_bounds(fx as int, wi as int);
            lemma_pixel_bounds(fz as int, hi as int);
            lemma_grid_index(wi as int, hi as int, x0 as int, z0 as int);
        }
        let row: &Vec<i64> = &self._min_height_map_data[l];
        let s: i64 = row[(z0 as usize) * w + (x0 as usize)];
        let base: i64 = self._bounding_box._min.y + s;
        if base < self._sea_height {
            self._sea_height
        } else {
            base
        }
    }
}

/// A nonnegative sub-pixel coordinate `f <= (dim - 1) * FP_ONE` yields
/// a floor pixel within the grid, and a ceiling pixel within the grid
/// whenever the fractional part is nonzero.
proof fn lemma_pixel_bounds(f: int, dim: int)
    requires
        dim >= 1,
        0 <= f,
        f <= (dim - 1) * (FP_ONE as int),
    ensures
        0 <= tdiv(f, FP_ONE as int) <= dim - 1,
        tdiv(f, FP_ONE as int) == f / (FP_ONE as int),
        f % (FP_ONE as int) > 0 ==> tdiv(f, FP_ONE as int) + 1 <= dim - 1,
{
    lemma_tdiv_mono(f, (dim - 1) * (FP_ONE as int), FP_ONE as int);
    lemma_tdiv_exact(dim - 1, FP_ONE as int);
    vstd::arithmetic::div_mod::lemma_fundamental_div_mod(f, FP_ONE as int);
    vstd::arithmetic::div_mod::lemma_div_pos_is_pos(f, FP_ONE as int);
    if f % (FP_ONE as int) > 0 {
        let q = f / (FP_ONE as int);
        if q >= dim - 1 {
            assert((dim - 1) * (FP_ONE as int) <= q * (FP_ONE as int)) by (nonlinear_arith)
                requires
                    dim - 1 <= q,
            ;
        }
    }
}

/// Pixel coordinates within a `w` by `h` grid give a row-major index
/// within the sample buffer.
proof fn lemma_grid_index(w: int, h: int, x: int, z: int)
    requires
        1 <= w <= 16384,
        1 <= h <= 16384,
        0 <= x <= w - 1,
        0 <= z <= h - 1,
    ensures
        0 <= z * w + x < w * h,
        z * w + x < 268435456,
{
    assert(0 <= z * w + x < w * h && w * h <= 268435456) by (nonlinear_arith)
        requires
            1 <= w <= 16384,
            1 <= h <= 16384,
            0 <= x <= w - 1,
            0 <= z <= h - 1,
    ;
}

/// Clamping a coordinate into the span does not change its clamped
/// texture coordinate.
proof fn lemma_texcoord_clamp(p: int, lo: int, size: int)
    requires
        size >= 1,
    ensures
        s_texcoord(clip(p, lo, lo + size), lo, size) == s_texcoord(p, lo, size),
{
    let fp = FP_ONE as int;
    if p < lo {
        assert((p - lo) * fp < 0) by (nonlinear_arith)
            requires
                p - lo < 0,
                fp >= 1,
        ;
        crate::fixed_point::lemma_tdiv_mag((p - lo) * fp, size);
        assert(s_texcoord(lo, lo, size) == clip(tdiv(0, size), 0, fp));
    } else if p > lo + size {
        assert(size * fp <= (p - lo) * fp) by (nonlinear_arith)
            requires
                size <= p - lo,
                fp >= 1,
        ;
        lemma_tdiv_mono(size * fp, (p - lo) * fp, size);
        lemma_tdiv_exact(fp, size);
        assert(size * fp == fp * size) by (nonlinear_arith);
    }
}

impl HeightMapData {
    /// Pyramid monotonicity: every cell of a coarser level equals the
    /// minimum of the four cells of the next-finer level it summarizes,
    /// and therefore never exceeds any one of them.
    pub proof fn lemma_pyramid_monotonic(self, i: int, x: int, y: int)
        requires
            self.wf(),
            0 <= i < self._lod_count - 1,
            0 <= x < self.level_w(i + 1),
            0 <= y < self.level_h(i + 1),
        ensures
            self.sample(i + 1, x, y) == min4(
                self.sample(i, 2 * x, 2 * y),
                self.sample(i, 2 * x + 1, 2 * y),
                self.sample(i, 2 * x, 2 * y + 1),
                self.sample(i, 2 * x + 1, 2 * y + 1),
            ),
            self.sample(i + 1, x, y) <= self.sample(i, 2 * x, 2 * y),
            self.sample(i + 1, x, y) <= self.sample(i, 2 * x + 1, 2 * y),
            self.sample(i + 1, x, y) <= self.sample(i, 2 * x, 2 * y + 1),
            self.sample(i + 1, x, y) <= self.sample(i, 2 * x + 1, 2 * y + 1),
    {
        assert(cell(self._min_height_map_data@, self._width@, i + 1, x, y) == min4(
            cell(self._min_height_map_data@, self._width@, i, 2 * x, 2 * y),
            cell(self._min_height_map_data@, self._width@, i, 2 * x + 1, 2 * y),
            cell(self._min_height_map_data@, self._width@, i, 2 * x, 2 * y + 1),
            cell(self._min_height_map_data@, self._width@, i, 2 * x + 1, 2 * y + 1),
        ));
    }

    /// Every level's cell count at most halves upward: the block a
    /// coarse cell summarizes stays inside the finer level.
    proof fn lemma_dims_double(self, l: int)
        requires
            self.wf(),
            1 <= l < self._lod_count,
        ensures
            2 * self.level_w(l) <= self.level_w(l - 1),
            2 * self.level_h(l) <= self.level_h(l - 1),
    {
        assert(grid_w(self._width@, l) == grid_w(self._width@, l - 1) / 2);
        assert(grid_w(self._height@, l) == grid_w(self._height@, l - 1) / 2);
    }

    /// Min-pyramid conservativeness: a cell at level `l` never
    /// overestimates any level-0 sample inside the `2^l` by `2^l`
    /// block it summarizes.  This is what makes it safe for a ray to
    /// skip a whole coarse cell once it is known to pass above it.
    pub proof fn lemma_pyramid_conservative(self, l: int, x: int, y: int, fx: int, fy: int)
        requires
            self.wf(),
            0 <= l < self._lod_count,
            0 <= x < self.level_w(l),
            0 <= y < self.level_h(l),
            x * pow2i(l) <= fx < (x + 1) * pow2i(l),
            y * pow2i(l) <= fy < (y + 1) * pow2i(l),
        ensures
            0 <= fx < self.level_w(0),
            0 <= fy < self.level_h(0),
            self.sample(l, x, y) <= self.sample(0, fx, fy),
        decreases l,
    {
        if l == 0 {
            assert(pow2i(0) == 1);
        } else {
            let half = pow2i(l - 1);
            lemma_pow2_pos(l - 1);
            assert(pow2i(l) == 2 * half);
            self.lemma_dims_double(l);
            let cx = tdiv(fx, half);
            let cy = tdiv(fy, half);
            Self::lemma_child_of_block(x, fx, half);
            Self::lemma_child_of_block(y, fy, half);
            assert(self.sample(l, x, y) == min4(
                self.sample(l - 1, 2 * x, 2 * y),
                self.sample(l - 1, 2 * x + 1, 2 * y),
                self.sample(l - 1, 2 * x, 2 * y + 1),
                self.sample(l - 1, 2 * x + 1, 2 * y + 1),
            ));
            assert(2 * x + 1 < self.level_w(l - 1));
            assert(2 * y + 1 < self.level_h(l - 1));
            self.lemma_pyramid_conservative(l - 1, cx, cy, fx, fy);
        }
    }

    /// Within a block of width `2 * half` starting at `x * 2 * half`,
    /// the half-block index of any member is `2x` or `2x + 1`, and the
    /// member stays within that half-block's own span.
    proof fn lemma_child_of_block(x: int, f: int, half: int)
        requires
            half >= 1,
            x >= 0,
            x * (2 * half) <= f < (x + 1) * (2 * half),
        ensures
            tdiv(f, half) == 2 * x || tdiv(f, half) == 2 * x + 1,
            tdiv(f, half) * half <= f < (tdiv(f, half) + 1) * half,
            tdiv(f, half) >= 0,
    {
        assert(f >= 0) by (nonlinear_arith)
            requires
                x >= 0,
                half >= 1,
                x * (2 * half) <= f,
        ;
        let q = f / half;
        vstd::arithmetic::div_mod::lemma_fundamental_div_mod(f, half);
        vstd::arithmetic::div_mod::lemma_remainder_lower(f, half);
        vstd::arithmetic::div_mod::lemma_remainder_upper(f, half);
        assert(q * half <= f < (q + 1) * half) by (nonlinear_arith)
            requires
                f == half * q + f % half,
                0 <= f % half < half,
        ;
        assert(2 * x <= q && q <= 2 * x + 1) by (nonlinear_arith)
            requires
                half >= 1,
                x * (2 * half) <= f,
                f < (x + 1) * (2 * half),
                q * half <= f,
                f < (q + 1) * half,
        ;
    }

    /// Boundary clamp: sampling outside the footprint gives the same
    /// height as sampling the nearest point on the footprint boundary.
    pub proof fn lemma_bilinear_boundary_clamp(self, px: int, pz: int, lod: int)
        requires
            self.wf(),
        ensures
            self.s_height_bilinear(px, pz, lod) == self.s_height_bilinear(
                clip(
                    px,
                    self._bounding_box._min.x as int,
                    self._bounding_box._min.x + self._bounding_box._size.x,
                ),
                clip(
                    pz,
                    self._bounding_box._min.z as int,
                    self._bounding_box._min.z + self._bounding_box._size.z,
                ),
                lod,
            ),
    {
        lemma_texcoord_clamp(px, self._bounding_box._min.x as int, self._bounding_box._size.x as int);
        lemma_texcoord_clamp(pz, self._bounding_box._min.z as int, self._bounding_box._size.z as int);
    }

    /// Sea-level floor: no query result is ever below the sea level.
    pub proof fn lemma_sea_level_floor(self, px: int, pz: int, lod: int)
        ensures
            self.s_height_bilinear(px, pz, lod) >= self._sea_height,
            self.s_height_point(px, pz, lod) >= self._sea_height,
    {
    }
}

/// Largest magnitude a marched ray position can reach.
pub const POS_LIMIT: i64 = 0x800_0000_0000_0000;

/// Clamped texture coordinate of `p` over `[lo, lo + size]`.
fn texcoord(p: i64, lo: i64, size: i64) -> (t: i64)
    requires
        1 <= size <= COORD_LIMIT,
        abs_i(lo as int) <= COORD_LIMIT,
        abs_i(p as int) <= POS_LIMIT,
    ensures
        t == s_texcoord(p as int, lo as int, size as int),
        0 <= t <= FP_ONE,
{
    let d: i64 = p - lo;
    if d <= 0 {
        proof {
            assert(d as int * FP_ONE as int <= 0) by (nonlinear_arith)
                requires
                    d as int <= 0,
            ;
            crate::fixed_point::lemma_tdiv_mag(d as int * FP_ONE as int, size as int);
        }
        0
    } else if d >= size {
        proof {
            assert(size as int * FP_ONE as int <= d as int * FP_ONE as int) by (nonlinear_arith)
                requires
                    size as int <= d as int,
            ;
            lemma_tdiv_mono(
                size as int * FP_ONE as int,
                d as int * FP_ONE as int,
                size as int,
            );
            lemma_tdiv_exact(FP_ONE as int, size as int);
            assert(size as int * FP_ONE as int == FP_ONE as int * size as int)
                by (nonlinear_arith);
        }
        FP_ONE
    } else {
        proof {
            assert(0 <= d as int * FP_ONE as int <= 0x200_0000_0000 * 65536)
                by (nonlinear_arith)
                requires
                    0 <= d as int <= 0x200_0000_0000,
            ;
            crate::fixed_point::lemma_tdiv_mag(d as int * FP_ONE as int, size as int);
            assert(d as int * FP_ONE as int <= size as int * FP_ONE as int) by (nonlinear_arith)
                requires
                    d as int <= size as int,
            ;
            lemma_tdiv_mono(
                d as int * FP_ONE as int,
                size as int * FP_ONE as int,
                size as int,
            );
            lemma_tdiv_exact(FP_ONE as int, size as int);
            assert(size as int * FP_ONE as int == FP_ONE as int * size as int)
                by (nonlinear_arith);
        }
        crate::fixed_point::fx_div(d, size)
    }
}

/// Fixed-point linear interpolation between two heights.
fn fx_lerp(a: i64, b: i64, t: i64) -> (r: i64)
    requires
        abs_i(a as int) <= 0x200_0000_0000,
        abs_i(b as int) <= 0x200_0000_0000,
        0 <= t <= FP_ONE,
    ensures
        r == s_lerp(a as int, b as int, t as int),
        min_i(a as int, b as int) <= r <= max_i(a as int, b as int),
{
    proof {
        lemma_lerp_range(a as int, b as int, t as int);
        crate::fixed_point::lemma_mul_abs(b as int - a as int, t as int);
        crate::fixed_point::lemma_tdiv_mag((b as int - a as int) * t as int, FP_ONE as int);
        assert(abs_i(b as int - a as int) * abs_i(t as int) <= 0x400_0000_0000 * 65536)
            by (nonlinear_arith)
            requires
                abs_i(b as int - a as int) <= 0x400_0000_0000,
                0 <= abs_i(t as int) <= 65536,
        ;
    }
    let d: i64 = b - a;
    let e: i64 = fx_mul_div(d, t, FP_ONE);
    a + e
}

/// Ceiling division for nonnegative `a` and positive `b`.
pub open spec fn cdiv(a: int, b: int) -> int
    recommends
        a >= 0,
        b >= 1,
{
    tdiv(a + b - 1, b)
}

/// Ceiling base-2 logarithm: the smallest `k` with `2^k >= n`
/// (`0` for `n <= 1`).
pub open spec fn ceil_log2(n: int) -> int
    decreases n,
{
    if n <= 1 {
        0
    } else {
        1 + ceil_log2((n + 1) / 2)
    }
}

/// State of the hierarchical grid march between steps: current mip
/// level, current grid cell, current position on the ray, and the
/// tentative hit recorded so far.
pub ghost struct MarchState {
    pub lod: int,
    pub px: int,
    pub pz: int,
    pub pos_x: int,
    pub pos_y: int,
    pub pos_z: int,
    pub collided: bool,
    pub hit_x: int,
    pub hit_y: int,
    pub hit_z: int,
}

impl HeightMapData {
    /// World-space floor height of cell `(x, z)` at level `l`: the
    /// stored minimum plus the footprint base, never below sea level.
    pub open spec fn cell_floor(self, l: int, x: int, z: int) -> int {
        max_i(self._sea_height as int, self._bounding_box._min.y + self.sample(l, x, z))
    }

    /// World `x` coordinate of the edge of column `pix + s` at level `l`.
    pub open spec fn s_cell_edge_x(self, l: int, pix: int, s: int) -> int {
        self._bounding_box._min.x + tdiv(
            self._bounding_box._size.x * (pix + s),
            self.level_w(l),
        )
    }

    /// World `z` coordinate of the edge of row `pix + s` at level `l`.
    pub open spec fn s_cell_edge_z(self, l: int, pix: int, s: int) -> int {
        self._bounding_box._min.z + tdiv(
            self._bounding_box._size.z * (pix + s),
            self.level_h(l),
        )
    }

    /// Remaining grid cells the march can visit at its current level,
    /// given the (fixed) horizontal direction signs.
    pub open spec fn s_march_budget(self, dx: int, dz: int, st: MarchState) -> int {
        max_i(
            0,
            if 0 < dx {
                self.level_w(st.lod) - st.px
            } else {
                st.px + 1
            },
        ) + max_i(
            0,
            if 0 < dz {
                self.level_h(st.lod) - st.pz
            } else {
                st.pz + 1
            },
        )
    }

    /// One step of the hierarchical march, as a recursion over the
    /// state: test the current cell's floor; on contact record a
    /// tentative hit and descend a level at the same position;
    /// otherwise advance to the next cell crossed by the ray (2D DDA
    /// from the ray start).  Ends when the level underflows or the
    /// cell walks outside the grid, yielding the last tentative hit.
    pub open spec fn s_march(
        self,
        sx: int,
        sy: int,
        sz: int,
        dx: int,
        dy: int,
        dz: int,
        st: MarchState,
    ) -> (bool, int, int, int)
        decreases st.lod + 1, self.s_march_budget(dx, dz, st),
    {
        if st.lod < 0 {
            (st.collided, st.hit_x, st.hit_y, st.hit_z)
        } else if st.px < 0 || st.pz < 0 || self.level_w(st.lod) <= st.px || self.level_h(st.lod)
            <= st.pz {
            (st.collided, st.hit_x, st.hit_y, st.hit_z)
        } else {
            let hv = self.cell_floor(st.lod, st.px, st.pz);
            if st.pos_y <= hv {
                let l2 = st.lod - 1;
                self.s_march(
                    sx,
                    sy,
                    sz,
                    dx,
                    dy,
                    dz,
                    MarchState {
                        lod: l2,
                        px: self.s_pixel_x(l2, st.pos_x),
                        pz: self.s_pixel_z(l2, st.pos_z),
                        pos_x: st.pos_x,
                        pos_y: st.pos_y,
                        pos_z: st.pos_z,
                        collided: true,
                        hit_x: st.pos_x,
                        hit_y: hv,
                        hit_z: st.pos_z,
                    },
                )
            } else {
                let ex = self.s_cell_edge_x(st.lod, st.px, if 0 < dx { 1 } else { 0 });
                let ez = self.s_cell_edge_z(st.lod, st.pz, if 0 < dz { 1 } else { 0 });
                let ddx = abs_i(ex - sx);
                let ddz = abs_i(ez - sz);
                let horizontal = if dx == 0 {
                    false
                } else if dz == 0 {
                    true
                } else {
                    tdiv(abs_i(dz) * ddx, abs_i(dx)) <= ddz
                };
                if horizontal {
                    self.s_march(
                        sx,
                        sy,
                        sz,
                        dx,
                        dy,
                        dz,
                        MarchState {
                            lod: st.lod,
                            px: st.px + if 0 < dx { 1 } else { -1 },
                            pz: st.pz,
                            pos_x: sx + tdiv(dx * ddx, abs_i(dx)),
                            pos_y: sy + tdiv(dy * ddx, abs_i(dx)),
                            pos_z: sz + tdiv(dz * ddx, abs_i(dx)),
                            collided: st.collided,
                            hit_x: st.hit_x,
                            hit_y: st.hit_y,
                            hit_z: st.hit_z,
                        },
                    )
                } else {
                    self.s_march(
                        sx,
                        sy,
                        sz,
                        dx,
                        dy,
                        dz,
                        MarchState {
                            lod: st.lod,
                            px: st.px,
                            pz: st.pz + if 0 < dz { 1 } else { -1 },
                            pos_x: sx + tdiv(dx * ddz, abs_i(dz)),
                            pos_y: sy + tdiv(dy * ddz, abs_i(dz)),
                            pos_z: sz + tdiv(dz * ddz, abs_i(dz)),
                            collided: st.collided,
                            hit_x: st.hit_x,
                            hit_y: st.hit_y,
                            hit_z: st.hit_z,
                        },
                    )
                }
            }
        }
    }

    /// Coarsest level the march may start at: capped at a configured
    /// maximum and kept away from the two coarsest levels.
    pub open spec fn s_max_lod(self) -> int {
        min_i(5, self._lod_count - 2)
    }

    /// Starting level for a requested travel distance: chosen so the
    /// march covers the distance in a bounded number of cells, coarser
    /// for longer queries.
    pub open spec fn s_initial_lod(self, dx: int, dz: int, limit: int) -> int {
        if limit < 0 {
            self.s_max_lod()
        } else {
            let md = max_i(abs_i(dx), abs_i(dz));
            let dist_units = cdiv(md * limit, (FP_ONE as int) * (FP_ONE as int));
            if dist_units <= 0 {
                self.s_max_lod()
            } else {
                let msize = max_i(
                    self._bounding_box._size.x as int,
                    self._bounding_box._size.z as int,
                );
                let ratio = cdiv(msize, dist_units * (FP_ONE as int));
                min_i(self.s_max_lod(), ceil_log2(ratio))
            }
        }
    }

    /// Mathematical value of the ray-collision query.  A ray without
    /// horizontal motion never crosses a cell edge, so it is resolved
    /// directly against its column: it hits exactly when it points
    /// downward from at or above the surface.  Every other ray runs
    /// the hierarchical march from its starting cell.
    pub open spec fn s_ray_collision(
        self,
        sx: int,
        sy: int,
        sz: int,
        dx: int,
        dy: int,
        dz: int,
        limit: int,
        ox: int,
        oy: int,
        oz: int,
    ) -> (bool, int, int, int) {
        if dx == 0 && dz == 0 {
            let h = self.s_height_point(sx, sz, 0);
            if dy < 0 && sy >= h {
                (true, sx, h, sz)
            } else {
                (false, ox, oy, oz)
            }
        } else {
            let l0 = self.s_initial_lod(dx, dz, limit);
            self.s_march(
                sx,
                sy,
                sz,
                dx,
                dy,
                dz,
                MarchState {
                    lod: l0,
                    px: self.s_pixel_x(l0, sx),
                    pz: self.s_pixel_z(l0, sz),
                    pos_x: sx,
                    pos_y: sy,
                    pos_z: sz,
                    collided: false,
                    hit_x: ox,
                    hit_y: oy,
                    hit_z: oz,
                },
            )
        }
    }
}

impl HeightMapData {
    /// Grid column under world `x` coordinate `p` at level `l`.
    fn pixel_x(&self, l: usize, p: i64) -> (r: i64)
        requires
            self.wf(),
            l < self._lod_count,
            abs_i(p as int) <= POS_LIMIT,
        ensures
            r == self.s_pixel_x(l as int, p as int),
            0 <= r < self.level_w(l as int),
    {
        proof {
            self.lemma_level_dims(l as int);
        }
        let w: usize = self._width[l];
        let wi: i64 = w as i64;
        let tx: i64 = texcoord(p, self._bounding_box._min.x, self._bounding_box._size.x);
        proof {
            assert(0 <= tx as int * (wi - 1) <= 65536 * 16383 && tx as int * (wi - 1) <= (wi - 1)
                * 65536) by (nonlinear_arith)
                requires
                    0 <= tx <= 65536,
                    1 <= wi <= 16384,
            ;
        }
        let fx: i64 = tx * (wi - 1);
        proof {
            lemma_pixel_bounds(fx as int, wi as int);
        }
        fx / FP_ONE
    }

    /// Grid row under world `z` coordinate `p` at level `l`.
    fn pixel_z(&self, l: usize, p: i64) -> (r: i64)
        requires
            self.wf(),
            l < self._lod_count,
            abs_i(p as int) <= POS_LIMIT,
        ensures
            r == self.s_pixel_z(l as int, p as int),
            0 <= r < self.level_h(l as int),
    {
        proof {
            self.lemma_level_dims(l as int);
        }
        let h: usize = self._height[l];
        let hi: i64 = h as i64;
        let tz: i64 = texcoord(p, self._bounding_box._min.z, self._bounding_box._size.z);
        proof {
            assert(0 <= tz as int * (hi - 1) <= 65536 * 16383 && tz as int * (hi - 1) <= (hi - 1)
                * 65536) by (nonlinear_arith)
                requires
                    0 <= tz <= 65536,
                    1 <= hi <= 16384,
            ;
        }
        let fz: i64 = tz * (hi - 1);
        proof {
            lemma_pixel_bounds(fz as int, hi as int);
        }
        fz / FP_ONE
    }
}

/// The ceiling logarithm is nonnegative and bounded by any exponent
/// whose power covers `n`.
proof fn lemma_ceil_log2_le(n: int, k: int)
    requires
        k >= 0,
        n <= pow2i(k),
    ensures
        0 <= ceil_log2(n) <= k,
    decreases n,
{
    if n > 1 {
        lemma_pow2_pos(k - 1);
        assert(pow2i(k) == 2 * pow2i(k - 1));
        lemma_ceil_log2_le((n + 1) / 2, k - 1);
    } else if n <= 1 {
        if ceil_log2(n) != 0 {
            assert(false);
        }
    }
}

/// Smallest `k` with `2^k >= n`, for positive `n`.
fn ceil_log2_exec(n: i64) -> (k: i64)
    requires
        1 <= n <= 0x2_0000_0000,
    ensures
        k == ceil_log2(n as int),
        0 <= k <= 34,
{
    proof {
        assert(pow2i(34) == 0x4_0000_0000) by {
            reveal_with_fuel(pow2i, 35);
        }
        lemma_ceil_log2_le(n as int, 34);
    }
    let mut v: i64 = n;
    let mut k: i64 = 0;
    while v > 1
        invariant
            1 <= v <= n,
            0 <= k,
            n <= 0x2_0000_0000,
            ceil_log2(n as int) == k + ceil_log2(v as int),
            0 <= ceil_log2(n as int) <= 34,
        decreases v,
    {
        proof {
            assert(pow2i(34) == 0x4_0000_0000) by {
                reveal_with_fuel(pow2i, 35);
            }
            lemma_ceil_log2_le(v as int, 34);
        }
        v = (v + 1) / 2;
        k = k + 1;
        proof {
            lemma_ceil_log2_le(v as int, 34);
        }
    }
    k
}

impl HeightMapData {
    /// First terrain contact along a ray, found by the hierarchical
    /// coarse-to-fine grid march of `s_march`.  On contact the hit is
    /// written into `collision_point`; the return value says whether
    /// any cell was contacted.  A ray that walks off the grid keeps
    /// the last tentative hit.
    #[verifier::rlimit(100)]
    #[verifier::spinoff_prover]
    pub fn get_collision_point(
        &self,
        start_pos: &FpVec3,
        dir: &FpVec3,
        limit_dist: i64,
        collision_point: &mut FpVec3,
    ) -> (collided: bool)
        requires
            self.wf(),
            abs_i(start_pos.x as int) <= COORD_LIMIT,
            abs_i(start_pos.y as int) <= COORD_LIMIT,
            abs_i(start_pos.z as int) <= COORD_LIMIT,
            abs_i(dir.x as int) <= FP_ONE,
            abs_i(dir.y as int) <= FP_ONE,
            abs_i(dir.z as int) <= FP_ONE,
            abs_i(limit_dist as int) <= COORD_LIMIT,
        ensures
            ({
                let (c, hx, hy, hz) = self.s_ray_collision(
                    start_pos.x as int,
                    start_pos.y as int,
                    start_pos.z as int,
                    dir.x as int,
                    dir.y as int,
                    dir.z as int,
                    limit_dist as int,
                    old(collision_point).x as int,
                    old(collision_point).y as int,
                    old(collision_point).z as int,
                );
                collided == c && final(collision_point).x == hx && final(collision_point).y == hy
                    && final(collision_point).z == hz
            }),
    {
        let sx: i64 = start_pos.x;
        let sy: i64 = start_pos.y;
        let sz: i64 = start_pos.z;
        if dir.x == 0 && dir.z == 0 {
            // no horizontal motion: resolve against the start column
            let h = self.get_height_point(start_pos, 0);
            if dir.y < 0 && sy >= h {
                collision_point.x = sx;
                collision_point.y = h;
                collision_point.z = sz;
                return true;
            }
            return false;
        }
        let max_lod: i64 = if self._lod_count - 2 < 5 {
            (self._lod_count - 2) as i64
        } else {
            5
        };
        let mut lod: i64 = max_lod;
        if limit_dist >= 0 {
            let adx: i64 = if dir.x >= 0 {
                dir.x
            } else {
                -dir.x
            };
            let adz: i64 = if dir.z >= 0 {
                dir.z
            } else {
                -dir.z
            };
            let md: i64 = if adx >= adz {
                adx
            } else {
                adz
            };
            proof {
                assert(0 <= md as int * limit_dist as int <= 65536 * 0x100_0000_0000)
                    by (nonlinear_arith)
                    requires
                        0 <= md <= 65536,
                        0 <= limit_dist <= 0x100_0000_0000,
                ;
            }
            let dist_units: i64 = (md * limit_dist + 0xffff_ffff) / 0x1_0000_0000;
            if dist_units > 0 {
                let msize: i64 = if self._bounding_box._size.x >= self._bounding_box._size.z {
                    self._bounding_box._size.x
                } else {
                    self._bounding_box._size.z
                };
                proof {
                    assert(dist_units as int <= 0x100_0000_0000) by {
                        crate::fixed_point::lemma_tdiv_mag(
                            md as int * limit_dist as int + 0xffff_ffff,
                            0x1_0000_0000,
                        );
                    }
                    assert(0 < dist_units as int * 65536 <= 0x100_0000_0000 * 65536)
                        by (nonlinear_arith)
                        requires
                            0 < dist_units <= 0x100_0000_0000,
                    ;
                }
                let den: i64 = dist_units * FP_ONE;
                let ratio: i64 = (msize + den - 1) / den;
                proof {
                    crate::fixed_point::lemma_tdiv_mag(msize as int + den as int - 1, den as int);
                    vstd::arithmetic::div_mod::lemma_div_non_zero(
                        msize as int + den as int - 1,
                        den as int,
                    );
                    assert(msize as int + den as int - 1 <= 0x1000001 * den as int)
                        by (nonlinear_arith)
                        requires
                            1 <= msize as int <= 0x100_0000_0000,
                            den as int >= 65536,
                    ;
                    lemma_tdiv_mono(
                        msize as int + den as int - 1,
                        0x1000001 * den as int,
                        den as int,
                    );
                    lemma_tdiv_exact(0x1000001, den as int);
                }
                let cl: i64 = ceil_log2_exec(ratio);
                if cl < max_lod {
                    lod = cl;
                }
            }
        }
        proof {
            assert(lod == self.s_initial_lod(dir.x as int, dir.z as int, limit_dist as int));
        }
        let mut px: i64 = self.pixel_x(lod as usize, sx);
        let mut pz: i64 = self.pixel_z(lod as usize, sz);
        let mut pos_x: i64 = sx;
        let mut pos_y: i64 = sy;
        let mut pos_z: i64 = sz;
        let mut hit: bool = false;
        let ghost target = self.s_march(
            sx as int,
            sy as int,
            sz as int,
            dir.x as int,
            dir.y as int,
            dir.z as int,
            MarchState {
                lod: lod as int,
                px: px as int,
                pz: pz as int,
                pos_x: sx as int,
                pos_y: sy as int,
                pos_z: sz as int,
                collided: false,
                hit_x: old(collision_point).x as int,
                hit_y: old(collision_point).y as int,
                hit_z: old(collision_point).z as int,
            },
        );
        proof {
            assert(target == self.s_ray_collision(
                sx as int,
                sy as int,
                sz as int,
                dir.x as int,
                dir.y as int,
                dir.z as int,
                limit_dist as int,
                old(collision_point).x as int,
                old(collision_point).y as int,
                old(collision_point).z as int,
            ));
        }
        while 0 <= lod
            invariant
                self.wf(),
                target == self.s_ray_collision(
                    sx as int,
                    sy as int,
                    sz as int,
                    dir.x as int,
                    dir.y as int,
                    dir.z as int,
                    limit_dist as int,
                    old(collision_point).x as int,
                    old(collision_point).y as int,
                    old(collision_point).z as int,
                ),
                sx == start_pos.x,
                sy == start_pos.y,
                sz == start_pos.z,
                abs_i(sx as int) <= COORD_LIMIT,
                abs_i(sy as int) <= COORD_LIMIT,
                abs_i(sz as int) <= COORD_LIMIT,
                abs_i(dir.x as int) <= FP_ONE,
                abs_i(dir.y as int) <= FP_ONE,
                abs_i(dir.z as int) <= FP_ONE,
                !(dir.x == 0 && dir.z == 0),
                -1 <= lod < self._lod_count - 1,
                lod >= 0 ==> 0 <= px < self.level_w(lod as int) && 0 <= pz < self.level_h(
                    lod as int,
                ),
                abs_i(pos_x as int) <= POS_LIMIT,
                abs_i(pos_y as int) <= POS_LIMIT,
                abs_i(pos_z as int) <= POS_LIMIT,
                target == self.s_march(
                    sx as int,
                    sy as int,
                    sz as int,
                    dir.x as int,
                    dir.y as int,
                    dir.z as int,
                    (MarchState {
                        lod: lod as int,
                        px: px as int,
                        pz: pz as int,
                        pos_x: pos_x as int,
                        pos_y: pos_y as int,
                        pos_z: pos_z as int,
                        collided: hit,
                        hit_x: collision_point.x as int,
                        hit_y: collision_point.y as int,
                        hit_z: collision_point.z as int,
                    }),
                ),
            decreases lod + 1, (max_i(
                0,
                if 0 < dir.x {
                    self.level_w(lod as int) - px
                } else {
                    px as int + 1
                },
            ) + max_i(
                0,
                if 0 < dir.z {
                    self.level_h(lod as int) - pz
                } else {
                    pz as int + 1
                },
            )),
        {
            let ghost entry = MarchState {
                lod: lod as int,
                px: px as int,
                pz: pz as int,
                pos_x: pos_x as int,
                pos_y: pos_y as int,
                pos_z: pos_z as int,
                collided: hit,
                hit_x: collision_point.x as int,
                hit_y: collision_point.y as int,
                hit_z: collision_point.z as int,
            };
            proof {
                self.lemma_level_dims(lod as int);
            }
            let l: usize = lod as usize;
            let w: usize = self._width[l];
            let h: usize = self._height[l];
            let wi: i64 = w as i64;
            let hi: i64 = h as i64;
            proof {
                lemma_grid_index(wi as int, hi as int, px as int, pz as int);
            }
            let sval: i64 = self._min_height_map_data[l][(pz as usize) * w + (px as usize)];
            let base: i64 = self._bounding_box._min.y + sval;
            let hv: i64 = if base < self._sea_height {
                self._sea_height
            } else {
                base
            };
            proof {
                assert(hv as int == self.cell_floor(lod as int, px as int, pz as int));
            }
            if pos_y <= hv {
                hit = true;
                collision_point.x = pos_x;
                collision_point.y = hv;
                collision_point.z = pos_z;
                if lod == 0 {
                    lod = -1;
                    proof {
                        let stepped = MarchState {
                            lod: entry.lod - 1,
                            px: self.s_pixel_x(entry.lod - 1, entry.pos_x),
                            pz: self.s_pixel_z(entry.lod - 1, entry.pos_z),
                            pos_x: entry.pos_x,
                            pos_y: entry.pos_y,
                            pos_z: entry.pos_z,
                            collided: true,
                            hit_x: entry.pos_x,
                            hit_y: hv as int,
                            hit_z: entry.pos_z,
                        };
                        assert(target == self.s_march(
                            sx as int,
                            sy as int,
                            sz as int,
                            dir.x as int,
                            dir.y as int,
                            dir.z as int,
                            stepped,
                        ));
                        assert(self.s_march(
                            sx as int,
                            sy as int,
                            sz as int,
                            dir.x as int,
                            dir.y as int,
                            dir.z as int,
                            stepped,
                        ) == (true, entry.pos_x, hv as int, entry.pos_z));
                    }
                } else {
                    lod = lod - 1;
                    px = self.pixel_x(lod as usize, pos_x);
                    pz = self.pixel_z(lod as usize, pos_z);
                }
            } else {
                let step_x: i64 = if 0 < dir.x {
                    1
                } else {
                    0
                };
                let step_z: i64 = if 0 < dir.z {
                    1
                } else {
                    0
                };
                proof {
                    lemma_tdiv_scale_le(
                        self._bounding_box._size.x as int,
                        px as int + step_x as int,
                        wi as int,
                    );
                    lemma_tdiv_scale_le(
                        self._bounding_box._size.z as int,
                        pz as int + step_z as int,
                        hi as int,
                    );
                    assert(self._bounding_box._size.x as int * (px as int + step_x as int) == (
                    px as int + step_x as int) * self._bounding_box._size.x as int)
                        by (nonlinear_arith);
                    assert(self._bounding_box._size.z as int * (pz as int + step_z as int) == (
                    pz as int + step_z as int) * self._bounding_box._size.z as int)
                        by (nonlinear_arith);
                }
                let ex: i64 = self._bounding_box._min.x + fx_mul_div(
                    self._bounding_box._size.x,
                    px + step_x,
                    wi,
                );
                let ez: i64 = self._bounding_box._min.z + fx_mul_div(
                    self._bounding_box._size.z,
                    pz + step_z,
                    hi,
                );
                let ddx: i64 = if ex >= sx {
                    ex - sx
                } else {
                    sx - ex
                };
                let ddz: i64 = if ez >= sz {
                    ez - sz
                } else {
                    sz - ez
                };
                let horizontal: bool = if dir.x == 0 {
                    false
                } else if dir.z == 0 {
                    true
                } else {
                    let adz: i64 = if dir.z >= 0 {
                        dir.z
                    } else {
                        -dir.z
                    };
                    let adx: i64 = if dir.x >= 0 {
                        dir.x
                    } else {
                        -dir.x
                    };
                    proof {
                        crate::fixed_point::lemma_mul_abs(adz as int, ddx as int);
                        crate::fixed_point::lemma_tdiv_mag(adz as int * ddx as int, adx as int);
                        assert(0 <= adz as int * ddx as int <= 65536 * 0x600_0000_0000)
                            by (nonlinear_arith)
                            requires
                                0 <= adz <= 65536,
                                0 <= ddx <= 0x600_0000_0000,
                        ;
                    }
                    fx_mul_div(adz, ddx, adx) <= ddz
                };
                if horizontal {
                    let adx: i64 = if dir.x >= 0 {
                        dir.x
                    } else {
                        -dir.x
                    };
                    proof {
                        lemma_step_products(
                            dir.x as int,
                            dir.y as int,
                            dir.z as int,
                            ddx as int,
                            adx as int,
                        );
                    }
                    pos_x = sx + fx_mul_div(dir.x, ddx, adx);
                    pos_y = sy + fx_mul_div(dir.y, ddx, adx);
                    pos_z = sz + fx_mul_div(dir.z, ddx, adx);
                    px = px + if 0 < dir.x {
                        1
                    } else {
                        -1
                    };
                } else {
                    let adz: i64 = if dir.z >= 0 {
                        dir.z
                    } else {
                        -dir.z
                    };
                    proof {
                        lemma_step_products(
                            dir.x as int,
                            dir.y as int,
                            dir.z as int,
                            ddz as int,
                            adz as int,
                        );
                    }
                    pos_x = sx + fx_mul_div(dir.x, ddz, adz);
                    pos_y = sy + fx_mul_div(dir.y, ddz, adz);
                    pos_z = sz + fx_mul_div(dir.z, ddz, adz);
                    pz = pz + if 0 < dir.z {
                        1
                    } else {
                        -1
                    };
                }
                if px < 0 || pz < 0 || wi <= px || hi <= pz {
                    proof {
                        let stepped = MarchState {
                            lod: lod as int,
                            px: px as int,
                            pz: pz as int,
                            pos_x: pos_x as int,
                            pos_y: pos_y as int,
                            pos_z: pos_z as int,
                            collided: hit,
                            hit_x: collision_point.x as int,
                            hit_y: collision_point.y as int,
                            hit_z: collision_point.z as int,
                        };
                        assert(target == self.s_march(
                            sx as int,
                            sy as int,
                            sz as int,
                            dir.x as int,
                            dir.y as int,
                            dir.z as int,
                            stepped,
                        ));
                        assert(self.s_march(
                            sx as int,
                            sy as int,
                            sz as int,
                            dir.x as int,
                            dir.y as int,
                            dir.z as int,
                            stepped,
                        ) == (
                            hit,
                            collision_point.x as int,
                            collision_point.y as int,
                            collision_point.z as int,
                        ));
                    }
                    return hit;
                }
            }
        }
        proof {
            let fin = MarchState {
                lod: lod as int,
                px: px as int,
                pz: pz as int,
                pos_x: pos_x as int,
                pos_y: pos_y as int,
                pos_z: pos_z as int,
                collided: hit,
                hit_x: collision_point.x as int,
                hit_y: collision_point.y as int,
                hit_z: collision_point.z as int,
            };
            assert(self.s_march(
                sx as int,
                sy as int,
                sz as int,
                dir.x as int,
                dir.y as int,
                dir.z as int,
                fin,
            ) == (
                hit,
                collision_point.x as int,
                collision_point.y as int,
                collision_point.z as int,
            ));
        }
        hit
    }
}

/// Bounds for the products a DDA step divides by the dominant axis.
proof fn lemma_step_products(dx: int, dy: int, dz: int, dd: int, a: int)
    requires
        abs_i(dx) <= FP_ONE as int,
        abs_i(dy) <= FP_ONE as int,
        abs_i(dz) <= FP_ONE as int,
        0 <= dd <= 0x600_0000_0000,
        1 <= a,
    ensures
        abs_i(tdiv(dx * dd, a)) <= 0x600_0000_0000 * 65536,
        abs_i(tdiv(dy * dd, a)) <= 0x600_0000_0000 * 65536,
        abs_i(tdiv(dz * dd, a)) <= 0x600_0000_0000 * 65536,
{
    crate::fixed_point::lemma_mul_abs(dx, dd);
    crate::fixed_point::lemma_mul_abs(dy, dd);
    crate::fixed_point::lemma_mul_abs(dz, dd);
    crate::fixed_point::lemma_tdiv_mag(dx * dd, a);
    crate::fixed_point::lemma_tdiv_mag(dy * dd, a);
    crate::fixed_point::lemma_tdiv_mag(dz * dd, a);
    assert(abs_i(dx) * abs_i(dd) <= 65536 * 0x600_0000_0000 && abs_i(dy) * abs_i(dd) <= 65536
        * 0x600_0000_0000 && abs_i(dz) * abs_i(dd) <= 65536 * 0x600_0000_0000)
        by (nonlinear_arith)
        requires
            abs_i(dx) <= 65536,
            abs_i(dy) <= 65536,
            abs_i(dz) <= 65536,
            0 <= abs_i(dd) <= 0x600_0000_0000,
    ;
}

} // verus!
