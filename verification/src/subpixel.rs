//! Bilinear blending for a light at a continuous (sub-cell) position.
//!
//! Propagation is only defined on integer cells, so the engine runs once for
//! each of the four integer cells surrounding the fractional position and the
//! four grids blend cell-wise with bilinear weights.  At an exact integer
//! position the blend degenerates to the single corner's grid, exactly.

use vstd::prelude::*;
use crate::engine::{
    GridError, LightSource, Sweeping, lemma_calculate_props, spec_calculate,
};
use crate::fixed::{SCALE, SCALE_SQ};
use crate::lights::par_calculate_all;

verus! {

/// Smaller of two integers.
pub open spec fn imin(a: int, b: int) -> int {
    if a <= b {
        a
    } else {
        b
    }
}

/// Near corner of a fixed-point coordinate along one axis: the floor,
/// clamped into the grid.
pub open spec fn corner_x0(sub_x: u64, w: int) -> int {
    imin(sub_x as int / SCALE as int, w - 1)
}

/// Far corner along one axis: one past the near corner, clamped into the
/// grid.  Near the far edge the corners collapse rather than wrap.
pub open spec fn corner_x1(sub_x: u64, w: int) -> int {
    imin(corner_x0(sub_x, w) + 1, w - 1)
}

/// Weighted bilinear blend of the four corner grids, cell by cell, in
/// `SCALE_SQ` units brought back to scalar units by one division.
pub open spec fn spec_interpolate(
    decay: Seq<u64>,
    w: int,
    h: int,
    sub_x: u64,
    sub_y: u64,
    diag: u64,
) -> Seq<u64> {
    let fx = sub_x as int % SCALE as int;
    let fy = sub_y as int % SCALE as int;
    let x0 = corner_x0(sub_x, w);
    let y0 = corner_x0(sub_y, h);
    let x1 = corner_x1(sub_x, w);
    let y1 = corner_x1(sub_y, h);
    let w00 = (SCALE - fx) * (SCALE - fy);
    let w10 = fx * (SCALE - fy);
    let w01 = (SCALE - fx) * fy;
    let w11 = fx * fy;
    let g00 = spec_calculate(decay, w, h, x0, y0, SCALE, diag);
    let g10 = spec_calculate(decay, w, h, x1, y0, SCALE, diag);
    let g01 = spec_calculate(decay, w, h, x0, y1, SCALE, diag);
    let g11 = spec_calculate(decay, w, h, x1, y1, SCALE, diag);
    Seq::new(
        (w * h) as nat,
        |i: int|
            ((w00 * g00[i] + w10 * g10[i] + w01 * g01[i] + w11 * g11[i]) / (SCALE_SQ as int)) as u64,
    )
}

/// The four bilinear weights partition one whole unit of light.
pub proof fn lemma_weights_sum(fx: int, fy: int)
    requires
        0 <= fx < SCALE,
        0 <= fy < SCALE,
    ensures
        (SCALE - fx) * (SCALE - fy) + fx * (SCALE - fy) + (SCALE - fx) * fy + fx * fy
            == SCALE_SQ,
        0 <= (SCALE - fx) * (SCALE - fy),
        0 <= fx * (SCALE - fy),
        0 <= (SCALE - fx) * fy,
        0 <= fx * fy,
{
    assert((SCALE - fx) * (SCALE - fy) + fx * (SCALE - fy) + (SCALE - fx) * fy + fx * fy == SCALE
        * SCALE) by (nonlinear_arith);
    assert(0 <= (SCALE - fx) * (SCALE - fy) && 0 <= fx * (SCALE - fy) && 0 <= (SCALE - fx) * fy
        && 0 <= fx * fy) by (nonlinear_arith)
        requires
            0 <= fx < SCALE,
            0 <= fy < SCALE,
    ;
}

/// Clamped floor of a fixed-point coordinate, as executable code.
fn corner_floor(sub: u64, extent: usize) -> (r: usize)
    requires
        extent > 0,
    ensures
        r as int == corner_x0(sub, extent as int),
{
    let q: u64 = sub / SCALE;
    if q < (extent - 1) as u64 {
        q as usize
    } else {
        extent - 1
    }
}

/// Checked subpixel entry: blends the engine's grids for the four corner
/// cells around the fractional light position by their bilinear weights.
/// The floor is clamped into the grid, so every position is accepted; a
/// grid of size zero in either dimension yields an empty grid.
pub fn interpolate(
    decay: &Vec<u64>,
    width: usize,
    height: usize,
    sub_x: u64,
    sub_y: u64,
    config: &Sweeping,
) -> (r: Result<Vec<u64>, GridError>)
    ensures
        decay@.len() != width * height ==> r == Err::<Vec<u64>, GridError>(
            GridError::ShapeMismatch,
        ),
        decay@.len() == width * height && (width == 0 || height == 0) ==> r is Ok
            && r->Ok_0@ == Seq::<u64>::empty(),
        decay@.len() == width * height && width > 0 && height > 0 ==> r is Ok && r->Ok_0@
            == spec_interpolate(
            decay@,
            width as int,
            height as int,
            sub_x,
            sub_y,
            config.diagonal_decay_mult,
        ),
{
    let n: usize = decay.len();
    let area_ok: bool = match width.checked_mul(height) {
        None => false,
        Some(area) => n == area,
    };
    if !area_ok {
        return Err(GridError::ShapeMismatch);
    }
    if width == 0 || height == 0 {
        return Ok(Vec::new());
    }
    let diag = config.diagonal_decay_mult;
    let x0 = corner_floor(sub_x, width);
    let y0 = corner_floor(sub_y, height);
    let x1 = if x0 + 1 < width {
        x0 + 1
    } else {
        width - 1
    };
    let y1 = if y0 + 1 < height {
        y0 + 1
    } else {
        height - 1
    };
    let fx: u64 = sub_x % SCALE;
    let fy: u64 = sub_y % SCALE;
    let mut corners: Vec<LightSource> = Vec::new();
    corners.push(LightSource { x: x0, y: y0, intensity: SCALE });
    corners.push(LightSource { x: x1, y: y0, intensity: SCALE });
    corners.push(LightSource { x: x0, y: y1, intensity: SCALE });
    corners.push(LightSource { x: x1, y: y1, intensity: SCALE });
    let grids = par_calculate_all(decay, width, height, &corners, diag);
    proof {
        lemma_weights_sum(fx as int, fy as int);
        assert(SCALE - fx <= SCALE && SCALE - fy <= SCALE);
        assert((SCALE - fx) * (SCALE - fy) <= SCALE_SQ && fx * (SCALE - fy) <= SCALE_SQ && (SCALE
            - fx) * fy <= SCALE_SQ && fx * fy <= SCALE_SQ) by (nonlinear_arith)
            requires
                0 <= fx < SCALE,
                0 <= fy < SCALE,
        ;
    }
    let w00: u64 = (SCALE - fx) * (SCALE - fy);
    let w10: u64 = fx * (SCALE - fy);
    let w01: u64 = (SCALE - fx) * fy;
    let w11: u64 = fx * fy;
    let g00 = &grids[0];
    let g10 = &grids[1];
    let g01 = &grids[2];
    let g11 = &grids[3];
    proof {
        lemma_calculate_props(decay@, width as int, height as int, x0 as int, y0 as int, SCALE, diag);
        lemma_calculate_props(decay@, width as int, height as int, x1 as int, y0 as int, SCALE, diag);
        lemma_calculate_props(decay@, width as int, height as int, x0 as int, y1 as int, SCALE, diag);
        lemma_calculate_props(decay@, width as int, height as int, x1 as int, y1 as int, SCALE, diag);
    }
    let ghost blended = spec_interpolate(
        decay@,
        width as int,
        height as int,
        sub_x,
        sub_y,
        diag,
    );
    let mut out: Vec<u64> = Vec::new();
    let mut i: usize = 0;
    while i < n
        invariant
            n == width * height,
            0 <= i <= n,
            g00@.len() == n,
            g10@.len() == n,
            g01@.len() == n,
            g11@.len() == n,
            forall|j: int| 0 <= j < n ==> #[trigger] g00@[j] <= SCALE,
            forall|j: int| 0 <= j < n ==> #[trigger] g10@[j] <= SCALE,
            forall|j: int| 0 <= j < n ==> #[trigger] g01@[j] <= SCALE,
            forall|j: int| 0 <= j < n ==> #[trigger] g11@[j] <= SCALE,
            w00 + w10 + w01 + w11 == SCALE_SQ,
            blended.len() == n,
            out@.len() == i,
            forall|j: int| 0 <= j < i ==> out@[j] == blended[j],
            forall|j: int| 0 <= j < n ==> #[trigger] blended[j] == ((w00 * g00@[j] + w10 * g10@[j]
                + w01 * g01@[j] + w11 * g11@[j]) / (SCALE_SQ as int)) as u64,
        decreases n - i,
    {
        proof {
            assert(w00 * g00@[i as int] <= w00 * SCALE && w10 * g10@[i as int] <= w10 * SCALE
                && w01 * g01@[i as int] <= w01 * SCALE && w11 * g11@[i as int] <= w11 * SCALE
                && 0 <= w00 * g00@[i as int] && 0 <= w10 * g10@[i as int] && 0 <= w01 * g01@[
                i as int] && 0 <= w11 * g11@[i as int]) by (nonlinear_arith)
                requires
                    0 <= g00@[i as int] <= SCALE,
                    0 <= g10@[i as int] <= SCALE,
                    0 <= g01@[i as int] <= SCALE,
                    0 <= g11@[i as int] <= SCALE,
                    0 <= w00,
                    0 <= w10,
                    0 <= w01,
                    0 <= w11,
            ;
            assert(w00 * SCALE + w10 * SCALE + w01 * SCALE + w11 * SCALE == SCALE_SQ * SCALE)
                by (nonlinear_arith)
                requires
                    w00 + w10 + w01 + w11 == SCALE_SQ,
            ;
            vstd::arithmetic::div_mod::lemma_div_is_ordered(
                w00 * g00@[i as int] + w10 * g10@[i as int] + w01 * g01@[i as int] + w11 * g11@[
                    i as int],
                SCALE_SQ * SCALE,
                SCALE_SQ as int,
            );
            vstd::arithmetic::div_mod::lemma_div_multiples_vanish(
                SCALE as int,
                SCALE_SQ as int,
            );
            vstd::arithmetic::div_mod::lemma_div_pos_is_pos(
                w00 * g00@[i as int] + w10 * g10@[i as int] + w01 * g01@[i as int] + w11 * g11@[
                    i as int],
                SCALE_SQ as int,
            );
        }
        let sum: u128 = (w00 as u128) * (g00[i] as u128) + (w10 as u128) * (g10[i] as u128) + (
        w01 as u128) * (g01[i] as u128) + (w11 as u128) * (g11[i] as u128);
        let v: u64 = (sum / (SCALE_SQ as u128)) as u64;
        out.push(v);
        i = i + 1;
    }
    proof {
        assert(out@ =~= blended);
    }
    Ok(out)
}

/// At an exact integer position the bilinear blend equals the engine's grid
/// for that cell, exactly: the corner under the light carries the whole
/// weight and the other three carry none.
pub proof fn lemma_interpolate_at_integer(
    decay: Seq<u64>,
    w: int,
    h: int,
    x: int,
    y: int,
    diag: u64,
)
    requires
        0 <= x < w,
        0 <= y < h,
        x * SCALE <= u64::MAX,
        y * SCALE <= u64::MAX,
    ensures
        spec_interpolate(decay, w, h, (x * SCALE) as u64, (y * SCALE) as u64, diag)
            == spec_calculate(decay, w, h, x, y, SCALE, diag),
{
    let sx = (x * SCALE) as u64;
    let sy = (y * SCALE) as u64;
    assert(sx as int == x * SCALE && sy as int == y * SCALE);
    vstd::arithmetic::div_mod::lemma_mod_multiples_basic(x, SCALE as int);
    vstd::arithmetic::div_mod::lemma_mod_multiples_basic(y, SCALE as int);
    vstd::arithmetic::div_mod::lemma_div_multiples_vanish(x, SCALE as int);
    vstd::arithmetic::div_mod::lemma_div_multiples_vanish(y, SCALE as int);
    assert(sx as int % SCALE as int == 0 && sy as int % SCALE as int == 0);
    assert(sx as int / SCALE as int == x && sy as int / SCALE as int == y);
    assert(corner_x0(sx, w) == x && corner_x0(sy, h) == y);
    let g00 = spec_calculate(decay, w, h, x, y, SCALE, diag);
    lemma_calculate_props(decay, w, h, x, y, SCALE, diag);
    let blended = spec_interpolate(decay, w, h, sx, sy, diag);
    assert forall|i: int| 0 <= i < w * h implies blended[i] == g00[i] by {
        assert(SCALE_SQ * g00[i] / (SCALE_SQ as int) == g00[i]) by {
            vstd::arithmetic::div_mod::lemma_div_multiples_vanish(
                g00[i] as int,
                SCALE_SQ as int,
            );
        }
        assert(0 * g00[i] == 0) by (nonlinear_arith);
        assert((SCALE - 0) * (SCALE - 0) == SCALE_SQ) by (nonlinear_arith);
    }
    assert(blended =~= g00);
}

} // verus!
