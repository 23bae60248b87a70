//! Combining attenuation from many independent lights.
//!
//! Each light's grid is computed independently (one parallel task per light)
//! and the grids merge per cell by maximum, not by sum: overlapping lights
//! do not add brightness beyond the brightest single contributor at a cell.
//! Additive color blending belongs to the color layer above the engine.

use vstd::prelude::*;
use rayon::iter::{IntoParallelRefIterator, ParallelIterator};
use crate::engine::{
    GridError, LightSource, Sweeping, lemma_calculate_props, merge_max_into, merge_max_spec,
    spec_calculate,
};
use crate::fixed::umax;

verus! {

/// A buffer of `len` dark cells.
pub open spec fn zero_grid(len: int) -> Seq<u64> {
    Seq::new(len as nat, |i: int| 0u64)
}

/// The combined grid for a list of lights: the all-zero grid for no lights,
/// otherwise the per-cell maximum of every light's own grid.
pub open spec fn spec_combine_lights(
    decay: Seq<u64>,
    w: int,
    h: int,
    lights: Seq<LightSource>,
    diag: u64,
) -> Seq<u64>
    decreases lights.len(),
{
    if lights.len() <= 0 {
        zero_grid(w * h)
    } else {
        let l = lights.last();
        merge_max_spec(
            spec_combine_lights(decay, w, h, lights.drop_last(), diag),
            spec_calculate(decay, w, h, l.x as int, l.y as int, l.intensity, diag),
        )
    }
}

/// The combined grid always has the grid's size.
pub proof fn lemma_combine_lights_len(
    decay: Seq<u64>,
    w: int,
    h: int,
    lights: Seq<LightSource>,
    diag: u64,
)
    requires
        0 <= w,
        0 <= h,
    ensures
        spec_combine_lights(decay, w, h, lights, diag).len() == w * h,
    decreases lights.len(),
{
    if lights.len() > 0 {
        lemma_combine_lights_len(decay, w, h, lights.drop_last(), diag);
    }
}

/// Allocates an all-zero buffer.
pub fn zeros(len: usize) -> (r: Vec<u64>)
    ensures
        r@ == zero_grid(len as int),
{
    let mut r: Vec<u64> = Vec::new();
    while r.len() < len
        invariant
            r@.len() <= len,
            forall|i: int| 0 <= i < r@.len() ==> r@[i] == 0u64,
        decreases len - r@.len(),
    {
        r.push(0);
    }
    proof {
        assert(r@ =~= zero_grid(len as int));
    }
    r
}

/// The engine's grid for a single light, with an explicit diagonal
/// multiplier.
pub fn calculate_for_light(
    decay: &Vec<u64>,
    width: usize,
    height: usize,
    light: &LightSource,
    diag: u64,
) -> (r: Vec<u64>)
    requires
        decay@.len() == width * height,
        light.x < width,
        light.y < height,
    ensures
        r@ == spec_calculate(
            decay@,
            width as int,
            height as int,
            light.x as int,
            light.y as int,
            light.intensity,
            diag,
        ),
{
    let config = Sweeping::with_diagonal_mult(diag);
    config.calculate_flat(decay, width, height, light.x, light.y, light.intensity)
}

/// Relies on rayon's parallel iterators: `par_iter().map(..).collect()`
/// yields one result per input element, in the input's order.  The closure
/// only calls this crate's verified `calculate_for_light`, so element `i`
/// holds exactly that function's result for light `i`.
#[verifier::external_body]
pub(crate) fn par_calculate_all(
    decay: &Vec<u64>,
    width: usize,
    height: usize,
    lights: &Vec<LightSource>,
    diag: u64,
) -> (r: Vec<Vec<u64>>)
    requires
        decay@.len() == width * height,
        forall|i: int| 0 <= i < lights@.len() ==> (#[trigger] lights@[i]).x < width
            && lights@[i].y < height,
    ensures
        r@.len() == lights@.len(),
        forall|i: int| 0 <= i < lights@.len() ==> (#[trigger] r@[i])@ == spec_calculate(
            decay@,
            width as int,
            height as int,
            lights@[i].x as int,
            lights@[i].y as int,
            lights@[i].intensity,
            diag,
        ),
{
    lights.par_iter().map(|l| calculate_for_light(decay, width, height, l, diag)).collect()
}

/// Checked multi-light entry: one grid per light, each via the bidirectional
/// engine, merged per cell by maximum.  No lights yields an all-zero grid; a
/// grid of size zero in either dimension yields an empty grid.
pub fn combine_lights(
    decay: &Vec<u64>,
    width: usize,
    height: usize,
    lights: &Vec<LightSource>,
    config: &Sweeping,
) -> (r: Result<Vec<u64>, GridError>)
    ensures
        decay@.len() != width * height ==> r == Err::<Vec<u64>, GridError>(
            GridError::ShapeMismatch,
        ),
        decay@.len() == width * height && width > 0 && height > 0 && (exists|i: int|
            0 <= i < lights@.len() && ((#[trigger] lights@[i]).x >= width || lights@[i].y
                >= height)) ==> r == Err::<Vec<u64>, GridError>(GridError::LightOutOfBounds),
        decay@.len() == width * height && (width == 0 || height == 0 || forall|i: int|
            0 <= i < lights@.len() ==> (#[trigger] lights@[i]).x < width && lights@[i].y
                < height) ==> r is Ok && r->Ok_0@ == spec_combine_lights(
            decay@,
            width as int,
            height as int,
            lights@,
            config.diagonal_decay_mult,
        ),
{
    let n: usize = decay.len();
    let area_ok: bool = match width.checked_mul(height) {
        None => false,
        Some(area) => n == area,
    };
    if !area_ok {
        return Err(GridError::ShapeMismatch);
    }
    if width == 0 || height == 0 {
        let empty: Vec<u64> = Vec::new();
        proof {
            lemma_combine_lights_len(
                decay@,
                width as int,
                height as int,
                lights@,
                config.diagonal_decay_mult,
            );
            assert(empty@ =~= spec_combine_lights(
                decay@,
                width as int,
                height as int,
                lights@,
                config.diagonal_decay_mult,
            ));
        }
        return Ok(empty);
    }
    let mut i: usize = 0;
    let num_lights: usize = lights.len();
    while i < num_lights
        invariant
            num_lights == lights@.len(),
            0 <= i <= num_lights,
            decay@.len() == width * height,
            width > 0,
            height > 0,
            forall|j: int| 0 <= j < i ==> (#[trigger] lights@[j]).x < width && lights@[j].y
                < height,
        decreases num_lights - i,
    {
        let l = lights[i];
        if l.x >= width || l.y >= height {
            proof {
                assert((#[trigger] lights@[i as int]).x >= width || lights@[i as int].y >= height);
            }
            return Err(GridError::LightOutOfBounds);
        }
        i = i + 1;
    }
    let diag = config.diagonal_decay_mult;
    let grids = par_calculate_all(decay, width, height, lights, diag);
    let mut acc = zeros(n);
    let mut k: usize = 0;
    proof {
        assert(lights@.take(0) =~= Seq::<LightSource>::empty());
    }
    while k < num_lights
        invariant
            num_lights == lights@.len(),
            grids@.len() == num_lights,
            0 <= k <= num_lights,
            n == width * height,
            decay@.len() == n,
            forall|j: int| 0 <= j < num_lights ==> (#[trigger] lights@[j]).x < width
                && lights@[j].y < height,
            forall|j: int| 0 <= j < num_lights ==> (#[trigger] grids@[j])@ == spec_calculate(
                decay@,
                width as int,
                height as int,
                lights@[j].x as int,
                lights@[j].y as int,
                lights@[j].intensity,
                diag,
            ),
            acc@ == spec_combine_lights(
                decay@,
                width as int,
                height as int,
                lights@.take(k as int),
                diag,
            ),
            acc@.len() == n,
        decreases num_lights - k,
    {
        proof {
            lemma_calculate_props(
                decay@,
                width as int,
                height as int,
                lights@[k as int].x as int,
                lights@[k as int].y as int,
                lights@[k as int].intensity,
                diag,
            );
        }
        merge_max_into(&mut acc, &grids[k]);
        proof {
            let taken = lights@.take(k + 1);
            assert(taken.drop_last() =~= lights@.take(k as int));
            assert(taken.last() == lights@[k as int]);
        }
        k = k + 1;
    }
    proof {
        assert(lights@.take(num_lights as int) =~= lights@);
    }
    Ok(acc)
}

/// In the combined grid every cell dominates that cell's value in each
/// single light's own grid: adding lights never darkens a cell.
pub proof fn lemma_combine_lights_dominates(
    decay: Seq<u64>,
    w: int,
    h: int,
    lights: Seq<LightSource>,
    diag: u64,
    k: int,
)
    requires
        0 <= w,
        0 <= h,
        0 <= k < lights.len(),
        lights[k].x < w,
        lights[k].y < h,
    ensures
        forall|i: int| 0 <= i < w * h ==> #[trigger] spec_combine_lights(
            decay,
            w,
            h,
            lights,
            diag,
        )[i] >= spec_calculate(
            decay,
            w,
            h,
            lights[k].x as int,
            lights[k].y as int,
            lights[k].intensity,
            diag,
        )[i],
    decreases lights.len(),
{
    let l = lights.last();
    lemma_combine_lights_len(decay, w, h, lights.drop_last(), diag);
    if k == lights.len() - 1 {
        lemma_calculate_props(decay, w, h, l.x as int, l.y as int, l.intensity, diag);
    } else {
        assert(lights.drop_last()[k] == lights[k]);
        lemma_combine_lights_dominates(decay, w, h, lights.drop_last(), diag, k);
    }
}

/// Every cell of the combined grid is attained by one of the lights: the
/// merge takes the maximum of the individual grids, never their sum.
pub proof fn lemma_combine_lights_attained(
    decay: Seq<u64>,
    w: int,
    h: int,
    lights: Seq<LightSource>,
    diag: u64,
    i: int,
)
    requires
        0 <= w,
        0 <= h,
        lights.len() > 0,
        0 <= i < w * h,
    ensures
        exists|k: int|
            0 <= k < lights.len() && spec_combine_lights(decay, w, h, lights, diag)[i]
                == spec_calculate(
                decay,
                w,
                h,
                lights[k].x as int,
                lights[k].y as int,
                lights[k].intensity,
                diag,
            )[i],
    decreases lights.len(),
{
    let l = lights.last();
    let rest = lights.drop_last();
    let rec = spec_combine_lights(decay, w, h, rest, diag);
    let own = spec_calculate(decay, w, h, l.x as int, l.y as int, l.intensity, diag);
    lemma_combine_lights_len(decay, w, h, rest, diag);
    let total = spec_combine_lights(decay, w, h, lights, diag);
    assert(total[i] == umax(rec[i], own[i]));
    if rest.len() == 0 {
        assert(rec[i] == 0u64);
        assert(total[i] == own[i]);
        assert(lights[lights.len() - 1] == l);
    } else {
        if total[i] == own[i] {
            assert(lights[lights.len() - 1] == l);
        } else {
            assert(total[i] == rec[i]);
            lemma_combine_lights_attained(decay, w, h, rest, diag, i);
            let k0 = choose|k: int|
                0 <= k < rest.len() && rec[i] == spec_calculate(
                    decay,
                    w,
                    h,
                    rest[k].x as int,
                    rest[k].y as int,
                    rest[k].intensity,
                    diag,
                )[i];
            assert(rest[k0] == lights[k0]);
            assert(0 <= k0 < lights.len() && total[i] == spec_calculate(
                decay,
                w,
                h,
                lights[k0].x as int,
                lights[k0].y as int,
                lights[k0].intensity,
                diag,
            )[i]);
        }
    }
}

} // verus!
