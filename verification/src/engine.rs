//! The bidirectional attenuation engine.
//!
//! A light cell is seeded with its intensity, a forward pass and a reverse
//! pass each run the four directional sweeps in opposite orders over private
//! buffers, and the two results merge per cell by maximum, canceling the
//! directional bias any single sweep order introduces.  The two passes share
//! no mutable state and run in parallel.

use vstd::prelude::*;
use crate::fixed::{DIAG_SQRT2, SCALE, spec_propagate, umax};
use crate::sweep::{
    SweepDir, lemma_pass_props, run_forward_sweeps, run_reverse_sweeps, spec_forward,
    spec_reverse,
};

verus! {

/// A point light: an integer grid coordinate plus the fixed-point intensity
/// seeded into its cell before propagation.
#[derive(Clone, Copy, Debug, PartialEq, Eq, Structural)]
pub struct LightSource {
    pub x: usize,
    pub y: usize,
    pub intensity: u64,
}

impl LightSource {
    /// A light of full intensity (1.0) at the given cell.
    pub fn new(x: usize, y: usize) -> (r: LightSource)
        ensures
            r == (LightSource { x, y, intensity: SCALE }),
    {
        LightSource { x, y, intensity: SCALE }
    }

    /// A light with an explicit fixed-point intensity.
    pub fn with_intensity(x: usize, y: usize, intensity: u64) -> (r: LightSource)
        ensures
            r == (LightSource { x, y, intensity }),
    {
        LightSource { x, y, intensity }
    }
}

/// A buffer of `len` cells, all zero except `intensity` at the light cell.
pub open spec fn seeded(len: int, light: int, intensity: u64) -> Seq<u64> {
    Seq::new(
        len as nat,
        |i: int|
            if i == light {
                intensity
            } else {
                0u64
            },
    )
}

/// Per-cell maximum of two equally long buffers.
pub open spec fn merge_max_spec(a: Seq<u64>, b: Seq<u64>) -> Seq<u64> {
    Seq::new(a.len(), |i: int| umax(a[i], b[i]))
}

/// The engine's result for one light: the per-cell maximum of the forward
/// pass and the reverse pass, both run from the same seeded buffer.
pub open spec fn spec_calculate(
    decay: Seq<u64>,
    w: int,
    h: int,
    lx: int,
    ly: int,
    intensity: u64,
    diag: u64,
) -> Seq<u64> {
    let start = seeded(w * h, ly * w + lx, intensity);
    merge_max_spec(
        spec_forward(decay, start, w, h, diag),
        spec_reverse(decay, start, w, h, diag),
    )
}

/// Allocates a buffer of `len` zeros with `intensity` at the light cell.
pub fn seed_grid(len: usize, light: usize, intensity: u64) -> (r: Vec<u64>)
    requires
        light < len,
    ensures
        r@ == seeded(len as int, light as int, intensity),
{
    let mut r: Vec<u64> = Vec::new();
    while r.len() < len
        invariant
            r@.len() <= len,
            forall|i: int| 0 <= i < r@.len() ==> r@[i] == 0u64,
        decreases len - r@.len(),
    {
        r.push(0);
    }
    r.set(light, intensity);
    proof {
        assert(r@ =~= seeded(len as int, light as int, intensity));
    }
    r
}

/// Runs the forward pass for one light over a fresh buffer.
pub fn forward_pass(
    decay: &Vec<u64>,
    w: usize,
    h: usize,
    light_idx: usize,
    intensity: u64,
    diag: u64,
) -> (r: Vec<u64>)
    requires
        decay@.len() == w * h,
        light_idx < w * h,
    ensures
        r@ == spec_forward(
            decay@,
            seeded((w * h) as int, light_idx as int, intensity),
            w as int,
            h as int,
            diag,
        ),
{
    let len: usize = decay.len();
    let mut grid = seed_grid(len, light_idx, intensity);
    run_forward_sweeps(decay, &mut grid, w, h, diag);
    grid
}

/// Runs the reverse pass for one light over a fresh buffer.
pub fn reverse_pass(
    decay: &Vec<u64>,
    w: usize,
    h: usize,
    light_idx: usize,
    intensity: u64,
    diag: u64,
) -> (r: Vec<u64>)
    requires
        decay@.len() == w * h,
        light_idx < w * h,
    ensures
        r@ == spec_reverse(
            decay@,
            seeded((w * h) as int, light_idx as int, intensity),
            w as int,
            h as int,
            diag,
        ),
{
    let len: usize = decay.len();
    let mut grid = seed_grid(len, light_idx, intensity);
    run_reverse_sweeps(decay, &mut grid, w, h, diag);
    grid
}

/// Relies on rayon::join: it runs the two closures, possibly on different
/// worker threads, and returns the pair of their results.  Each closure only
/// calls one verified pass of this crate, so the pair holds exactly what
/// `forward_pass` and `reverse_pass` return for these arguments.
#[verifier::external_body]
fn join_passes(
    decay: &Vec<u64>,
    w: usize,
    h: usize,
    light_idx: usize,
    intensity: u64,
    diag: u64,
) -> (r: (Vec<u64>, Vec<u64>))
    requires
        decay@.len() == w * h,
        light_idx < w * h,
    ensures
        r.0@ == spec_forward(
            decay@,
            seeded((w * h) as int, light_idx as int, intensity),
            w as int,
            h as int,
            diag,
        ),
        r.1@ == spec_reverse(
            decay@,
            seeded((w * h) as int, light_idx as int, intensity),
            w as int,
            h as int,
            diag,
        ),
{
    rayon::join(
        || forward_pass(decay, w, h, light_idx, intensity, diag),
        || reverse_pass(decay, w, h, light_idx, intensity, diag),
    )
}

/// Merges `other` into `acc`, cell by cell, keeping the larger value.
pub fn merge_max_into(acc: &mut Vec<u64>, other: &Vec<u64>)
    requires
        old(acc)@.len() == other@.len(),
    ensures
        final(acc)@ == merge_max_spec(old(acc)@, other@),
{
    let len: usize = acc.len();
    let mut i: usize = 0;
    while i < len
        invariant
            acc@.len() == len,
            other@.len() == len,
            0 <= i <= len,
            forall|j: int| 0 <= j < i ==> acc@[j] == umax(old(acc)@[j], other@[j]),
            forall|j: int| i <= j < len ==> acc@[j] == old(acc)@[j],
        decreases len - i,
    {
        let o = other[i];
        if o > acc[i] {
            acc.set(i, o);
        }
        i = i + 1;
    }
    proof {
        assert(acc@ =~= merge_max_spec(old(acc)@, other@));
    }
}

/// The sweeping-neighbor attenuation algorithm and its one tunable: the
/// multiplier scaling decay across diagonal steps, default the square root
/// of two, approximating true diagonal distance.
#[derive(Clone, Copy, Debug, PartialEq, Eq, Structural)]
pub struct Sweeping {
    pub diagonal_decay_mult: u64,
}

impl Default for Sweeping {
    fn default() -> (r: Sweeping)
        ensures
            r.diagonal_decay_mult == DIAG_SQRT2,
    {
        Sweeping { diagonal_decay_mult: DIAG_SQRT2 }
    }
}

impl Sweeping {
    /// The algorithm with the default diagonal multiplier.
    pub fn new() -> (r: Sweeping)
        ensures
            r.diagonal_decay_mult == DIAG_SQRT2,
    {
        Sweeping { diagonal_decay_mult: DIAG_SQRT2 }
    }

    /// The algorithm with a custom diagonal multiplier, in fixed-point units.
    pub fn with_diagonal_mult(diagonal_decay_mult: u64) -> (r: Sweeping)
        ensures
            r.diagonal_decay_mult == diagonal_decay_mult,
    {
        Sweeping { diagonal_decay_mult }
    }

    /// Calculates attenuation for one light over a flat row-major decay
    /// buffer: forward and reverse passes in parallel, merged by maximum.
    /// The light's own cell comes back at exactly `intensity`, and no cell
    /// exceeds it.
    pub fn calculate_flat(
        &self,
        decay_flat: &Vec<u64>,
        width: usize,
        height: usize,
        light_x: usize,
        light_y: usize,
        intensity: u64,
    ) -> (r: Vec<u64>)
        requires
            decay_flat@.len() == width * height,
            light_x < width,
            light_y < height,
        ensures
            r@ == spec_calculate(
                decay_flat@,
                width as int,
                height as int,
                light_x as int,
                light_y as int,
                intensity,
                self.diagonal_decay_mult,
            ),
            r@.len() == width * height,
            r@[light_y * width + light_x] == intensity,
            forall|i: int| 0 <= i < r@.len() ==> r@[i] <= intensity,
    {
        let _len: usize = decay_flat.len();
        proof {
            lemma_light_index_in_range(width as int, height as int, light_x as int, light_y as int);
        }
        let light_idx: usize = light_y * width + light_x;
        let diag = self.diagonal_decay_mult;
        let (mut forward, reverse) = join_passes(decay_flat, width, height, light_idx, intensity, diag);
        proof {
            lemma_calculate_props(
                decay_flat@,
                width as int,
                height as int,
                light_x as int,
                light_y as int,
                intensity,
                diag,
            );
            lemma_pass_props(
                decay_flat@,
                seeded((width * height) as int, light_idx as int, intensity),
                width as int,
                height as int,
                diag,
                intensity,
            );
        }
        merge_max_into(&mut forward, &reverse);
        forward
    }
}

/// The row-major index of an in-bounds light cell lies inside the buffer.
pub proof fn lemma_light_index_in_range(w: int, h: int, lx: int, ly: int)
    requires
        0 <= lx < w,
        0 <= ly < h,
    ensures
        0 <= ly * w + lx < w * h,
{
    assert(0 <= ly * w + lx < w * h) by (nonlinear_arith)
        requires
            0 <= lx < w,
            0 <= ly < h,
    ;
}

/// A cell next to the light is lit through the light's own cell: the cell
/// immediately to the light's right ends at least at one propagation step
/// from the full source intensity.  In particular it stays positive
/// whenever the light's own cell lets any light out, however the rest of
/// the scene is obstructed.
pub proof fn lemma_open_neighbor_receives_light(
    decay: Seq<u64>,
    w: int,
    h: int,
    lx: int,
    ly: int,
    intensity: u64,
    diag: u64,
)
    requires
        0 <= lx,
        lx + 1 < w,
        0 <= ly < h,
    ensures
        spec_calculate(decay, w, h, lx, ly, intensity, diag)[ly * w + lx + 1] >= spec_propagate(
            intensity,
            decay[ly * w + lx],
            SCALE,
        ),
{
    let light = ly * w + lx;
    let nb = light + 1;
    lemma_light_index_in_range(w, h, lx, ly);
    lemma_light_index_in_range(w, h, lx + 1, ly);
    assert(nb == ly * w + (lx + 1));
    let att0 = seeded(w * h, light, intensity);
    let dir = SweepDir::TlBr;
    let target = spec_propagate(intensity, decay[light], SCALE);
    let pk = crate::sweep::sweep_prefix(dir, decay, att0, w, h, diag, nb);
    crate::sweep::lemma_sweep_prefix_props(dir, decay, att0, w, h, diag, nb, intensity);
    assert(att0[light] == intensity);
    assert(pk[light] == intensity);
    vstd::arithmetic::div_mod::lemma_fundamental_div_mod_converse(nb, w, ly, lx + 1);
    assert(nb % w == lx + 1 && nb / w == ly);
    let stepped = crate::sweep::cell_pass_value(dir, pk, decay, w, h, diag, nb);
    assert(stepped >= crate::sweep::neighbor_cand(pk, decay, nb - 1, SCALE));
    assert(stepped >= target);
    let pk1 = crate::sweep::sweep_prefix(dir, decay, att0, w, h, diag, nb + 1);
    assert(pk1[nb] == stepped);
    crate::sweep::lemma_sweep_prefix_monotone(dir, decay, att0, w, h, diag, nb + 1, w * h);
    let s1 = crate::sweep::spec_sweep(dir, decay, att0, w, h, diag);
    assert(s1[nb] >= target);
    crate::sweep::lemma_sweep_props(dir, decay, att0, w, h, diag, u64::MAX);
    let s2 = crate::sweep::spec_sweep(SweepDir::BrTl, decay, s1, w, h, diag);
    crate::sweep::lemma_sweep_props(SweepDir::BrTl, decay, s1, w, h, diag, u64::MAX);
    let s3 = crate::sweep::spec_sweep(SweepDir::TopDown, decay, s2, w, h, diag);
    crate::sweep::lemma_sweep_props(SweepDir::TopDown, decay, s2, w, h, diag, u64::MAX);
    let s4 = crate::sweep::spec_sweep(SweepDir::BottomUp, decay, s3, w, h, diag);
    crate::sweep::lemma_sweep_props(SweepDir::BottomUp, decay, s3, w, h, diag, u64::MAX);
    assert(s4 == spec_forward(decay, att0, w, h, diag));
    assert(s4[nb] >= target);
    lemma_pass_props(decay, att0, w, h, diag, u64::MAX);
    assert(spec_calculate(decay, w, h, lx, ly, intensity, diag)[nb] == umax(
        s4[nb],
        spec_reverse(decay, att0, w, h, diag)[nb],
    ));
}

/// A violation of the engine's calling contract, reported instead of
/// undefined behavior.
#[derive(Clone, Copy, Debug, PartialEq, Eq, Structural)]
pub enum GridError {
    /// The decay buffer's length is not `width * height`.
    ShapeMismatch,
    /// The light's coordinate lies at or beyond the grid's extent.
    LightOutOfBounds,
}

/// Checked entry to the engine.  A mis-shaped decay buffer and an
/// out-of-bounds light are reported as errors; a grid of size zero in either
/// dimension yields an empty grid, not an error.
pub fn combine(
    decay: &Vec<u64>,
    width: usize,
    height: usize,
    light: &LightSource,
    config: &Sweeping,
) -> (r: Result<Vec<u64>, GridError>)
    ensures
        decay@.len() != width * height ==> r == Err::<Vec<u64>, GridError>(
            GridError::ShapeMismatch,
        ),
        decay@.len() == width * height && (width == 0 || height == 0) ==> r is Ok
            && r->Ok_0@ == Seq::<u64>::empty(),
        decay@.len() == width * height && width > 0 && height > 0 && (light.x >= width
            || light.y >= height) ==> r == Err::<Vec<u64>, GridError>(GridError::LightOutOfBounds),
        decay@.len() == width * height && light.x < width && light.y < height ==> r is Ok
            && r->Ok_0@ == spec_calculate(
            decay@,
            width as int,
            height as int,
            light.x as int,
            light.y as int,
            light.intensity,
            config.diagonal_decay_mult,
        ),
{
    let n: usize = decay.len();
    match width.checked_mul(height) {
        None => Err(GridError::ShapeMismatch),
        Some(area) => {
            if n != area {
                Err(GridError::ShapeMismatch)
            } else if width == 0 || height == 0 {
                Ok(Vec::new())
            } else if light.x >= width || light.y >= height {
                Err(GridError::LightOutOfBounds)
            } else {
                Ok(config.calculate_flat(decay, width, height, light.x, light.y, light.intensity))
            }
        },
    }
}

/// An attenuation algorithm: anything that turns a decay field and a light
/// source into an attenuation grid of the same shape.  Alternative
/// algorithms can stand in for the sweeping engine without touching callers.
pub trait AttenuationAlgorithm {
    /// Calculates per-cell attenuation for one light over a flat row-major
    /// decay buffer.
    fn calculate(
        &self,
        decay_flat: &Vec<u64>,
        width: usize,
        height: usize,
        light: &LightSource,
    ) -> (r: Vec<u64>)
        requires
            decay_flat@.len() == width * height,
            light.x < width,
            light.y < height,
        ensures
            r@.len() == width * height,
    ;
}

impl AttenuationAlgorithm for Sweeping {
    fn calculate(
        &self,
        decay_flat: &Vec<u64>,
        width: usize,
        height: usize,
        light: &LightSource,
    ) -> (r: Vec<u64>) {
        self.calculate_flat(decay_flat, width, height, light.x, light.y, light.intensity)
    }
}

/// For any decay field and any in-bounds light, the engine returns a buffer
/// of the grid's size in which the light's own cell holds exactly the seeded
/// intensity and no cell exceeds it: propagation only ever weakens light.
pub proof fn lemma_calculate_props(
    decay: Seq<u64>,
    w: int,
    h: int,
    lx: int,
    ly: int,
    intensity: u64,
    diag: u64,
)
    requires
        0 <= lx < w,
        0 <= ly < h,
    ensures
        spec_calculate(decay, w, h, lx, ly, intensity, diag).len() == w * h,
        spec_calculate(decay, w, h, lx, ly, intensity, diag)[ly * w + lx] == intensity,
        forall|i: int| 0 <= i < w * h ==> #[trigger] spec_calculate(
            decay,
            w,
            h,
            lx,
            ly,
            intensity,
            diag,
        )[i] <= intensity,
{
    let light = ly * w + lx;
    lemma_light_index_in_range(w, h, lx, ly);
    let start = seeded(w * h, light, intensity);
    lemma_pass_props(decay, start, w, h, diag, intensity);
}

} // verus!
