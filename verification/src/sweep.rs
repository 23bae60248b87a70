//! Directional single-pass sweeps over the grid.
//!
//! A sweep visits every cell exactly once in a fixed scan order and raises the
//! cell's value to the best candidate propagated from the already-visited
//! neighbors that the scan order guarantees are available.  Cells read the
//! current state of the buffer, so light travels along a whole scan line in
//! one pass.  A sweep never lowers a cell.

use vstd::prelude::*;
use crate::fixed::{SCALE, spec_propagate, umax, lemma_propagate_le, propagate_value};

verus! {

/// The four canonical sweep directions.
#[derive(Clone, Copy, Debug, PartialEq, Eq, Structural)]
pub enum SweepDir {
    /// Rows top to bottom, columns left to right; checks left, up, up-left.
    TlBr,
    /// Rows bottom to top, columns right to left; checks right, down, down-right.
    BrTl,
    /// Rows top to bottom, columns left to right; checks left, up, up-left, up-right.
    TopDown,
    /// Rows bottom to top, columns right to left; checks right, down, down-left, down-right.
    BottomUp,
}

/// Index of the `k`-th cell a sweep visits in a buffer of `len` cells.
pub open spec fn visit_index(dir: SweepDir, len: int, k: int) -> int {
    match dir {
        SweepDir::TlBr => k,
        SweepDir::TopDown => k,
        SweepDir::BrTl => len - 1 - k,
        SweepDir::BottomUp => len - 1 - k,
    }
}

/// Candidate propagated into a cell from the neighbor at index `ni`.
pub open spec fn neighbor_cand(att: Seq<u64>, decay: Seq<u64>, ni: int, m: u64) -> u64 {
    spec_propagate(att[ni], decay[ni], m)
}

/// Value a sweep writes into cell `idx`, given the buffer state `att` at the
/// moment the sweep reaches that cell: the maximum of the cell's own value
/// and the candidates from the direction's available neighbors.
pub open spec fn cell_pass_value(
    dir: SweepDir,
    att: Seq<u64>,
    decay: Seq<u64>,
    w: int,
    h: int,
    diag: u64,
    idx: int,
) -> u64 {
    let x = idx % w;
    let y = idx / w;
    match dir {
        SweepDir::TlBr => {
            let v0 = att[idx];
            let v1 = if x > 0 {
                umax(v0, neighbor_cand(att, decay, idx - 1, SCALE))
            } else {
                v0
            };
            let v2 = if y > 0 {
                umax(v1, neighbor_cand(att, decay, idx - w, SCALE))
            } else {
                v1
            };
            if x > 0 && y > 0 {
                umax(v2, neighbor_cand(att, decay, idx - w - 1, diag))
            } else {
                v2
            }
        },
        SweepDir::BrTl => {
            let v0 = att[idx];
            let v1 = if x + 1 < w {
                umax(v0, neighbor_cand(att, decay, idx + 1, SCALE))
            } else {
                v0
            };
            let v2 = if y + 1 < h {
                umax(v1, neighbor_cand(att, decay, idx + w, SCALE))
            } else {
                v1
            };
            if x + 1 < w && y + 1 < h {
                umax(v2, neighbor_cand(att, decay, idx + w + 1, diag))
            } else {
                v2
            }
        },
        SweepDir::TopDown => {
            let v0 = att[idx];
            let v1 = if x > 0 {
                umax(v0, neighbor_cand(att, decay, idx - 1, SCALE))
            } else {
                v0
            };
            let v2 = if y > 0 {
                umax(v1, neighbor_cand(att, decay, idx - w, SCALE))
            } else {
                v1
            };
            let v3 = if y > 0 && x > 0 {
                umax(v2, neighbor_cand(att, decay, idx - w - 1, diag))
            } else {
                v2
            };
            if y > 0 && x + 1 < w {
                umax(v3, neighbor_cand(att, decay, idx - w + 1, diag))
            } else {
                v3
            }
        },
        SweepDir::BottomUp => {
            let v0 = att[idx];
            let v1 = if x + 1 < w {
                umax(v0, neighbor_cand(att, decay, idx + 1, SCALE))
            } else {
                v0
            };
            let v2 = if y + 1 < h {
                umax(v1, neighbor_cand(att, decay, idx + w, SCALE))
            } else {
                v1
            };
            let v3 = if y + 1 < h && x > 0 {
                umax(v2, neighbor_cand(att, decay, idx + w - 1, diag))
            } else {
                v2
            };
            if y + 1 < h && x + 1 < w {
                umax(v3, neighbor_cand(att, decay, idx + w + 1, diag))
            } else {
                v3
            }
        },
    }
}

/// Buffer state after a sweep has processed its first `k` cells.
pub open spec fn sweep_prefix(
    dir: SweepDir,
    decay: Seq<u64>,
    att0: Seq<u64>,
    w: int,
    h: int,
    diag: u64,
    k: int,
) -> Seq<u64>
    decreases k,
{
    if k <= 0 {
        att0
    } else {
        let prev = sweep_prefix(dir, decay, att0, w, h, diag, k - 1);
        let idx = visit_index(dir, w * h, k - 1);
        prev.update(idx, cell_pass_value(dir, prev, decay, w, h, diag, idx))
    }
}

/// Buffer state after one complete sweep over all `w * h` cells.
pub open spec fn spec_sweep(
    dir: SweepDir,
    decay: Seq<u64>,
    att0: Seq<u64>,
    w: int,
    h: int,
    diag: u64,
) -> Seq<u64> {
    sweep_prefix(dir, decay, att0, w, h, diag, w * h)
}

/// Coordinates of a cell index, with the index bounds of its neighbors.
pub proof fn lemma_grid_coords(idx: int, w: int, h: int)
    requires
        0 < w,
        0 < h,
        0 <= idx < w * h,
    ensures
        0 <= idx % w < w,
        0 <= idx / w < h,
        idx == (idx / w) * w + idx % w,
        idx % w > 0 ==> idx >= 1,
        idx / w > 0 ==> idx >= w,
        idx % w > 0 && idx / w > 0 ==> idx >= w + 1,
        idx % w + 1 < w ==> idx + 1 < w * h,
        idx / w + 1 < h ==> idx + w < w * h,
        idx % w + 1 < w && idx / w + 1 < h ==> idx + w + 1 < w * h,
{
    let x = idx % w;
    let y = idx / w;
    vstd::arithmetic::div_mod::lemma_fundamental_div_mod(idx, w);
    vstd::arithmetic::div_mod::lemma_mod_division_less_than_divisor(idx, w);
    vstd::arithmetic::div_mod::lemma_div_pos_is_pos(idx, w);
    assert(y < h) by (nonlinear_arith)
        requires
            idx == w * y + x,
            0 <= x < w,
            0 < w,
            idx < w * h,
            0 <= y,
    ;
    assert(idx == y * w + x) by (nonlinear_arith)
        requires
            idx == w * y + x,
    ;
    assert(y > 0 ==> idx >= w) by (nonlinear_arith)
        requires
            idx == y * w + x,
            0 <= x,
            0 < w,
            0 <= y,
    ;
    assert(y > 0 && x > 0 ==> idx >= w + 1) by (nonlinear_arith)
        requires
            idx == y * w + x,
            0 <= x,
            0 < w,
            0 <= y,
    ;
    assert(x + 1 < w ==> idx + 1 < w * h) by (nonlinear_arith)
        requires
            idx == y * w + x,
            0 <= x < w,
            0 < w,
            0 <= y < h,
    ;
    assert(y + 1 < h ==> idx + w < w * h) by (nonlinear_arith)
        requires
            idx == y * w + x,
            0 <= x < w,
            0 < w,
            0 <= y < h,
    ;
    assert(x + 1 < w && y + 1 < h ==> idx + w + 1 < w * h) by (nonlinear_arith)
        requires
            idx == y * w + x,
            0 <= x < w,
            0 < w,
            0 <= y < h,
    ;
}

/// A sweep step never lowers the cell it writes and never writes a value
/// above a bound that already holds for the whole buffer.
pub proof fn lemma_cell_pass_value_props(
    dir: SweepDir,
    att: Seq<u64>,
    decay: Seq<u64>,
    w: int,
    h: int,
    diag: u64,
    idx: int,
    bound: u64,
)
    requires
        0 < w,
        0 < h,
        0 <= idx < w * h,
        att.len() == w * h,
        forall|i: int| 0 <= i < att.len() ==> att[i] <= bound,
    ensures
        att[idx] <= cell_pass_value(dir, att, decay, w, h, diag, idx),
        cell_pass_value(dir, att, decay, w, h, diag, idx) <= bound,
{
    lemma_grid_coords(idx, w, h);
    let x = idx % w;
    let y = idx / w;
    if x > 0 {
        lemma_propagate_le(att[idx - 1], decay[idx - 1], SCALE);
    }
    if x + 1 < w {
        lemma_propagate_le(att[idx + 1], decay[idx + 1], SCALE);
    }
    if y > 0 {
        lemma_propagate_le(att[idx - w], decay[idx - w], SCALE);
        if x > 0 {
            lemma_propagate_le(att[idx - w - 1], decay[idx - w - 1], diag);
        }
        if x + 1 < w {
            lemma_propagate_le(att[idx - w + 1], decay[idx - w + 1], diag);
        }
    }
    if y + 1 < h {
        lemma_propagate_le(att[idx + w], decay[idx + w], SCALE);
        if x > 0 {
            lemma_propagate_le(att[idx + w - 1], decay[idx + w - 1], diag);
        }
        if x + 1 < w {
            lemma_propagate_le(att[idx + w + 1], decay[idx + w + 1], diag);
        }
    }
}

/// Over its first `k` cells a sweep preserves the buffer's length, never
/// lowers any cell, and never raises any cell above a bound that held of the
/// starting buffer.
pub proof fn lemma_sweep_prefix_props(
    dir: SweepDir,
    decay: Seq<u64>,
    att0: Seq<u64>,
    w: int,
    h: int,
    diag: u64,
    k: int,
    bound: u64,
)
    requires
        0 <= w,
        0 <= h,
        0 <= k <= w * h,
        att0.len() == w * h,
        forall|i: int| 0 <= i < att0.len() ==> att0[i] <= bound,
    ensures
        sweep_prefix(dir, decay, att0, w, h, diag, k).len() == w * h,
        forall|i: int| 0 <= i < w * h ==> att0[i]
            <= #[trigger] sweep_prefix(dir, decay, att0, w, h, diag, k)[i] <= bound,
    decreases k,
{
    if k > 0 {
        lemma_sweep_prefix_props(dir, decay, att0, w, h, diag, k - 1, bound);
        let prev = sweep_prefix(dir, decay, att0, w, h, diag, k - 1);
        let idx = visit_index(dir, w * h, k - 1);
        if w == 0 || h == 0 {
            assert(w * h == 0) by (nonlinear_arith)
                requires
                    w == 0 || h == 0,
            ;
        } else {
            lemma_cell_pass_value_props(dir, prev, decay, w, h, diag, idx, bound);
        }
    }
}

/// As `lemma_sweep_prefix_props`, for the complete sweep.
pub proof fn lemma_sweep_props(
    dir: SweepDir,
    decay: Seq<u64>,
    att0: Seq<u64>,
    w: int,
    h: int,
    diag: u64,
    bound: u64,
)
    requires
        0 <= w,
        0 <= h,
        att0.len() == w * h,
        forall|i: int| 0 <= i < att0.len() ==> att0[i] <= bound,
    ensures
        spec_sweep(dir, decay, att0, w, h, diag).len() == w * h,
        forall|i: int| 0 <= i < w * h ==> att0[i]
            <= #[trigger] spec_sweep(dir, decay, att0, w, h, diag)[i] <= bound,
{
    assert(w * h >= 0) by (nonlinear_arith)
        requires
            0 <= w,
            0 <= h,
    ;
    lemma_sweep_prefix_props(dir, decay, att0, w, h, diag, w * h, bound);
}

/// Later stages of a sweep never lower what an earlier stage established.
pub proof fn lemma_sweep_prefix_monotone(
    dir: SweepDir,
    decay: Seq<u64>,
    att0: Seq<u64>,
    w: int,
    h: int,
    diag: u64,
    k1: int,
    k2: int,
)
    requires
        0 <= w,
        0 <= h,
        0 <= k1 <= k2 <= w * h,
        att0.len() == w * h,
    ensures
        sweep_prefix(dir, decay, att0, w, h, diag, k2).len() == w * h,
        forall|i: int| 0 <= i < w * h ==> #[trigger] sweep_prefix(
            dir,
            decay,
            att0,
            w,
            h,
            diag,
            k2,
        )[i] >= sweep_prefix(dir, decay, att0, w, h, diag, k1)[i],
    decreases k2 - k1,
{
    lemma_sweep_prefix_props(dir, decay, att0, w, h, diag, k1, u64::MAX);
    if k2 > k1 {
        lemma_sweep_prefix_monotone(dir, decay, att0, w, h, diag, k1, k2 - 1);
        let prev = sweep_prefix(dir, decay, att0, w, h, diag, k2 - 1);
        let idx = visit_index(dir, w * h, k2 - 1);
        if w == 0 || h == 0 {
            assert(w * h == 0) by (nonlinear_arith)
                requires
                    w == 0 || h == 0,
            ;
        } else {
            lemma_cell_pass_value_props(dir, prev, decay, w, h, diag, idx, u64::MAX);
        }
    }
}

/// Runs one directional sweep over the whole buffer, in place.
pub fn sweep(decay: &Vec<u64>, att: &mut Vec<u64>, w: usize, h: usize, diag: u64, dir: SweepDir)
    requires
        decay@.len() == w * h,
        old(att)@.len() == w * h,
    ensures
        final(att)@ == spec_sweep(dir, decay@, old(att)@, w as int, h as int, diag),
        final(att)@.len() == w * h,
        forall|i: int| 0 <= i < w * h ==> final(att)@[i] >= old(att)@[i],
{
    proof {
        lemma_sweep_props(dir, decay@, old(att)@, w as int, h as int, diag, u64::MAX);
    }
    let len: usize = att.len();
    let ghost att0 = att@;
    let mut k: usize = 0;
    while k < len
        invariant
            len == w * h,
            decay@.len() == len,
            att0.len() == len,
            0 <= k <= len,
            att@ == sweep_prefix(dir, decay@, att0, w as int, h as int, diag, k as int),
            att@.len() == len,
        decreases len - k,
    {
        let idx: usize = match dir {
            SweepDir::TlBr => k,
            SweepDir::TopDown => k,
            SweepDir::BrTl => len - 1 - k,
            SweepDir::BottomUp => len - 1 - k,
        };
        assert(w > 0 && h > 0) by {
            assert(w == 0 || h == 0 ==> w * h == 0) by (nonlinear_arith);
        }
        proof {
            lemma_grid_coords(idx as int, w as int, h as int);
        }
        let x: usize = idx % w;
        let y: usize = idx / w;
        let mut v: u64 = att[idx];
        match dir {
            SweepDir::TlBr => {
                if x > 0 {
                    let c = propagate_value(att[idx - 1], decay[idx - 1], SCALE);
                    if c > v {
                        v = c;
                    }
                }
                if y > 0 {
                    let c = propagate_value(att[idx - w], decay[idx - w], SCALE);
                    if c > v {
                        v = c;
                    }
                }
                if x > 0 && y > 0 {
                    let c = propagate_value(att[idx - w - 1], decay[idx - w - 1], diag);
                    if c > v {
                        v = c;
                    }
                }
            },
            SweepDir::BrTl => {
                if x + 1 < w {
                    let c = propagate_value(att[idx + 1], decay[idx + 1], SCALE);
                    if c > v {
                        v = c;
                    }
                }
                if y + 1 < h {
                    let c = propagate_value(att[idx + w], decay[idx + w], SCALE);
                    if c > v {
                        v = c;
                    }
                }
                if x + 1 < w && y + 1 < h {
                    let c = propagate_value(att[idx + w + 1], decay[idx + w + 1], diag);
                    if c > v {
                        v = c;
                    }
                }
            },
            SweepDir::TopDown => {
                if x > 0 {
                    let c = propagate_value(att[idx - 1], decay[idx - 1], SCALE);
                    if c > v {
                        v = c;
                    }
                }
                if y > 0 {
                    let c = propagate_value(att[idx - w], decay[idx - w], SCALE);
                    if c > v {
                        v = c;
                    }
                    if x > 0 {
                        let c2 = propagate_value(att[idx - w - 1], decay[idx - w - 1], diag);
                        if c2 > v {
                            v = c2;
                        }
                    }
                    if x + 1 < w {
                        let c2 = propagate_value(att[idx - w + 1], decay[idx - w + 1], diag);
                        if c2 > v {
                            v = c2;
                        }
                    }
                }
            },
            SweepDir::BottomUp => {
                if x + 1 < w {
                    let c = propagate_value(att[idx + 1], decay[idx + 1], SCALE);
                    if c > v {
                        v = c;
                    }
                }
                if y + 1 < h {
                    let c = propagate_value(att[idx + w], decay[idx + w], SCALE);
                    if c > v {
                        v = c;
                    }
                    if x > 0 {
                        let c2 = propagate_value(att[idx + w - 1], decay[idx + w - 1], diag);
                        if c2 > v {
                            v = c2;
                        }
                    }
                    if x + 1 < w {
                        let c2 = propagate_value(att[idx + w + 1], decay[idx + w + 1], diag);
                        if c2 > v {
                            v = c2;
                        }
                    }
                }
            },
        }
        assert(v == cell_pass_value(dir, att@, decay@, w as int, h as int, diag, idx as int));
        att.set(idx, v);
        k = k + 1;
    }
}

/// The forward pass: TL→BR, BR→TL, top-down, bottom-up, as a strict chain.
pub open spec fn spec_forward(decay: Seq<u64>, att0: Seq<u64>, w: int, h: int, diag: u64) -> Seq<
    u64,
> {
    spec_sweep(
        SweepDir::BottomUp,
        decay,
        spec_sweep(
            SweepDir::TopDown,
            decay,
            spec_sweep(SweepDir::BrTl, decay, spec_sweep(SweepDir::TlBr, decay, att0, w, h, diag), w, h, diag),
            w,
            h,
            diag,
        ),
        w,
        h,
        diag,
    )
}

/// The reverse pass: the same four sweeps in the opposite order.
pub open spec fn spec_reverse(decay: Seq<u64>, att0: Seq<u64>, w: int, h: int, diag: u64) -> Seq<
    u64,
> {
    spec_sweep(
        SweepDir::TlBr,
        decay,
        spec_sweep(
            SweepDir::BrTl,
            decay,
            spec_sweep(SweepDir::TopDown, decay, spec_sweep(SweepDir::BottomUp, decay, att0, w, h, diag), w, h, diag),
            w,
            h,
            diag,
        ),
        w,
        h,
        diag,
    )
}

/// Forward sweeps over a seeded buffer: TL→BR, BR→TL, top-down, bottom-up.
pub fn run_forward_sweeps(decay: &Vec<u64>, att: &mut Vec<u64>, w: usize, h: usize, diag: u64)
    requires
        decay@.len() == w * h,
        old(att)@.len() == w * h,
    ensures
        final(att)@ == spec_forward(decay@, old(att)@, w as int, h as int, diag),
        final(att)@.len() == w * h,
        forall|i: int| 0 <= i < w * h ==> final(att)@[i] >= old(att)@[i],
{
    proof {
        lemma_pass_props(decay@, old(att)@, w as int, h as int, diag, u64::MAX);
    }
    sweep(decay, att, w, h, diag, SweepDir::TlBr);
    sweep(decay, att, w, h, diag, SweepDir::BrTl);
    sweep(decay, att, w, h, diag, SweepDir::TopDown);
    sweep(decay, att, w, h, diag, SweepDir::BottomUp);
}

/// Reverse sweeps over a seeded buffer: bottom-up, top-down, BR→TL, TL→BR.
pub fn run_reverse_sweeps(decay: &Vec<u64>, att: &mut Vec<u64>, w: usize, h: usize, diag: u64)
    requires
        decay@.len() == w * h,
        old(att)@.len() == w * h,
    ensures
        final(att)@ == spec_reverse(decay@, old(att)@, w as int, h as int, diag),
        final(att)@.len() == w * h,
        forall|i: int| 0 <= i < w * h ==> final(att)@[i] >= old(att)@[i],
{
    proof {
        lemma_pass_props(decay@, old(att)@, w as int, h as int, diag, u64::MAX);
    }
    sweep(decay, att, w, h, diag, SweepDir::BottomUp);
    sweep(decay, att, w, h, diag, SweepDir::TopDown);
    sweep(decay, att, w, h, diag, SweepDir::BrTl);
    sweep(decay, att, w, h, diag, SweepDir::TlBr);
}

/// Either pass preserves length, never lowers a cell, and keeps every cell
/// under a bound that held of the seeded buffer.
pub proof fn lemma_pass_props(
    decay: Seq<u64>,
    att0: Seq<u64>,
    w: int,
    h: int,
    diag: u64,
    bound: u64,
)
    requires
        0 <= w,
        0 <= h,
        att0.len() == w * h,
        forall|i: int| 0 <= i < att0.len() ==> att0[i] <= bound,
    ensures
        spec_forward(decay, att0, w, h, diag).len() == w * h,
        spec_reverse(decay, att0, w, h, diag).len() == w * h,
        forall|i: int| 0 <= i < w * h ==> att0[i]
            <= #[trigger] spec_forward(decay, att0, w, h, diag)[i] <= bound,
        forall|i: int| 0 <= i < w * h ==> att0[i]
            <= #[trigger] spec_reverse(decay, att0, w, h, diag)[i] <= bound,
{
    let s1 = spec_sweep(SweepDir::TlBr, decay, att0, w, h, diag);
    lemma_sweep_props(SweepDir::TlBr, decay, att0, w, h, diag, bound);
    let s2 = spec_sweep(SweepDir::BrTl, decay, s1, w, h, diag);
    lemma_sweep_props(SweepDir::BrTl, decay, s1, w, h, diag, bound);
    let s3 = spec_sweep(SweepDir::TopDown, decay, s2, w, h, diag);
    lemma_sweep_props(SweepDir::TopDown, decay, s2, w, h, diag, bound);
    lemma_sweep_props(SweepDir::BottomUp, decay, s3, w, h, diag, bound);
    let r1 = spec_sweep(SweepDir::BottomUp, decay, att0, w, h, diag);
    lemma_sweep_props(SweepDir::BottomUp, decay, att0, w, h, diag, bound);
    let r2 = spec_sweep(SweepDir::TopDown, decay, r1, w, h, diag);
    lemma_sweep_props(SweepDir::TopDown, decay, r1, w, h, diag, bound);
    let r3 = spec_sweep(SweepDir::BrTl, decay, r2, w, h, diag);
    lemma_sweep_props(SweepDir::BrTl, decay, r2, w, h, diag, bound);
    lemma_sweep_props(SweepDir::TlBr, decay, r3, w, h, diag, bound);
}

} // verus!
