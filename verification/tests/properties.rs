//! Scenario tests for the engine's stated behavior: exact fixed-point
//! values, the checked entries' error conditions, multi-light composition,
//! and the subpixel interpolator.

use lightsweep::{
    combine, combine_lights, flatten_grid, interpolate, GridError, LightSource, Sweeping,
    DIAG_SQRT2, SCALE,
};

/// Uniform decay buffer in fixed-point units.
fn uniform_decay(width: usize, height: usize, decay: u64) -> Vec<u64> {
    vec![decay; width * height]
}

/// 0.1 in fixed-point units.
const DECAY_TENTH: u64 = 100_000;

#[test]
fn test_source_cell_full_intensity() {
    // An obstructed scene: the light's own cell still reads exactly 1.0.
    let mut decay = uniform_decay(8, 6, DECAY_TENTH);
    decay[1 * 8 + 1] = 900_000;
    decay[2 * 8 + 3] = SCALE;
    let att = Sweeping::new().calculate_flat(&decay, 8, 6, 3, 2, SCALE);
    assert_eq!(att[2 * 8 + 3], SCALE);
    // And no cell anywhere exceeds the seeded intensity.
    assert!(att.iter().all(|&v| v <= SCALE));
}

#[test]
fn test_exact_orthogonal_and_diagonal_step() {
    // 5x5 uniform decay 0.1, light at (2,2).  The cell straight above gets
    // 1.0 * (1 - 0.1) = 0.9 exactly; the diagonal neighbor gets
    // 1.0 * (1 - 0.1 * sqrt(2)) = 0.8585786 exactly in millionths.
    let decay = uniform_decay(5, 5, DECAY_TENTH);
    let att = Sweeping::new().calculate_flat(&decay, 5, 5, 2, 2, SCALE);
    assert_eq!(att[1 * 5 + 2], 900_000);
    assert_eq!(att[1 * 5 + 1], 858_578);
}

#[test]
fn test_custom_diagonal_mult() {
    // With a diagonal multiplier of exactly 1.0, the diagonal step decays
    // like an orthogonal one: 0.9 at the diagonal neighbor.
    let decay = uniform_decay(5, 5, DECAY_TENTH);
    let config = Sweeping::with_diagonal_mult(SCALE);
    assert_eq!(config.diagonal_decay_mult, SCALE);
    let att = config.calculate_flat(&decay, 5, 5, 2, 2, SCALE);
    assert_eq!(att[1 * 5 + 1], 900_000);
    // The default multiplier is sqrt(2).
    assert_eq!(Sweeping::new().diagonal_decay_mult, DIAG_SQRT2);
    assert_eq!(Sweeping::default().diagonal_decay_mult, DIAG_SQRT2);
}

#[test]
fn test_baseline_numeric_case() {
    // 5x5 grid, uniform decay 0.1, light at (2,2): attenuation at (2,2) is
    // 1.0 and attenuation at (2,1) lies in [0.85, 0.95].
    let decay = uniform_decay(5, 5, DECAY_TENTH);
    let att = Sweeping::new().calculate_flat(&decay, 5, 5, 2, 2, SCALE);
    assert_eq!(att[2 * 5 + 2], SCALE);
    let above = att[1 * 5 + 2] as f64 / SCALE as f64;
    assert!(above >= 0.85 && above <= 0.95);
}

#[test]
fn test_dim_light_intensity() {
    // A half-intensity light seeds 0.5 and everything scales under it.
    let decay = uniform_decay(5, 5, DECAY_TENTH);
    let half = SCALE / 2;
    let att = Sweeping::new().calculate_flat(&decay, 5, 5, 2, 2, half);
    assert_eq!(att[2 * 5 + 2], half);
    assert!(att.iter().all(|&v| v <= half));
    // One orthogonal step: 0.5 * (1 - 0.1) = 0.45 exactly.
    assert_eq!(att[1 * 5 + 2], 450_000);
}

#[test]
fn test_combine_checked_entry() {
    let decay = uniform_decay(4, 4, DECAY_TENTH);
    let config = Sweeping::new();
    let light = LightSource::new(1, 2);
    let grid = combine(&decay, 4, 4, &light, &config).unwrap();
    // The checked entry returns exactly what the engine computes.
    assert_eq!(grid, config.calculate_flat(&decay, 4, 4, 1, 2, SCALE));
}

#[test]
fn test_shape_mismatch_error() {
    let decay = vec![DECAY_TENTH; 10];
    let config = Sweeping::new();
    let light = LightSource::new(0, 0);
    assert_eq!(
        combine(&decay, 3, 3, &light, &config),
        Err(GridError::ShapeMismatch)
    );
    assert_eq!(
        combine_lights(&decay, 3, 3, &vec![light], &config),
        Err(GridError::ShapeMismatch)
    );
    assert_eq!(
        interpolate(&decay, 3, 3, 0, 0, &config),
        Err(GridError::ShapeMismatch)
    );
}

#[test]
fn test_light_out_of_bounds_error() {
    let decay = uniform_decay(3, 3, DECAY_TENTH);
    let config = Sweeping::new();
    assert_eq!(
        combine(&decay, 3, 3, &LightSource::new(3, 0), &config),
        Err(GridError::LightOutOfBounds)
    );
    assert_eq!(
        combine(&decay, 3, 3, &LightSource::new(0, 7), &config),
        Err(GridError::LightOutOfBounds)
    );
    let lights = vec![LightSource::new(1, 1), LightSource::new(1, 3)];
    assert_eq!(
        combine_lights(&decay, 3, 3, &lights, &config),
        Err(GridError::LightOutOfBounds)
    );
}

#[test]
fn test_degenerate_grid_empty_result() {
    let decay: Vec<u64> = vec![];
    let config = Sweeping::new();
    let light = LightSource::new(0, 0);
    assert_eq!(combine(&decay, 0, 5, &light, &config), Ok(vec![]));
    assert_eq!(combine(&decay, 5, 0, &light, &config), Ok(vec![]));
    assert_eq!(combine_lights(&decay, 0, 5, &vec![light], &config), Ok(vec![]));
    assert_eq!(interpolate(&decay, 5, 0, 0, 0, &config), Ok(vec![]));
}

#[test]
fn test_zero_lights_dark_scene() {
    let decay = uniform_decay(4, 3, DECAY_TENTH);
    let config = Sweeping::new();
    let grid = combine_lights(&decay, 4, 3, &vec![], &config).unwrap();
    assert_eq!(grid, vec![0u64; 12]);
}

#[test]
fn test_multi_light_max_composition() {
    // Two full-intensity lights placed apart: the cell exactly between them
    // holds the max of the individual single-light values, not their sum.
    let decay = uniform_decay(7, 7, DECAY_TENTH);
    let config = Sweeping::new();
    let left = LightSource::new(1, 3);
    let right = LightSource::new(5, 3);
    let both = combine_lights(&decay, 7, 7, &vec![left, right], &config).unwrap();
    let left_only = config.calculate_flat(&decay, 7, 7, 1, 3, SCALE);
    let right_only = config.calculate_flat(&decay, 7, 7, 5, 3, SCALE);
    let mid = 3 * 7 + 3;
    assert_eq!(both[mid], left_only[mid].max(right_only[mid]));
    assert!(both[mid] < left_only[mid] + right_only[mid]);
    // The whole grid is the cell-wise maximum.
    for i in 0..both.len() {
        assert_eq!(both[i], left_only[i].max(right_only[i]));
    }
}

#[test]
fn test_single_light_combine_matches_engine() {
    // A one-light scene through the multi-light entry equals the engine's
    // own grid for that light.
    let mut decay = uniform_decay(6, 6, DECAY_TENTH);
    decay[2 * 6 + 2] = 800_000;
    let config = Sweeping::new();
    let light = LightSource::with_intensity(4, 1, SCALE);
    let multi = combine_lights(&decay, 6, 6, &vec![light], &config).unwrap();
    let single = config.calculate_flat(&decay, 6, 6, 4, 1, SCALE);
    assert_eq!(multi, single);
}

#[test]
fn test_bilinear_integer_equivalence() {
    // Interpolating at an exact integer position equals the engine's grid
    // for that cell, exactly, even with obstacles in the scene.
    let mut decay = uniform_decay(6, 5, DECAY_TENTH);
    decay[1 * 6 + 2] = 900_000;
    decay[3 * 6 + 4] = SCALE;
    let config = Sweeping::new();
    let blended = interpolate(&decay, 6, 5, 3 * SCALE, 2 * SCALE, &config).unwrap();
    let direct = config.calculate_flat(&decay, 6, 5, 3, 2, SCALE);
    assert_eq!(blended, direct);
}

#[test]
fn test_bilinear_blend_between_cells() {
    // At a fractional position the result is the exact weighted blend of
    // the four corner grids.
    let decay = uniform_decay(6, 6, DECAY_TENTH);
    let config = Sweeping::new();
    let sub_x: u64 = 2 * SCALE + 250_000; // 2.25
    let sub_y: u64 = 3 * SCALE + 500_000; // 3.5
    let blended = interpolate(&decay, 6, 6, sub_x, sub_y, &config).unwrap();
    let g00 = config.calculate_flat(&decay, 6, 6, 2, 3, SCALE);
    let g10 = config.calculate_flat(&decay, 6, 6, 3, 3, SCALE);
    let g01 = config.calculate_flat(&decay, 6, 6, 2, 4, SCALE);
    let g11 = config.calculate_flat(&decay, 6, 6, 3, 4, SCALE);
    let fx: u128 = 250_000;
    let fy: u128 = 500_000;
    let s: u128 = SCALE as u128;
    let weights = [(s - fx) * (s - fy), fx * (s - fy), (s - fx) * fy, fx * fy];
    for i in 0..blended.len() {
        let sum = weights[0] * g00[i] as u128
            + weights[1] * g10[i] as u128
            + weights[2] * g01[i] as u128
            + weights[3] * g11[i] as u128;
        assert_eq!(blended[i] as u128, sum / (s * s));
    }
    // The blend lies between the darkest and brightest corner everywhere.
    for i in 0..blended.len() {
        let lo = g00[i].min(g10[i]).min(g01[i]).min(g11[i]);
        let hi = g00[i].max(g10[i]).max(g01[i]).max(g11[i]);
        assert!(lo <= blended[i] && blended[i] <= hi);
    }
}

#[test]
fn test_subpixel_clamps_at_far_edge() {
    // Beyond the far edge the corners collapse onto the last cell, so the
    // blend equals that corner's grid.
    let decay = uniform_decay(4, 4, DECAY_TENTH);
    let config = Sweeping::new();
    let blended = interpolate(&decay, 4, 4, 9 * SCALE, 9 * SCALE, &config).unwrap();
    let corner = config.calculate_flat(&decay, 4, 4, 3, 3, SCALE);
    assert_eq!(blended, corner);
}

#[test]
fn test_flatten_grid_layout() {
    // flatten_grid turns grid[x][y] into flat[y * width + x].
    let nested: Vec<Vec<u64>> = vec![vec![1, 2], vec![3, 4], vec![5, 6]];
    let flat = flatten_grid(&nested);
    assert_eq!(flat, vec![1, 3, 5, 2, 4, 6]);
}

#[test]
fn test_sweeps_propagate_light() {
    // If the parallel passes handed their seeded buffers back unchanged,
    // every cell but the source would be dark; light must actually spread.
    let decay = uniform_decay(5, 5, DECAY_TENTH);
    let att = Sweeping::new().calculate_flat(&decay, 5, 5, 2, 2, SCALE);
    for &v in att.iter() {
        assert!(v > 0);
    }
    let corner = att[0];
    assert!(corner > 0 && corner < SCALE);
}
