//! Tests for the per-viewer map-editing state and the grid text formatter.

use lightsweep::{attenuation_to_string, combine_lights, MapEditor, Sweeping, SCALE};

const BASE: u64 = 100_000; // 0.1
const WALL: u64 = 600_000; // 0.6

#[test]
fn test_editor_toggle_wall_updates_decay() {
    let mut ed = MapEditor::new(4, 3, BASE, WALL);
    assert_eq!(ed.decay, vec![BASE; 12]);
    ed.toggle_wall(2, 1);
    assert!(ed.walls[1 * 4 + 2]);
    assert_eq!(ed.decay[1 * 4 + 2], WALL);
    ed.toggle_wall(2, 1);
    assert!(!ed.walls[1 * 4 + 2]);
    assert_eq!(ed.decay[1 * 4 + 2], BASE);
}

#[test]
fn test_editor_debounce() {
    let mut ed = MapEditor::new(4, 4, BASE, WALL);
    // Holding the button over one cell toggles it only once.
    ed.cursor_pressed(1, 1);
    ed.cursor_pressed(1, 1);
    ed.cursor_pressed(1, 1);
    assert!(ed.walls[1 * 4 + 1]);
    // Dragging to another cell toggles that one.
    ed.cursor_pressed(2, 1);
    assert!(ed.walls[1 * 4 + 2]);
    // After a release, the same cell toggles again.
    ed.cursor_released();
    ed.cursor_pressed(2, 1);
    assert!(!ed.walls[1 * 4 + 2]);
    assert!(ed.walls[1 * 4 + 1]);
}

#[test]
fn test_editor_clear_and_base_decay() {
    let mut ed = MapEditor::new(3, 3, BASE, WALL);
    ed.toggle_wall(0, 0);
    ed.toggle_wall(2, 2);
    ed.set_base_decay(200_000);
    // Walls keep the wall decay, open cells take the new base.
    assert_eq!(ed.decay[0], WALL);
    assert_eq!(ed.decay[4], 200_000);
    ed.clear_walls();
    assert_eq!(ed.walls, vec![false; 9]);
    assert_eq!(ed.decay, vec![200_000; 9]);
}

#[test]
fn test_editor_place_light_refused_on_wall() {
    let mut ed = MapEditor::new(3, 3, BASE, WALL);
    ed.toggle_wall(1, 1);
    assert!(!ed.place_light(1, 1));
    assert!(ed.place_light(0, 2));
    assert_eq!(ed.lights.len(), 1);
    assert_eq!((ed.lights[0].x, ed.lights[0].y, ed.lights[0].intensity), (0, 2, SCALE));
    ed.clear_lights();
    assert!(ed.lights.is_empty());
}

#[test]
fn test_editor_lighting_matches_combine_lights() {
    let mut ed = MapEditor::new(5, 5, BASE, WALL);
    ed.toggle_wall(2, 2);
    assert!(ed.place_light(1, 1));
    assert!(ed.place_light(4, 3));
    let config = Sweeping::new();
    let direct = combine_lights(&ed.decay, 5, 5, &ed.lights, &config).unwrap();
    assert_eq!(ed.lighting(&config), direct);
}

#[test]
fn test_attenuation_to_string_format() {
    // Column-major input: grid[x][y].  Values are fixed-point millionths;
    // each cell prints as five characters (two decimals, rounded half up)
    // plus a trailing space, one line per row.
    let grid: Vec<Vec<u64>> = vec![
        vec![1_000_000, 900_000],
        vec![858_578, 496_000],
    ];
    let text = attenuation_to_string(&grid);
    assert_eq!(text, " 1.00  0.86 \n 0.90  0.50 \n");

    let empty: Vec<Vec<u64>> = vec![];
    assert_eq!(attenuation_to_string(&empty), "");

    // A value of ten or more units needs no left padding.
    let wide: Vec<Vec<u64>> = vec![vec![12_345_000]];
    assert_eq!(attenuation_to_string(&wide), "12.35 \n");
}
