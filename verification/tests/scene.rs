use wakeful::scene::{gltf_asset_path, resize_cells, CellGrid};

/// A 2 × 2 grid where only cell (0, 0) is walkable. With the grid's
/// origin at (-2, -2) and cells one unit wide, world x -1.5 floors to
/// column 0 and -0.5 to column 1 (likewise for z and rows).
fn grid() -> CellGrid {
    CellGrid { cols: 2, rows: 2, cells: vec![true, false, false, false] }
}

#[test]
fn reports_walkable_cells() {
    let grid = grid();
    assert!(grid.is_cell_walkable(0, 0));
}

#[test]
fn reports_blocked_cells() {
    let grid = grid();
    assert!(!grid.is_cell_walkable(1, 0));
    assert!(!grid.is_cell_walkable(0, 1));
    assert!(!grid.is_cell_walkable(1, 1));
}

#[test]
fn outside_the_grid_is_never_walkable() {
    let grid = grid();
    // (50, 50) floors to cell (52, 52); (-3, -1.5) to (-1, 0); (-1.5, -3) to (0, -1).
    assert!(!grid.is_cell_walkable(52, 52));
    assert!(!grid.is_cell_walkable(-1, 0));
    assert!(!grid.is_cell_walkable(0, -1));
}

#[test]
fn positions_on_cell_edges_floor_consistently() {
    let grid = grid();
    // x = -1.0 lies on the boundary between columns 0 and 1 and floors to 1.
    assert!(!grid.is_cell_walkable(1, 0));
}

#[test]
fn set_walkable_flips_the_cell_under_a_position() {
    let mut grid = grid();
    assert!(!grid.is_cell_walkable(1, 0));
    assert!(grid.set_cell(1, 0, true));
    assert!(grid.is_cell_walkable(1, 0));
    assert!(grid.set_cell(1, 0, false));
    assert!(!grid.is_cell_walkable(1, 0));
}

#[test]
fn set_walkable_ignores_outside_positions() {
    let mut grid = grid();
    assert!(!grid.set_cell(52, 52, true));
    assert_eq!(grid.cells, [true, false, false, false]);
}

#[test]
fn blocked_is_the_complement_of_walkable_inside_and_outside() {
    let grid = grid();
    assert!(!grid.is_blocked(0, 0));
    assert!(grid.is_blocked(1, 1));
    assert!(grid.is_blocked(2, 0));
    assert!(grid.is_blocked(i64::MIN, i64::MAX));
    assert_eq!(grid.cell_at(1, 1), Some((1, 1)));
    assert_eq!(grid.cell_at(2, 1), None);
}

#[test]
fn a_short_flag_list_reads_as_blocked() {
    let grid = CellGrid { cols: 2, rows: 2, cells: vec![true] };
    assert!(grid.is_cell_walkable(0, 0));
    assert!(!grid.is_cell_walkable(1, 1));
}

#[test]
fn a_blank_grid_blocks_everything() {
    let grid = CellGrid::blank(8, 8);
    assert_eq!(grid.cells.len(), 64);
    assert!(grid.cells.iter().all(|c| !c));
}

#[test]
fn resizing_clamps_to_one_cell_and_keeps_the_overlap() {
    let mut grid = CellGrid { cols: 2, rows: 2, cells: vec![true, false, false, true] };
    grid.resize(3, 2);
    assert_eq!((grid.cols, grid.rows), (3, 2));
    assert_eq!(grid.cells, [true, false, false, false, true, false]);
    grid.resize(0, -4);
    assert_eq!((grid.cols, grid.rows), (1, 1));
    assert_eq!(grid.cells, [true]);
    // The same size changes nothing, even a short flag list.
    let mut short = CellGrid { cols: 2, rows: 2, cells: vec![true] };
    short.resize(2, 2);
    assert_eq!(short.cells, [true]);
}

#[test]
fn resize_preserves_the_overlap() {
    let cells = resize_cells(&[true, false, false, true], 2, 2, 3, 2);
    // first two columns of each row survive, third column is new
    assert_eq!(cells, [true, false, false, false, true, false]);
}

#[test]
fn resize_shrinks_dropping_out_of_range_cells() {
    let cells = resize_cells(&[true, false, false, true], 2, 2, 1, 1);
    assert_eq!(cells, [true]);
}

#[test]
fn resize_tolerates_short_input() {
    let cells = resize_cells(&[true], 2, 2, 2, 2);
    assert_eq!(cells, [true, false, false, false]);
}

#[test]
fn resize_to_nothing_is_empty() {
    assert!(resize_cells(&[true, true], 2, 1, 0, 5).is_empty());
    assert_eq!(resize_cells(&[], 0, 0, 2, 1), [false, false]);
}

#[test]
fn gltf_paths_drop_the_scene_suffix() {
    assert_eq!(gltf_asset_path("elf.glb"), "elf.glb");
    assert_eq!(gltf_asset_path("models/hero.gltf#Scene0"), "models/hero.gltf");
    assert_eq!(gltf_asset_path("models/hero.glb#Scene0"), "models/hero.glb");
}

#[test]
fn only_the_first_hash_counts() {
    assert_eq!(gltf_asset_path("a#b#c"), "a");
    assert_eq!(gltf_asset_path("#Scene0"), "");
    assert_eq!(gltf_asset_path(""), "");
}

#[test]
fn stripping_twice_is_stripping_once() {
    for path in ["models/hero.glb#Scene0", "plain.gltf", "#", "a#b"] {
        let once = gltf_asset_path(path);
        assert!(!once.contains('#'));
        assert_eq!(gltf_asset_path(&once), once);
    }
}

#[test]
fn a_resize_to_the_same_size_keeps_every_cell() {
    let cells = [true, false, true, true, false, false];
    assert_eq!(resize_cells(&cells, 3, 2, 3, 2), cells);
}
