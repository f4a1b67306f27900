use snake_core::grid::{ConfigError, Direction, Grid, Position, MAX_EXTENT};

#[test]
fn grid_new_accepts_valid_configuration() {
    let grid = Grid::new(300, 300, 30).unwrap();
    assert_eq!(grid.play_x, 300);
    assert_eq!(grid.play_y, 300);
    assert_eq!(grid.tile_size, 30);
}

#[test]
fn grid_new_rejects_non_positive_tile_size() {
    assert_eq!(Grid::new(300, 300, 0), Err(ConfigError::TileSizeNotPositive));
    assert_eq!(Grid::new(300, 300, -30), Err(ConfigError::TileSizeNotPositive));
}

#[test]
fn grid_new_rejects_extent_out_of_range() {
    assert_eq!(Grid::new(20, 300, 30), Err(ConfigError::ExtentOutOfRange));
    assert_eq!(Grid::new(300, 20, 30), Err(ConfigError::ExtentOutOfRange));
    assert_eq!(Grid::new(MAX_EXTENT + 1, 300, 30), Err(ConfigError::ExtentOutOfRange));
}

#[test]
fn grid_new_rejects_misaligned_extent() {
    assert_eq!(Grid::new(301, 300, 30), Err(ConfigError::ExtentNotAligned));
    assert_eq!(Grid::new(300, 310, 30), Err(ConfigError::ExtentNotAligned));
}

#[test]
fn snap_to_tile_rounds_up_to_the_lattice() {
    let grid = Grid::new(300, 300, 30).unwrap();
    assert_eq!(grid.snap_to_tile(0), 0);
    assert_eq!(grid.snap_to_tile(1), 30);
    assert_eq!(grid.snap_to_tile(29), 30);
    assert_eq!(grid.snap_to_tile(30), 30);
    assert_eq!(grid.snap_to_tile(31), 60);
    assert_eq!(grid.snap_to_tile(-1), 0);
    assert_eq!(grid.snap_to_tile(-29), 0);
    assert_eq!(grid.snap_to_tile(-30), -30);
    assert_eq!(grid.snap_to_tile(-31), -30);
    assert_eq!(grid.snap_to_tile(299), 300);
    assert_eq!(grid.snap_to_tile(-300), -300);
}

#[test]
fn wrap_leaves_interior_steps_alone() {
    let grid = Grid::new(300, 300, 30).unwrap();
    let p = grid.wrap(Position { x: 0, y: 0 }, 30, 0);
    assert_eq!(p, Position { x: 30, y: 0 });
    let q = grid.wrap(Position { x: 300, y: -300 }, 30, -30);
    assert_eq!(q, Position { x: 330, y: -330 });
}

#[test]
fn wrap_maps_boundary_overshoot_to_opposite_edge() {
    let grid = Grid::new(300, 300, 30).unwrap();
    assert_eq!(grid.wrap(Position { x: 330, y: 0 }, 30, 0), Position { x: -300, y: 0 });
    assert_eq!(grid.wrap(Position { x: -330, y: 0 }, -30, 0), Position { x: 300, y: 0 });
    assert_eq!(grid.wrap(Position { x: 0, y: 330 }, 0, 30), Position { x: 0, y: -300 });
    assert_eq!(grid.wrap(Position { x: 0, y: -330 }, 0, -30), Position { x: 0, y: 300 });
}

#[test]
fn repeated_steps_revisit_every_tile_without_drift() {
    let grid = Grid::new(300, 300, 30).unwrap();
    // One lap of rightward steps: every x-cell from -300 through the
    // overshoot tile 330 shows up once, and the walk comes back home.
    let cycle: i32 = 2 * 300 / 30 + 2;
    let mut p = Position { x: 0, y: 0 };
    let mut visited: Vec<i32> = Vec::new();
    for _ in 0..cycle {
        p = grid.step(p, Direction::Right);
        visited.push(p.x);
    }
    assert_eq!(p, Position { x: 0, y: 0 });
    let mut x: i32 = -300;
    while x <= 330 {
        assert!(visited.contains(&x), "tile not visited");
        x += 30;
    }
    // The same, straight down the y-axis.
    let mut q = Position { x: 0, y: -300 };
    for _ in 0..cycle {
        q = grid.step(q, Direction::Down);
    }
    assert_eq!(q, Position { x: 0, y: -300 });
}

#[test]
fn direction_opposites_pair_up() {
    assert_eq!(Direction::Up.opposite(), Direction::Down);
    assert_eq!(Direction::Down.opposite(), Direction::Up);
    assert_eq!(Direction::Left.opposite(), Direction::Right);
    assert_eq!(Direction::Right.opposite(), Direction::Left);
}

#[test]
fn random_tile_position_stays_on_the_lattice() {
    let grid = Grid::new(300, 300, 30).unwrap();
    for _ in 0..200 {
        let p = grid.random_tile_position();
        assert_eq!(p.x % 30, 0);
        assert_eq!(p.y % 30, 0);
        assert!(-300 <= p.x && p.x <= 300);
        assert!(-300 <= p.y && p.y <= 300);
    }
}
