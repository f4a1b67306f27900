use snake_core::collision::{check_fruit, check_self_collision};
use snake_core::fruit::spawn;
use snake_core::grid::{Direction, Grid, Position};
use snake_core::snake::Snake;

fn pos(x: i32, y: i32) -> Position {
    Position { x, y }
}

#[test]
fn new_snake_starts_at_origin_heading_right() {
    let grid = Grid::new(300, 300, 30).unwrap();
    let snake = Snake::new(&grid);
    assert_eq!(snake.head, pos(0, 0));
    assert_eq!(snake.direction, Direction::Right);
    assert_eq!(snake.segments, vec![grid.sentinel()]);
}

#[test]
fn set_direction_ignores_exact_reversal() {
    let grid = Grid::new(300, 300, 30).unwrap();
    let mut snake = Snake::new(&grid);
    snake.set_direction(Direction::Left);
    assert_eq!(snake.direction, Direction::Right);
    snake.set_direction(Direction::Up);
    assert_eq!(snake.direction, Direction::Up);
    snake.set_direction(Direction::Down);
    assert_eq!(snake.direction, Direction::Up);
    snake.set_direction(Direction::Right);
    assert_eq!(snake.direction, Direction::Right);
}

#[test]
fn advance_follows_the_leader() {
    let grid = Grid::new(300, 300, 30).unwrap();
    let mut snake = Snake {
        head: pos(0, 0),
        direction: Direction::Right,
        segments: vec![pos(-30, 0), pos(-60, 0), pos(-60, 30)],
    };
    snake.advance(&grid);
    assert_eq!(snake.head, pos(30, 0));
    assert_eq!(snake.segments, vec![pos(0, 0), pos(-30, 0), pos(-60, 0)]);
}

#[test]
fn advance_wraps_the_head_at_the_edge() {
    let grid = Grid::new(300, 300, 30).unwrap();
    let mut snake = Snake { head: pos(300, 0), direction: Direction::Right, segments: vec![] };
    snake.advance(&grid);
    assert_eq!(snake.head, pos(330, 0));
    snake.advance(&grid);
    assert_eq!(snake.head, pos(-300, 0));
}

#[test]
fn grow_appends_a_sentinel_segment_per_call() {
    let grid = Grid::new(300, 300, 30).unwrap();
    let mut snake = Snake { head: pos(0, 0), direction: Direction::Right, segments: vec![] };
    snake.grow(&grid);
    snake.grow(&grid);
    assert_eq!(snake.segments, vec![pos(360, 360), pos(360, 360)]);
    // The next tick resolves both pending segments through chain-follow.
    snake.advance(&grid);
    assert_eq!(snake.head, pos(30, 0));
    assert_eq!(snake.segments, vec![pos(0, 0), pos(360, 360)]);
}

#[test]
fn occupied_lists_head_then_segments() {
    let snake = Snake {
        head: pos(30, 0),
        direction: Direction::Up,
        segments: vec![pos(0, 0), pos(-30, 0)],
    };
    assert_eq!(snake.occupied(), vec![pos(30, 0), pos(0, 0), pos(-30, 0)]);
}

#[test]
fn check_fruit_is_exact_position_equality() {
    assert!(check_fruit(pos(30, -60), pos(30, -60)));
    assert!(!check_fruit(pos(30, -60), pos(30, 60)));
    assert!(!check_fruit(pos(0, 0), pos(30, 0)));
}

#[test]
fn self_collision_iff_head_meets_a_segment() {
    let segments = vec![pos(0, 0), pos(30, 0), pos(30, 30)];
    assert!(check_self_collision(pos(30, 0), &segments));
    assert!(check_self_collision(pos(30, 30), &segments));
    assert!(!check_self_collision(pos(60, 0), &segments));
}

#[test]
fn self_collision_never_fires_on_an_empty_chain() {
    let segments: Vec<Position> = vec![];
    assert!(!check_self_collision(pos(0, 0), &segments));
}

#[test]
fn fruit_spawn_avoids_the_forbidden_set() {
    let grid = Grid::new(30, 30, 30).unwrap();
    let forbidden = vec![pos(0, 0), pos(30, 0), pos(-30, 0)];
    for _ in 0..100 {
        match spawn(&grid, &forbidden, 4096) {
            Some(p) => {
                assert!(!forbidden.contains(&p));
                assert_eq!(p.x % 30, 0);
                assert_eq!(p.y % 30, 0);
                assert!(-30 <= p.x && p.x <= 30);
                assert!(-30 <= p.y && p.y <= 30);
            },
            None => {},
        }
    }
}

#[test]
fn fruit_spawn_reports_no_placement_on_a_full_board() {
    let grid = Grid::new(30, 30, 30).unwrap();
    let mut forbidden = Vec::new();
    for x in [-30, 0, 30] {
        for y in [-30, 0, 30] {
            forbidden.push(pos(x, y));
        }
    }
    assert_eq!(spawn(&grid, &forbidden, 1000), None);
}

#[test]
fn fruit_spawn_succeeds_when_nothing_forbidden_lies_in_the_area() {
    let grid = Grid::new(300, 300, 30).unwrap();
    // Forbidden cells outside the play area cannot collide with a draw,
    // so even a single attempt is owed a placement.
    let forbidden = vec![pos(360, 360), pos(-330, 330)];
    for _ in 0..50 {
        let p = spawn(&grid, &forbidden, 1).unwrap();
        assert!(!forbidden.contains(&p));
        assert!(-300 <= p.x && p.x <= 300);
        assert!(-300 <= p.y && p.y <= 300);
    }
}

#[test]
fn fruit_spawn_with_nothing_forbidden_lands_in_bounds() {
    let grid = Grid::new(300, 300, 30).unwrap();
    let forbidden: Vec<Position> = vec![];
    let p = spawn(&grid, &forbidden, 4096).unwrap();
    assert_eq!(p.x % 30, 0);
    assert_eq!(p.y % 30, 0);
    assert!(-300 <= p.x && p.x <= 300);
    assert!(-300 <= p.y && p.y <= 300);
}
