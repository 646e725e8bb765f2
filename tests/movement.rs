use antz::common::{normalize_angle, turned, Command, FULL_TURN, HEIGHT, STEP_SIZE, WIDTH};
use antz::components::{Ant, Energy, Orientation, Position, Seen};
use antz::config::{Config, General};

fn config(base_energy: u32) -> Config {
    Config { general: General { sugar_hills: 0, base_energy } }
}

fn ant_at(x: i64, y: i64, degrees: i64, commands: Vec<Command>) -> Ant {
    Ant {
        energy: Energy(100),
        position: Position::new(x, y),
        orientation: Orientation(degrees),
        commands,
        seen: Seen::new(),
    }
}

#[test]
fn energy_comes_from_config() {
    assert_eq!(Energy::new(&config(42)), Energy(42));
}

#[test]
fn new_ant_faces_x_with_nothing_to_do() {
    let a = Ant::new(&config(7), Position::new(10, 20));
    assert_eq!(a.energy, Energy(7));
    assert_eq!(a.position, Position::new(10, 20));
    assert_eq!(a.orientation, Orientation(0));
    assert!(a.commands.is_empty());
    assert!(a.is_idle());
}

#[test]
fn normalize_wraps_both_ways() {
    assert_eq!(normalize_angle(-90_000), 270_000);
    assert_eq!(normalize_angle(360_000), 0);
    assert_eq!(normalize_angle(725_000), 5_000);
    assert_eq!(normalize_angle(i64::MIN) >= 0, true);
    assert_eq!(turned(350_000, 20_000), 10_000);
    assert_eq!(turned(10_000, -20_000), 350_000);
}

#[test]
fn turn_lands_in_range_from_any_heading() {
    for start in [0i64, 1, 90_000, 359_999] {
        for d in [i64::MIN, -720_001, -1, 0, 1, 359_999, 360_000, 1_000_000_007, i64::MAX] {
            let mut a = ant_at(0, 0, start, vec![Command::Turn(d)]);
            a.step(0, 0);
            assert!(0 <= a.orientation.0 && a.orientation.0 < FULL_TURN);
            assert_eq!(a.orientation.0, (start as i128 + d as i128).rem_euclid(FULL_TURN as i128) as i64);
            assert!(a.commands.is_empty());
        }
    }
}

#[test]
fn turn_to_sets_absolute_heading() {
    let mut a = ant_at(0, 0, 45_000, vec![Command::TurnTo(-90_000), Command::Move(1)]);
    a.step(0, 0);
    assert_eq!(a.orientation, Orientation(270_000));
    assert_eq!(a.commands, vec![Command::Move(1)]);
}

#[test]
fn move_takes_exactly_n_ticks_of_motion() {
    let mut a = ant_at(100_000, 100_000, 0, vec![Command::Move(3), Command::Turn(90_000)]);
    for k in 1..=3 {
        a.step(STEP_SIZE, 0);
        assert_eq!(a.position, Position::new(100_000 + k * STEP_SIZE, 100_000));
    }
    assert_eq!(a.commands[0], Command::Move(0));
    // the spent walk is dropped without moving
    a.step(STEP_SIZE, 0);
    assert_eq!(a.position, Position::new(100_000 + 3 * STEP_SIZE, 100_000));
    assert_eq!(a.commands, vec![Command::Turn(90_000)]);
    a.step(STEP_SIZE, 0);
    assert_eq!(a.orientation, Orientation(90_000));
    assert!(a.commands.is_empty());
    // an idle ant does not move
    a.step(STEP_SIZE, 0);
    assert_eq!(a.position, Position::new(100_000 + 3 * STEP_SIZE, 100_000));
}

#[test]
fn commands_run_first_in_first_out() {
    let mut a = ant_at(0, 0, 0, vec![Command::Turn(10_000), Command::Turn(20_000)]);
    a.step(0, 0);
    assert_eq!(a.orientation, Orientation(10_000));
    assert_eq!(a.commands, vec![Command::Turn(20_000)]);
}

#[test]
fn walk_to_right_edge_flips_heading() {
    let mut a = ant_at(0, 360_000, 0, vec![Command::Move(640)]);
    for _ in 0..639 {
        a.step(STEP_SIZE, 0);
    }
    assert_eq!(a.position.x, 1_278_000);
    assert_eq!(a.orientation, Orientation(0));
    a.step(STEP_SIZE, 0);
    assert_eq!(a.position.x, 1_280_000);
    assert_eq!(a.position.x, WIDTH);
    assert_eq!(a.orientation, Orientation(180_000));
}

#[test]
fn passing_right_edge_clamps_and_reflects() {
    let mut a = ant_at(WIDTH - 500, 300_000, 30_000, vec![]);
    a.do_move(1_732, 1_000);
    assert_eq!(a.position, Position::new(WIDTH, 301_000));
    assert_eq!(a.orientation, Orientation(150_000));
}

#[test]
fn passing_left_edge_clamps_and_reflects() {
    let mut a = ant_at(500, 300_000, 200_000, vec![]);
    a.do_move(-1_879, -684);
    assert_eq!(a.position, Position::new(0, 299_316));
    assert_eq!(a.orientation, Orientation(340_000));
}

#[test]
fn passing_top_edge_clamps_and_reflects() {
    let mut a = ant_at(400_000, HEIGHT - 100, 90_000, vec![]);
    a.do_move(0, STEP_SIZE);
    assert_eq!(a.position, Position::new(400_000, HEIGHT));
    assert_eq!(a.orientation, Orientation(270_000));
}

#[test]
fn corner_reflects_on_both_axes() {
    let mut a = ant_at(WIDTH - 1, HEIGHT - 1, 45_000, vec![]);
    a.do_move(1_414, 1_414);
    assert_eq!(a.position, Position::new(WIDTH, HEIGHT));
    // 180 - 45 = 135, then 360 - 135 = 225
    assert_eq!(a.orientation, Orientation(225_000));
}

#[test]
fn inside_step_keeps_heading() {
    let mut a = ant_at(1000, 1000, 30_000, vec![]);
    a.do_move(1_732, 1_000);
    assert_eq!(a.position, Position::new(2_732, 2_000));
    assert_eq!(a.orientation, Orientation(30_000));
}
