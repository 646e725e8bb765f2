use antz::bridge::{merge_idle, merge_near, AntState, Outcome};
use antz::common::{Command, RANGE, SCALE};
use antz::components::{Ant, Apple, Energy, FoodKind, Orientation, Position, Seen, Sugar};
use antz::config::{Config, General};
use antz::game_state::GameState;
use antz::perception::{debounce, distance_squared, isqrt, nearest_of_kind, whole_distance, Food};
use rand::rngs::StdRng;
use rand::SeedableRng;

fn config(sugar_hills: u8, base_energy: u32) -> Config {
    Config { general: General { sugar_hills, base_energy } }
}

fn ant_at(x: i64, y: i64) -> Ant {
    Ant {
        energy: Energy(50),
        position: Position::new(x, y),
        orientation: Orientation(0),
        commands: vec![],
        seen: Seen::new(),
    }
}

fn world(ants: Vec<Ant>, foods: Vec<Food>) -> GameState {
    GameState {
        tick: 0,
        config: config(0, 10),
        ants,
        foods,
        spawn: Position::new(500_000, 300_000),
        rng: StdRng::seed_from_u64(9),
    }
}

fn apple(x: i64, y: i64) -> Food {
    Food { kind: FoodKind::Apple, position: Position::new(x, y) }
}

fn sugar(x: i64, y: i64) -> Food {
    Food { kind: FoodKind::Sugar, position: Position::new(x, y) }
}

#[test]
fn markers_name_their_category() {
    assert_eq!(Apple.kind(), FoodKind::Apple);
    assert_eq!(Sugar.kind(), FoodKind::Sugar);
    assert_eq!(AntState::new(12).energy, 12);
}

#[test]
fn distances_in_whole_units() {
    let d2 = distance_squared(Position::new(0, 0), Position::new(3_000, 4_000));
    assert_eq!(d2, 25_000_000);
    assert_eq!(whole_distance(d2), 5);
    assert_eq!(whole_distance(24_999_999), 4);
    assert_eq!(whole_distance(0), 0);
    assert_eq!(isqrt(24), 4);
    assert_eq!(isqrt(25), 5);
    assert_eq!(isqrt(2_156_800_000_000), 1_468_604);
}

#[test]
fn nearest_picks_closest_of_category() {
    let foods = vec![sugar(0, 0), apple(50_000, 0), apple(20_000, 0), apple(20_000, 0)];
    let p = Position::new(0, 0);
    assert_eq!(nearest_of_kind(p, &foods, FoodKind::Apple), Some(2));
    assert_eq!(nearest_of_kind(p, &foods, FoodKind::Sugar), Some(0));
    assert_eq!(nearest_of_kind(p, &vec![sugar(1, 1)], FoodKind::Apple), None);
}

#[test]
fn debounce_table() {
    assert_eq!(debounce(false, true), (true, true));
    assert_eq!(debounce(true, true), (true, false));
    assert_eq!(debounce(true, false), (false, false));
    assert_eq!(debounce(false, false), (false, false));
}

#[test]
fn near_apple_fires_once_per_entry() {
    let mut g = world(vec![ant_at(100_000, 100_000)], vec![apple(105_000, 100_000)]);
    let mut fired = 0;
    for _ in 0..20 {
        let events = g.check_proximity();
        for e in &events {
            assert_eq!(e.kind, FoodKind::Apple);
            assert_eq!(e.ant, 0);
            assert_eq!(e.distance, 5);
            assert_eq!(e.this.energy, 50);
            assert_eq!(e.food, Position::new(105_000, 100_000));
            assert_eq!(e.from, Position::new(100_000, 100_000));
        }
        fired += events.len();
    }
    assert_eq!(fired, 1);
    assert!(g.ants[0].seen.apple);
    // leave the range: the marker clears, no event
    g.ants[0].position = Position::new(100_000 - 6_000, 100_000);
    assert!(g.check_proximity().is_empty());
    assert!(!g.ants[0].seen.apple);
    // come back: it fires again
    g.ants[0].position = Position::new(100_000, 100_000);
    assert_eq!(g.check_proximity().len(), 1);
}

#[test]
fn range_border_counts_as_inside() {
    let mut g = world(vec![ant_at(0, 0)], vec![apple(RANGE, 0)]);
    assert_eq!(g.check_proximity().len(), 1);
    let mut g = world(vec![ant_at(0, 0)], vec![apple(RANGE + 1, 0)]);
    assert!(g.check_proximity().is_empty());
}

#[test]
fn clearing_needs_leaving_every_item() {
    let mut g = world(
        vec![ant_at(100_000, 100_000)],
        vec![apple(104_000, 100_000), apple(92_000, 100_000)],
    );
    assert_eq!(g.check_proximity().len(), 1);
    // out of range of the first apple, still within range of the second
    g.ants[0].position = Position::new(93_000, 100_000);
    assert!(g.check_proximity().is_empty());
    assert!(g.ants[0].seen.apple);
    // out of range of both
    g.ants[0].position = Position::new(70_000, 100_000);
    assert!(g.check_proximity().is_empty());
    assert!(!g.ants[0].seen.apple);
}

#[test]
fn marker_is_per_category_not_per_item() {
    let mut g = world(vec![ant_at(100_000, 100_000)], vec![apple(104_000, 100_000)]);
    assert_eq!(g.check_proximity().len(), 1);
    // a second apple within range does not fire while the marker is set
    g.foods.push(apple(100_000, 101_000));
    assert!(g.check_proximity().is_empty());
}

#[test]
fn events_come_per_ant_primary_first() {
    let mut g = world(
        vec![ant_at(0, 0), ant_at(300_000, 300_000), ant_at(600_000, 600_000)],
        vec![sugar(1_000, 0), apple(0, 1_000), sugar(600_000, 601_000)],
    );
    let events = g.check_proximity();
    let keys: Vec<(usize, FoodKind)> = events.iter().map(|e| (e.ant, e.kind)).collect();
    assert_eq!(keys, vec![(0, FoodKind::Apple), (0, FoodKind::Sugar), (2, FoodKind::Sugar)]);
    assert_eq!(events[1].distance, 1);
    assert!(g.ants[0].seen.apple && g.ants[0].seen.sugar);
    assert!(!g.ants[1].seen.apple && !g.ants[1].seen.sugar);
}

#[test]
fn idle_pass_lists_exactly_empty_ants() {
    let mut busy = ant_at(0, 0);
    busy.commands.push(Command::Move(3));
    let g = world(vec![ant_at(0, 0), busy, ant_at(5, 5)], vec![]);
    assert_eq!(g.idle_ants(), vec![0, 2]);
    let g = world(vec![], vec![]);
    assert!(g.idle_ants().is_empty());
}

#[test]
fn idle_outcome_appends() {
    let mut cmds = vec![Command::Move(1)];
    merge_idle(&mut cmds, Outcome::Returned(vec![Command::Turn(5), Command::Move(2)]));
    assert_eq!(cmds, vec![Command::Move(1), Command::Turn(5), Command::Move(2)]);
    merge_idle(&mut cmds, Outcome::Absent);
    merge_idle(&mut cmds, Outcome::Faulted);
    assert_eq!(cmds.len(), 3);
}

#[test]
fn near_outcome_replaces_when_not_empty() {
    let mut cmds = vec![Command::Move(1), Command::Turn(2)];
    merge_near(&mut cmds, Outcome::Returned(vec![]));
    assert_eq!(cmds, vec![Command::Move(1), Command::Turn(2)]);
    merge_near(&mut cmds, Outcome::Faulted);
    merge_near(&mut cmds, Outcome::Absent);
    assert_eq!(cmds.len(), 2);
    merge_near(&mut cmds, Outcome::Returned(vec![Command::TurnTo(9)]));
    assert_eq!(cmds, vec![Command::TurnTo(9)]);
}

#[test]
fn apply_touches_only_one_ant() {
    let mut g = world(vec![ant_at(0, 0), ant_at(1, 1)], vec![]);
    g.apply_idle(1, Outcome::Returned(vec![Command::Move(4)]));
    assert!(g.ants[0].commands.is_empty());
    assert_eq!(g.ants[1].commands, vec![Command::Move(4)]);
    g.apply_near(1, Outcome::Returned(vec![Command::Turn(1)]));
    assert_eq!(g.ants[1].commands, vec![Command::Turn(1)]);
}

#[test]
fn new_world_seeds_sugar_inside() {
    let g = GameState::new(config(5, 10), StdRng::seed_from_u64(1));
    assert_eq!(g.tick, 0);
    assert!(g.ants.is_empty());
    assert!(g.spawn.x >= 0 && g.spawn.x < 1280 * SCALE);
    assert!(g.spawn.y >= 0 && g.spawn.y < 720 * SCALE);
    assert_eq!(g.foods.len(), 5);
    for f in &g.foods {
        assert_eq!(f.kind, FoodKind::Sugar);
        assert!(f.position.x >= 0 && f.position.x < 1280 * SCALE);
        assert!(f.position.y >= 0 && f.position.y < 720 * SCALE);
    }
    let xs: std::collections::BTreeSet<i64> = g.foods.iter().map(|f| f.position.x).collect();
    assert!(xs.len() > 1);
}

#[test]
fn decay_removes_spent_ants_in_order() {
    let mut a = ant_at(0, 0);
    a.energy = Energy(0);
    let mut b = ant_at(1, 0);
    b.energy = Energy(2);
    let mut c = ant_at(2, 0);
    c.energy = Energy(1);
    let mut g = world(vec![a, b, c], vec![]);
    g.decay();
    assert_eq!(g.ants.len(), 2);
    assert_eq!(g.ants[0].energy, Energy(1));
    assert_eq!(g.ants[1].energy, Energy(0));
    g.decay();
    assert_eq!(g.ants.len(), 1);
    assert_eq!(g.ants[0].position, Position::new(1, 0));
}

#[test]
fn ants_and_apples_spawn_on_schedule() {
    let mut g = world(vec![], vec![]);
    for _ in 0..99 {
        g.begin_tick();
    }
    assert!(g.ants.is_empty());
    g.begin_tick();
    assert_eq!(g.tick, 100);
    assert_eq!(g.ants.len(), 1);
    assert_eq!(g.ants[0].position, g.spawn);
    assert_eq!(g.ants[0].energy, Energy(10));
    assert!(g.foods.is_empty());
    for _ in 0..900 {
        g.begin_tick();
    }
    assert_eq!(g.tick, 1000);
    assert_eq!(g.foods.len(), 1);
    assert_eq!(g.foods[0].kind, FoodKind::Apple);
    assert!(g.foods[0].position.x >= 0 && g.foods[0].position.x < 1280 * SCALE);
    assert!(g.foods[0].position.y >= 0 && g.foods[0].position.y < 720 * SCALE);
}

#[test]
fn execute_runs_each_ant_one_tick() {
    let mut a = ant_at(0, 0);
    a.commands = vec![Command::Move(2)];
    let mut b = ant_at(100, 100);
    b.commands = vec![Command::Turn(90_000)];
    let mut g = world(vec![a, b, ant_at(7, 7)], vec![]);
    g.execute(&vec![(2_000, 0), (0, 0), (2_000, 0)]);
    assert_eq!(g.ants[0].position, Position::new(2_000, 0));
    assert_eq!(g.ants[0].commands, vec![Command::Move(1)]);
    assert_eq!(g.ants[1].orientation, Orientation(90_000));
    assert_eq!(g.ants[2].position, Position::new(7, 7));
}

#[test]
fn idle_fires_only_when_list_empty_at_tick_start() {
    let mut g = world(vec![ant_at(10_000, 10_000)], vec![]);
    assert_eq!(g.idle_ants(), vec![0]);
    g.apply_idle(0, Outcome::Returned(vec![Command::Move(2)]));
    let mut idle_ticks = Vec::new();
    for t in 0..5 {
        if !g.idle_ants().is_empty() {
            idle_ticks.push(t);
        }
        g.execute(&vec![(2_000, 0)]);
    }
    // Move(2): two moving ticks, one tick to drop it, then idle
    assert_eq!(idle_ticks, vec![3, 4]);
}
