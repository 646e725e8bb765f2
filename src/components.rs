//! The pieces an ant or a food source is made of.

use vstd::prelude::*;

use crate::common::{
    norm_angle, normalize_angle, turned, Command, CommandList, FULL_TURN, HALF_TURN, HEIGHT,
    STEP_SIZE, WIDTH,
};
use crate::config::Config;

verus! {

/// What an ant has left to live on; it loses one unit per tick.
#[derive(Debug, Clone, Copy, PartialEq, Eq, Structural)]
pub struct Energy(pub u32);

impl Energy {
    /// The energy of a newly spawned ant.
    pub fn new(conf: &Config) -> (r: Self)
        ensures
            r.0 == conf.general.base_energy,
    {
        Energy(conf.general.base_energy)
    }
}

/// Marks a food source of the primary category.
#[derive(Debug, Clone, Copy, PartialEq, Eq, Structural)]
pub struct Apple;

/// Marks a food source of the secondary category.
#[derive(Debug, Clone, Copy, PartialEq, Eq, Structural)]
pub struct Sugar;

/// How much food a source holds.
#[derive(Debug, Clone, Copy, PartialEq, Eq, Structural)]
pub struct Amount(pub u32);

/// The two food categories.
#[derive(Debug, Clone, Copy, PartialEq, Eq, Structural)]
pub enum FoodKind {
    Apple,
    Sugar,
}

impl Apple {
    /// The category this marker stands for.
    pub fn kind(&self) -> (r: FoodKind)
        ensures
            r == FoodKind::Apple,
    {
        FoodKind::Apple
    }
}

impl Sugar {
    /// The category this marker stands for.
    pub fn kind(&self) -> (r: FoodKind)
        ensures
            r == FoodKind::Sugar,
    {
        FoodKind::Sugar
    }
}

/// For one ant, whether the "near" event has already fired for each food
/// category. The marker is per category, not per food source.
#[derive(Debug, Clone, Copy, PartialEq, Eq, Structural)]
pub struct Seen {
    pub apple: bool,
    pub sugar: bool,
}

impl Seen {
    /// No category seen.
    pub fn new() -> (r: Self)
        ensures
            !r.apple,
            !r.sugar,
    {
        Seen { apple: false, sugar: false }
    }

    pub open spec fn has(self, k: FoodKind) -> bool {
        match k {
            FoodKind::Apple => self.apple,
            FoodKind::Sugar => self.sugar,
        }
    }

    /// These markers with that of category `k` set to `v`.
    pub open spec fn with(self, k: FoodKind, v: bool) -> Seen {
        match k {
            FoodKind::Apple => Seen { apple: v, ..self },
            FoodKind::Sugar => Seen { sugar: v, ..self },
        }
    }

    /// Whether the marker of category `k` is set.
    pub fn get(&self, k: FoodKind) -> (r: bool)
        ensures
            r == self.has(k),
    {
        match k {
            FoodKind::Apple => self.apple,
            FoodKind::Sugar => self.sugar,
        }
    }

    /// Sets the marker of category `k` to `v`, leaving the other as it was.
    pub fn set(&mut self, k: FoodKind, v: bool)
        ensures
            *final(self) == old(self).with(k, v),
            final(self).has(k) == v,
    {
        match k {
            FoodKind::Apple => self.apple = v,
            FoodKind::Sugar => self.sugar = v,
        }
    }
}

/// A point of the world, in sub-units.
#[derive(Debug, Clone, Copy, PartialEq, Eq, Structural)]
pub struct Position {
    pub x: i64,
    pub y: i64,
}

impl Position {
    pub fn new(x: i64, y: i64) -> (r: Self)
        ensures
            r.x == x,
            r.y == y,
    {
        Position { x, y }
    }

    /// Inside the world, borders included.
    pub open spec fn inside(self) -> bool {
        0 <= self.x <= WIDTH && 0 <= self.y <= HEIGHT
    }
}

/// A heading in millidegrees, counter-clockwise from the +X axis.
#[derive(Debug, Clone, Copy, PartialEq, Eq, Structural)]
pub struct Orientation(pub i64);


/// A value moved back into `[0, max]`.
pub open spec fn clamp_axis(v: int, max: int) -> int {
    if v < 0 {
        0
    } else if v > max {
        max
    } else {
        v
    }
}

/// A coordinate that has reached or passed a border of `[0, max]`.
pub open spec fn at_edge(v: int, max: int) -> bool {
    v <= 0 || v >= max
}

/// What the logic knows of an ant.
pub struct AntView {
    pub energy: nat,
    pub x: int,
    pub y: int,
    /// Millidegrees in `[0, FULL_TURN)`.
    pub orientation: int,
    pub commands: Seq<Command>,
    pub seen: Seen,
}

/// One step by `(dx, dy)`: each coordinate is clamped to the world, and a
/// heading that meets a vertical border becomes `180° - heading`, one that
/// meets a horizontal border `360° - heading`, both when both are met.
pub open spec fn moved(a: AntView, dx: int, dy: int) -> AntView {
    let nx = a.x + dx;
    let ny = a.y + dy;
    let o1 = if at_edge(nx, WIDTH as int) {
        norm_angle(HALF_TURN - a.orientation)
    } else {
        a.orientation
    };
    let o2 = if at_edge(ny, HEIGHT as int) {
        norm_angle(FULL_TURN - o1)
    } else {
        o1
    };
    AntView { x: clamp_axis(nx, WIDTH as int), y: clamp_axis(ny, HEIGHT as int), orientation: o2, ..a }
}

/// One tick of the command state machine. `(dx, dy)` is the step vector of
/// the heading the ant has at the start of the tick; it is used only when
/// the first command is a `Move` with steps left.
pub open spec fn step(a: AntView, dx: int, dy: int) -> AntView {
    if a.commands.len() == 0 {
        a
    } else {
        match a.commands[0] {
            Command::Turn(d) => AntView {
                orientation: norm_angle(a.orientation + d),
                commands: a.commands.drop_first(),
                ..a
            },
            Command::TurnTo(t) => AntView {
                orientation: norm_angle(t as int),
                commands: a.commands.drop_first(),
                ..a
            },
            Command::Move(n) => if n == 0 {
                AntView { commands: a.commands.drop_first(), ..a }
            } else {
                AntView {
                    commands: a.commands.update(0, Command::Move((n - 1) as u32)),
                    ..moved(a, dx, dy)
                }
            },
        }
    }
}

/// A step vector no longer than a step along either axis.
pub open spec fn step_vector_ok(dx: int, dy: int) -> bool {
    -STEP_SIZE <= dx <= STEP_SIZE && -STEP_SIZE <= dy <= STEP_SIZE
}

/// An ant.
pub struct Ant {
    pub energy: Energy,
    pub position: Position,
    pub orientation: Orientation,
    pub commands: CommandList,
    pub seen: Seen,
}

impl View for Ant {
    type V = AntView;

    open spec fn view(&self) -> AntView {
        AntView {
            energy: self.energy.0 as nat,
            x: self.position.x as int,
            y: self.position.y as int,
            orientation: self.orientation.0 as int,
            commands: self.commands@,
            seen: self.seen,
        }
    }
}

/// Where an ant stands.
pub open spec fn pos_of(a: AntView) -> Position {
    Position { x: a.x as i64, y: a.y as i64 }
}

/// An ant inside the world with a normalized heading.
pub open spec fn ant_ok(a: AntView) -> bool {
    0 <= a.x <= WIDTH && 0 <= a.y <= HEIGHT && 0 <= a.orientation < FULL_TURN
}

impl Ant {
    pub open spec fn wf(&self) -> bool {
        ant_ok(self@)
    }

    /// A new ant at `at`, facing +X, with the configured energy and nothing to do.
    pub fn new(conf: &Config, at: Position) -> (r: Ant)
        requires
            at.inside(),
        ensures
            r.wf(),
            r@ == (AntView {
                energy: conf.general.base_energy as nat,
                x: at.x as int,
                y: at.y as int,
                orientation: 0,
                commands: Seq::empty(),
                seen: Seen { apple: false, sugar: false },
            }),
    {
        Ant {
            energy: Energy::new(conf),
            position: at,
            orientation: Orientation(0),
            commands: Vec::new(),
            seen: Seen::new(),
        }
    }

    /// Whether the ant has nothing left to do.
    pub fn is_idle(&self) -> (r: bool)
        ensures
            r == (self@.commands.len() == 0),
    {
        self.commands.len() == 0
    }

    /// Turns by `angle` millidegrees; the heading stays in `[0, FULL_TURN)`.
    pub fn turn(&mut self, angle: i64)
        requires
            old(self).wf(),
        ensures
            final(self).wf(),
            final(self)@ == (AntView { orientation: norm_angle(old(self)@.orientation + angle), ..old(self)@ }),
    {
        self.orientation = Orientation(turned(self.orientation.0, angle));
    }

    /// Turns to the heading `angle` millidegrees, normalized.
    pub fn turn_to(&mut self, angle: i64)
        requires
            old(self).wf(),
        ensures
            final(self).wf(),
            final(self)@ == (AntView { orientation: norm_angle(angle as int), ..old(self)@ }),
    {
        self.orientation = Orientation(normalize_angle(angle));
    }

    /// Takes one step by `(dx, dy)`, clamped to the world and reflected at
    /// its borders.
    pub fn do_move(&mut self, dx: i64, dy: i64)
        requires
            old(self).wf(),
            step_vector_ok(dx as int, dy as int),
        ensures
            final(self).wf(),
            final(self)@ == moved(old(self)@, dx as int, dy as int),
    {
        let nx = self.position.x + dx;
        let ny = self.position.y + dy;
        if nx <= 0 || nx >= WIDTH {
            self.orientation = Orientation(normalize_angle(HALF_TURN - self.orientation.0));
        }
        if ny <= 0 || ny >= HEIGHT {
            self.orientation = Orientation(normalize_angle(FULL_TURN - self.orientation.0));
        }
        self.position = Position {
            x: if nx < 0 { 0 } else if nx > WIDTH { WIDTH } else { nx },
            y: if ny < 0 { 0 } else if ny > HEIGHT { HEIGHT } else { ny },
        };
    }

    /// One tick of the command state machine: a turn is applied and dropped;
    /// a walk with steps left moves one step and counts down; a spent walk is
    /// dropped without moving; with no command nothing happens.
    pub fn step(&mut self, dx: i64, dy: i64)
        requires
            old(self).wf(),
            step_vector_ok(dx as int, dy as int),
        ensures
            final(self).wf(),
            final(self)@ == step(old(self)@, dx as int, dy as int),
    {
        if self.commands.len() == 0 {
            return;
        }
        match self.commands[0] {
            Command::Turn(d) => {
                self.turn(d);
                self.commands.remove(0);
            },
            Command::TurnTo(t) => {
                self.turn_to(t);
                self.commands.remove(0);
            },
            Command::Move(n) => {
                if n == 0 {
                    self.commands.remove(0);
                } else {
                    self.do_move(dx, dy);
                    self.commands.set(0, Command::Move(n - 1));
                }
            },
        }
    }
}

/// The ant after one tick per step vector of `ds`, in order.
pub open spec fn run(a: AntView, ds: Seq<(int, int)>) -> AntView
    decreases ds.len(),
{
    if ds.len() == 0 {
        a
    } else {
        let d = ds.last();
        step(run(a, ds.drop_last()), d.0, d.1)
    }
}

/// Turning by any angle, from any heading, leaves a heading in `[0°, 360°)`:
/// the old heading plus the angle, normalized.
pub proof fn lemma_turn_normalized(a: AntView, d: i64, dx: int, dy: int)
    requires
        a.commands.len() > 0,
        a.commands[0] == Command::Turn(d),
    ensures
        0 <= step(a, dx, dy).orientation < FULL_TURN,
        step(a, dx, dy).orientation == norm_angle(a.orientation + d),
{
}

/// The commands while a walk of `n` steps counts down.
proof fn lemma_countdown(a: AntView, n: u32, ds: Seq<(int, int)>, k: int)
    requires
        a.commands.len() > 0,
        a.commands[0] == Command::Move(n),
        ds.len() == n,
        0 <= k <= n,
    ensures
        run(a, ds.take(k)).commands == a.commands.update(0, Command::Move((n - k) as u32)),
    decreases k,
{
    if k == 0 {
        assert(ds.take(0) =~= Seq::<(int, int)>::empty());
        assert(a.commands.update(0, Command::Move(n)) =~= a.commands);
    } else {
        lemma_countdown(a, n, ds, k - 1);
        assert(ds.take(k).drop_last() =~= ds.take(k - 1));
        assert(a.commands.update(0, Command::Move((n - (k - 1)) as u32)).update(0, Command::Move((n - k) as u32))
            =~= a.commands.update(0, Command::Move((n - k) as u32)));
    }
}

/// A walk of `n` steps moves the ant on each of its first `n` ticks, by
/// the step vector of that tick, and counts down to zero; on the tick after
/// it is dropped without moving.
pub proof fn lemma_move_budget(a: AntView, n: u32, ds: Seq<(int, int)>, dx: int, dy: int)
    requires
        a.commands.len() > 0,
        a.commands[0] == Command::Move(n),
        ds.len() == n,
    ensures
        forall|k: int| 0 <= k < n ==> {
            let before = #[trigger] run(a, ds.take(k));
            let after = run(a, ds.take(k + 1));
            &&& after.x == moved(before, ds[k].0, ds[k].1).x
            &&& after.y == moved(before, ds[k].0, ds[k].1).y
            &&& after.orientation == moved(before, ds[k].0, ds[k].1).orientation
        },
        run(a, ds).commands == a.commands.update(0, Command::Move(0)),
        step(run(a, ds), dx, dy) == (AntView { commands: a.commands.drop_first(), ..run(a, ds) }),
{
    assert forall|k: int| 0 <= k < n implies {
        let before = #[trigger] run(a, ds.take(k));
        let after = run(a, ds.take(k + 1));
        &&& after.x == moved(before, ds[k].0, ds[k].1).x
        &&& after.y == moved(before, ds[k].0, ds[k].1).y
        &&& after.orientation == moved(before, ds[k].0, ds[k].1).orientation
    } by {
        lemma_countdown(a, n, ds, k);
        assert(ds.take(k + 1).drop_last() =~= ds.take(k));
        assert(ds.take(k + 1).last() == ds[k]);
    }
    lemma_countdown(a, n, ds, n as int);
    assert(ds.take(n as int) =~= ds);
    assert(a.commands.update(0, Command::Move(0)).drop_first() =~= a.commands.drop_first());
}

/// A step that reaches or passes the left or right border, while staying
/// strictly between the others, clamps X to that border and turns the
/// heading into `180° - heading`.
pub proof fn lemma_reflect_x(a: AntView, n: u32, dx: int, dy: int)
    requires
        ant_ok(a),
        a.commands.len() > 0,
        a.commands[0] == Command::Move(n),
        n > 0,
        a.x + dx >= WIDTH || a.x + dx <= 0,
        0 < a.y + dy < HEIGHT,
    ensures
        step(a, dx, dy).x == if a.x + dx >= WIDTH { WIDTH as int } else { 0 },
        step(a, dx, dy).y == a.y + dy,
        step(a, dx, dy).orientation == norm_angle(HALF_TURN - a.orientation),
{
}

/// A step that reaches or passes the top or bottom border, while staying
/// strictly between the others, clamps Y to that border and turns the
/// heading into `360° - heading`.
pub proof fn lemma_reflect_y(a: AntView, n: u32, dx: int, dy: int)
    requires
        ant_ok(a),
        a.commands.len() > 0,
        a.commands[0] == Command::Move(n),
        n > 0,
        a.y + dy >= HEIGHT || a.y + dy <= 0,
        0 < a.x + dx < WIDTH,
    ensures
        step(a, dx, dy).y == if a.y + dy >= HEIGHT { HEIGHT as int } else { 0 },
        step(a, dx, dy).x == a.x + dx,
        step(a, dx, dy).orientation == norm_angle(FULL_TURN - a.orientation),
{
}

} // verus!
