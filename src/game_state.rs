//! The world and the phases of one tick: energy decay and spawning, the idle
//! pass, the proximity pass and the command pass. Script invocations happen
//! between the phases, outside the library, and come back as `Outcome`s.

use vstd::prelude::*;

use rand::rngs::StdRng;

use crate::bridge::{after_idle, after_near, merge_idle, merge_near, AntState, NearEvent, Outcome};
use crate::capability::draw_in;
use crate::common::{HEIGHT, WIDTH};
use crate::components::{
    pos_of, step, step_vector_ok, Ant, AntView, Energy, FoodKind, Position, Seen,
};
use crate::config::Config;
use crate::perception::{
    dist_sq, fires, foods_inside, is_nearest, perceived_all, Food,
};
use crate::common::SCALE;

verus! {

/// Ticks between two ant spawns.
pub const ANT_PERIOD: u64 = 100;

/// Ticks between two apple spawns.
pub const APPLE_PERIOD: u64 = 1000;

/// The views of a list of ants.
pub open spec fn views(s: Seq<Ant>) -> Seq<AntView> {
    s.map_values(|a: Ant| a@)
}

/// The ants left after one tick of energy decay, in their order: an ant
/// with energy left loses one unit, an ant with none is removed.
pub open spec fn survivors(s: Seq<AntView>) -> Seq<AntView>
    decreases s.len(),
{
    if s.len() == 0 {
        s
    } else {
        let rest = survivors(s.drop_last());
        let a = s.last();
        if a.energy > 0 {
            rest.push(AntView { energy: (a.energy - 1) as nat, ..a })
        } else {
            rest
        }
    }
}

/// A newly spawned ant.
pub open spec fn fresh_ant(energy: u32, at: Position) -> AntView {
    AntView {
        energy: energy as nat,
        x: at.x as int,
        y: at.y as int,
        orientation: 0,
        commands: Seq::empty(),
        seen: Seen { apple: false, sugar: false },
    }
}

/// Orders events by ant, then primary category before secondary.
pub open spec fn event_key(e: NearEvent) -> int {
    2 * e.ant + if e.kind == FoodKind::Apple { 0int } else { 1int }
}

/// `e` is the event owed to ant `a` for category `e.kind`: it fires, it
/// carries the ant's energy and place, and the nearest food of the category
/// with its distance in whole units rounded down.
pub open spec fn event_for(e: NearEvent, a: AntView, foods: Seq<Food>) -> bool {
    &&& fires(a, foods, e.kind)
    &&& e.this.energy == a.energy
    &&& e.from == pos_of(a)
    &&& exists|j: int| #[trigger] is_nearest(e.from, foods, e.kind, j) && foods[j].position == e.food
    &&& (e.distance * SCALE) * (e.distance * SCALE) <= dist_sq(e.from, e.food)
    &&& dist_sq(e.from, e.food) < ((e.distance + 1) * SCALE) * ((e.distance + 1) * SCALE)
}

/// The events of the proximity pass over `ants`: one for each ant and
/// category that fires, and no other, in key order.
pub open spec fn events_of(events: Seq<NearEvent>, ants: Seq<AntView>, foods: Seq<Food>) -> bool {
    &&& forall|m: int| 0 <= m < events.len() ==> {
        &&& (#[trigger] events[m]).ant < ants.len()
        &&& event_for(events[m], ants[events[m].ant as int], foods)
    }
    &&& forall|m: int, q: int| 0 <= m < q < events.len() ==> event_key(#[trigger] events[m]) < event_key(#[trigger] events[q])
    &&& forall|i: int, k: FoodKind| 0 <= i < ants.len() && #[trigger] fires(ants[i], foods, k)
            ==> exists|m: int| 0 <= m < events.len() && (#[trigger] events[m]).ant == i && events[m].kind == k
}

/// A point drawn uniformly from the world, borders excluded on the far side.
pub fn random_position(rng: &mut StdRng) -> (r: Position)
    ensures
        0 <= r.x < WIDTH,
        0 <= r.y < HEIGHT,
{
    let x = draw_in(rng, 0, WIDTH);
    let y = draw_in(rng, 0, HEIGHT);
    Position::new(x, y)
}

/// The whole simulation.
pub struct GameState {
    /// Ticks run so far.
    pub tick: u64,
    pub config: Config,
    pub ants: Vec<Ant>,
    pub foods: Vec<Food>,
    /// Where new ants appear.
    pub spawn: Position,
    pub rng: StdRng,
}

impl GameState {
    /// Every ant and food source inside the world, every heading normalized.
    pub open spec fn wf(&self) -> bool {
        &&& forall|i: int| 0 <= i < self.ants@.len() ==> (#[trigger] self.ants@[i]).wf()
        &&& foods_inside(self.foods@)
        &&& self.spawn.inside()
    }

    /// A world at tick 0 with no ants, a random spawn point and as many sugar
    /// hills as the settings ask for, each at a random point.
    pub fn new(config: Config, rng: StdRng) -> (r: GameState)
        ensures
            r.wf(),
            r.tick == 0,
            r.config == config,
            r.ants@.len() == 0,
            r.foods@.len() == config.general.sugar_hills,
            forall|j: int| 0 <= j < r.foods@.len() ==> (#[trigger] r.foods@[j]).kind == FoodKind::Sugar,
            0 <= r.spawn.x < WIDTH,
            0 <= r.spawn.y < HEIGHT,
            forall|j: int| 0 <= j < r.foods@.len() ==> {
                &&& 0 <= (#[trigger] r.foods@[j]).position.x < WIDTH
                &&& 0 <= r.foods@[j].position.y < HEIGHT
            },
    {
        let mut rng = rng;
        let spawn = random_position(&mut rng);
        let mut foods: Vec<Food> = Vec::new();
        let n = config.general.sugar_hills;
        let mut i: u8 = 0;
        while i < n
            invariant
                i <= n,
                foods@.len() == i,
                foods_inside(foods@),
                forall|j: int| 0 <= j < foods@.len() ==> (#[trigger] foods@[j]).kind == FoodKind::Sugar,
                forall|j: int| 0 <= j < foods@.len() ==> {
                    &&& 0 <= (#[trigger] foods@[j]).position.x < WIDTH
                    &&& 0 <= foods@[j].position.y < HEIGHT
                },
            decreases n - i,
        {
            let at = random_position(&mut rng);
            foods.push(Food { kind: FoodKind::Sugar, position: at });
            i += 1;
        }
        GameState { tick: 0, config, ants: Vec::new(), foods, spawn, rng }
    }

    /// Energy decay: each ant with energy left loses one unit, each ant with
    /// none is removed; the others keep their order.
    pub fn decay(&mut self)
        requires
            old(self).wf(),
        ensures
            final(self).wf(),
            views(final(self).ants@) == survivors(views(old(self).ants@)),
            final(self).tick == old(self).tick,
            final(self).config == old(self).config,
            final(self).foods@ == old(self).foods@,
            final(self).spawn == old(self).spawn,
    {
        let ghost orig = views(self.ants@);
        let mut rest: Vec<Ant> = Vec::new();
        std::mem::swap(&mut rest, &mut self.ants);
        let ghost n = rest@.len();
        assert(rest@.len() == rest.len());
        assert(orig.skip(0) =~= orig);
        assert(survivors(orig.take(0)) =~= Seq::<AntView>::empty());
        let mut k: usize = 0;
        while rest.len() > 0
            invariant
                k + rest@.len() == n,
                n == orig.len(),
                n <= usize::MAX,
                self.tick == old(self).tick,
                self.config == old(self).config,
                self.foods@ == old(self).foods@,
                self.spawn == old(self).spawn,
                foods_inside(self.foods@),
                self.spawn.inside(),
                views(rest@) == orig.skip(k as int),
                views(self.ants@) == survivors(orig.take(k as int)),
                forall|i: int| 0 <= i < rest@.len() ==> (#[trigger] rest@[i]).wf(),
                forall|i: int| 0 <= i < self.ants@.len() ==> (#[trigger] self.ants@[i]).wf(),
            decreases rest@.len(),
        {
            let ghost before = rest@;
            let mut a = rest.remove(0);
            proof {
                assert(a@ == orig[k as int]) by {
                    assert(views(before)[0] == before[0]@);
                }
                assert(orig.take(k + 1).drop_last() =~= orig.take(k as int));
                assert(views(rest@) =~= orig.skip(k + 1)) by {
                    assert forall|i: int| 0 <= i < rest@.len() implies views(rest@)[i] == orig.skip(k + 1)[i] by {
                        assert(rest@[i] == before[i + 1]);
                        assert(views(before)[i + 1] == before[i + 1]@);
                    }
                }
                assert(forall|i: int| 0 <= i < rest@.len() ==> rest@[i] == before[i + 1]);
            }
            if a.energy.0 > 0 {
                a.energy = Energy(a.energy.0 - 1);
                self.ants.push(a);
                proof {
                    assert(views(self.ants@) =~= survivors(orig.take(k as int)).push(a@));
                }
            }
            k += 1;
        }
        proof {
            assert(orig.take(n as int) =~= orig);
        }
    }

    /// Starts a tick: advances the counter, applies energy decay, spawns an
    /// ant at the spawn point every `ANT_PERIOD` ticks and an apple at a
    /// random point every `APPLE_PERIOD` ticks.
    pub fn begin_tick(&mut self)
        requires
            old(self).wf(),
            old(self).tick < u64::MAX,
        ensures
            final(self).wf(),
            final(self).tick == old(self).tick + 1,
            final(self).config == old(self).config,
            final(self).spawn == old(self).spawn,
            views(final(self).ants@) == if final(self).tick % ANT_PERIOD == 0 {
                survivors(views(old(self).ants@)).push(fresh_ant(old(self).config.general.base_energy, old(self).spawn))
            } else {
                survivors(views(old(self).ants@))
            },
            final(self).tick % APPLE_PERIOD != 0 ==> final(self).foods@ == old(self).foods@,
            final(self).tick % APPLE_PERIOD == 0 ==> {
                &&& final(self).foods@.len() == old(self).foods@.len() + 1
                &&& final(self).foods@.drop_last() == old(self).foods@
                &&& final(self).foods@.last().kind == FoodKind::Apple
                &&& 0 <= final(self).foods@.last().position.x < WIDTH
                &&& 0 <= final(self).foods@.last().position.y < HEIGHT
            },
    {
        self.tick = self.tick + 1;
        self.decay();
        if self.tick % ANT_PERIOD == 0 {
            let a = Ant::new(&self.config, self.spawn);
            let ghost before = self.ants@;
            self.ants.push(a);
            proof {
                assert(views(self.ants@) =~= views(before).push(a@));
            }
        }
        if self.tick % APPLE_PERIOD == 0 {
            let at = random_position(&mut self.rng);
            let ghost before = self.foods@;
            self.foods.push(Food { kind: FoodKind::Apple, position: at });
            assert(self.foods@.drop_last() =~= before);
        }
    }

    /// The idle pass: the indices, in increasing order, of exactly the ants
    /// with no command left.
    pub fn idle_ants(&self) -> (r: Vec<usize>)
        ensures
            forall|m: int, q: int| 0 <= m < q < r@.len() ==> r@[m] < r@[q],
            forall|m: int| 0 <= m < r@.len() ==> (#[trigger] r@[m]) < self.ants@.len(),
            forall|i: int| 0 <= i < self.ants@.len() ==> (
                (self.ants@[i]@.commands.len() == 0) <==> r@.contains(i as usize)),
    {
        let mut r: Vec<usize> = Vec::new();
        let mut i: usize = 0;
        while i < self.ants.len()
            invariant
                i <= self.ants@.len(),
                forall|m: int, q: int| 0 <= m < q < r@.len() ==> r@[m] < r@[q],
                forall|m: int| 0 <= m < r@.len() ==> (#[trigger] r@[m]) < i,
                forall|j: int| 0 <= j < i ==> (
                    (self.ants@[j]@.commands.len() == 0) <==> r@.contains(j as usize)),
            decreases self.ants@.len() - i,
        {
            let ghost before = r@;
            if self.ants[i].is_idle() {
                r.push(i);
                assert(r@[r@.len() - 1] == i);
            }
            proof {
                assert forall|j: int| 0 <= j <= i implies (
                    (self.ants@[j]@.commands.len() == 0) <==> r@.contains(j as usize)) by {
                    if j < i {
                        if before.contains(j as usize) {
                            let m = choose|m: int| 0 <= m < before.len() && before[m] == j as usize;
                            assert(r@[m] == j as usize);
                        }
                        if r@.contains(j as usize) {
                            let m = choose|m: int| 0 <= m < r@.len() && r@[m] == j as usize;
                            assert(m < before.len());
                            assert(before[m] == j as usize);
                        }
                    } else if r@.contains(j as usize) {
                        let m = choose|m: int| 0 <= m < r@.len() && r@[m] == j as usize;
                        assert(m == before.len());
                    }
                }
            }
            i += 1;
        }
        r
    }

    /// Folds the outcome of ant `i`'s idle invocation into its commands.
    pub fn apply_idle(&mut self, i: usize, outcome: Outcome)
        requires
            old(self).wf(),
            i < old(self).ants@.len(),
        ensures
            final(self).wf(),
            views(final(self).ants@) == views(old(self).ants@).update(
                i as int,
                AntView { commands: after_idle(old(self).ants@[i as int]@.commands, &outcome), ..old(self).ants@[i as int]@ },
            ),
            final(self).tick == old(self).tick,
            final(self).config == old(self).config,
            final(self).foods@ == old(self).foods@,
            final(self).spawn == old(self).spawn,
    {
        let ghost o = outcome;
        merge_idle(&mut self.ants[i].commands, outcome);
        assert(views(self.ants@) =~= views(old(self).ants@).update(
            i as int,
            AntView { commands: after_idle(old(self).ants@[i as int]@.commands, &o), ..old(self).ants@[i as int]@ },
        ));
    }

    /// Folds the outcome of ant `i`'s proximity invocation into its commands.
    pub fn apply_near(&mut self, i: usize, outcome: Outcome)
        requires
            old(self).wf(),
            i < old(self).ants@.len(),
        ensures
            final(self).wf(),
            views(final(self).ants@) == views(old(self).ants@).update(
                i as int,
                AntView { commands: after_near(old(self).ants@[i as int]@.commands, &outcome), ..old(self).ants@[i as int]@ },
            ),
            final(self).tick == old(self).tick,
            final(self).config == old(self).config,
            final(self).foods@ == old(self).foods@,
            final(self).spawn == old(self).spawn,
    {
        let ghost o = outcome;
        merge_near(&mut self.ants[i].commands, outcome);
        assert(views(self.ants@) =~= views(old(self).ants@).update(
            i as int,
            AntView { commands: after_near(old(self).ants@[i as int]@.commands, &o), ..old(self).ants@[i as int]@ },
        ));
    }

    /// The command pass: ant `i` runs one tick of its commands, with
    /// `steps[i]` the step vector of its current heading.
    pub fn execute(&mut self, steps: &Vec<(i64, i64)>)
        requires
            old(self).wf(),
            steps@.len() == old(self).ants@.len(),
            forall|i: int| 0 <= i < steps@.len() ==> step_vector_ok((#[trigger] steps@[i]).0 as int, steps@[i].1 as int),
        ensures
            final(self).wf(),
            final(self).ants@.len() == old(self).ants@.len(),
            forall|i: int| 0 <= i < final(self).ants@.len() ==> (#[trigger] final(self).ants@[i])@
                == step(old(self).ants@[i]@, steps@[i].0 as int, steps@[i].1 as int),
            final(self).tick == old(self).tick,
            final(self).config == old(self).config,
            final(self).foods@ == old(self).foods@,
            final(self).spawn == old(self).spawn,
    {
        let mut i: usize = 0;
        while i < self.ants.len()
            invariant
                i <= self.ants@.len(),
                self.ants@.len() == old(self).ants@.len(),
                steps@.len() == old(self).ants@.len(),
                forall|j: int| 0 <= j < steps@.len() ==> step_vector_ok((#[trigger] steps@[j]).0 as int, steps@[j].1 as int),
                forall|j: int| 0 <= j < self.ants@.len() ==> (#[trigger] self.ants@[j]).wf(),
                forall|j: int| 0 <= j < i ==> (#[trigger] self.ants@[j])@
                    == step(old(self).ants@[j]@, steps@[j].0 as int, steps@[j].1 as int),
                forall|j: int| i <= j < self.ants@.len() ==> #[trigger] self.ants@[j] == old(self).ants@[j],
                self.tick == old(self).tick,
                self.config == old(self).config,
                self.foods@ == old(self).foods@,
                self.spawn == old(self).spawn,
                foods_inside(self.foods@),
                self.spawn.inside(),
            decreases self.ants@.len() - i,
        {
            let (dx, dy) = steps[i];
            self.ants[i].step(dx, dy);
            i += 1;
        }
    }

    /// The proximity pass: each ant checks the primary, then the secondary
    /// category; markers follow whether the category is in range, and an
    /// event is returned for each ant and category that came into range.
    pub fn check_proximity(&mut self) -> (r: Vec<NearEvent>)
        requires
            old(self).wf(),
        ensures
            final(self).wf(),
            final(self).ants@.len() == old(self).ants@.len(),
            forall|i: int| 0 <= i < final(self).ants@.len() ==> (#[trigger] final(self).ants@[i])@
                == perceived_all(old(self).ants@[i]@, old(self).foods@),
            events_of(r@, views(old(self).ants@), old(self).foods@),
            final(self).tick == old(self).tick,
            final(self).config == old(self).config,
            final(self).foods@ == old(self).foods@,
            final(self).spawn == old(self).spawn,
    {
        let ghost olds = views(self.ants@);
        let ghost fs = self.foods@;
        let mut events: Vec<NearEvent> = Vec::new();
        let mut i: usize = 0;
        while i < self.ants.len()
            invariant
                i <= self.ants@.len(),
                self.ants@.len() == old(self).ants@.len(),
                olds == views(old(self).ants@),
                fs == self.foods@,
                forall|j: int| 0 <= j < self.ants@.len() ==> (#[trigger] self.ants@[j]).wf(),
                forall|j: int| 0 <= j < i ==> (#[trigger] self.ants@[j])@ == perceived_all(old(self).ants@[j]@, fs),
                forall|j: int| i <= j < self.ants@.len() ==> #[trigger] self.ants@[j] == old(self).ants@[j],
                forall|m: int| 0 <= m < events@.len() ==> {
                    &&& (#[trigger] events@[m]).ant < i
                    &&& event_for(events@[m], olds[events@[m].ant as int], fs)
                },
                forall|m: int, q: int| 0 <= m < q < events@.len() ==> event_key(#[trigger] events@[m]) < event_key(#[trigger] events@[q]),
                forall|j: int, k: FoodKind| 0 <= j < i && #[trigger] fires(olds[j], fs, k)
                    ==> exists|m: int| 0 <= m < events@.len() && (#[trigger] events@[m]).ant == j && events@[m].kind == k,
                self.tick == old(self).tick,
                self.config == old(self).config,
                self.foods@ == old(self).foods@,
                self.spawn == old(self).spawn,
                foods_inside(self.foods@),
                self.spawn.inside(),
            decreases self.ants@.len() - i,
        {
            assert(olds[i as int] == self.ants@[i as int]@);
            let energy = self.ants[i].energy.0;
            let from = self.ants[i].position;
            let ghost before = events@;
            match self.ants[i].perceive(&self.foods, FoodKind::Apple) {
                Some(s) => {
                    let f = self.foods[s.food].position;
                    events.push(NearEvent {
                        ant: i,
                        kind: FoodKind::Apple,
                        this: AntState::new(energy),
                        distance: s.distance,
                        from,
                        food: f,
                    });
                    assert(is_nearest(from, fs, FoodKind::Apple, s.food as int));
                    assert(pos_of(olds[i as int]) == from);
                    assert(event_for(events@.last(), olds[i as int], fs));
                },
                None => {},
            }
            let ghost mid = events@;
            match self.ants[i].perceive(&self.foods, FoodKind::Sugar) {
                Some(s) => {
                    let f = self.foods[s.food].position;
                    events.push(NearEvent {
                        ant: i,
                        kind: FoodKind::Sugar,
                        this: AntState::new(energy),
                        distance: s.distance,
                        from,
                        food: f,
                    });
                    assert(is_nearest(from, fs, FoodKind::Sugar, s.food as int));
                    assert(pos_of(olds[i as int]) == from);
                    assert(event_for(events@.last(), olds[i as int], fs));
                },
                None => {},
            }
            proof {
                assert forall|j: int, k: FoodKind| 0 <= j <= i && #[trigger] fires(olds[j], fs, k)
                    implies exists|m: int| 0 <= m < events@.len() && (#[trigger] events@[m]).ant == j && events@[m].kind == k by {
                    if j < i {
                        let m = choose|m: int| 0 <= m < before.len() && (#[trigger] before[m]).ant == j && before[m].kind == k;
                        assert(events@[m] == before[m]);
                    } else if k == FoodKind::Apple {
                        assert(events@[before.len() as int] == mid[before.len() as int]);
                    } else {
                        assert(events@[mid.len() as int].ant == j);
                    }
                }
            }
            i += 1;
        }
        events
    }
}

} // verus!
