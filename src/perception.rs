//! Perception: how far an ant is from the food of a category, and the
//! debounce that decides when a "near" event fires.

use vstd::prelude::*;

use crate::common::{HEIGHT, RANGE, SCALE, WIDTH};
use crate::components::{pos_of, Ant, AntView, FoodKind, Position};

verus! {

/// A food source: its category and where it lies. It never moves.
#[derive(Debug, Clone, Copy, PartialEq, Eq, Structural)]
pub struct Food {
    pub kind: FoodKind,
    pub position: Position,
}

/// Squared distance between two points, in squared sub-units.
pub open spec fn dist_sq(a: Position, b: Position) -> int {
    (a.x - b.x) * (a.x - b.x) + (a.y - b.y) * (a.y - b.y)
}

/// Within perception range (the border counts as inside).
pub open spec fn within_range(a: Position, b: Position) -> bool {
    dist_sq(a, b) <= RANGE * RANGE
}

/// Some food of category `k` lies within range of `p`.
pub open spec fn in_range_of(p: Position, foods: Seq<Food>, k: FoodKind) -> bool {
    exists|j: int| 0 <= j < foods.len() && #[trigger] foods[j].kind == k && within_range(p, foods[j].position)
}

/// Every food source lies inside the world.
pub open spec fn foods_inside(foods: Seq<Food>) -> bool {
    forall|j: int| 0 <= j < foods.len() ==> (#[trigger] foods[j]).position.inside()
}

/// `j` is a food of category `k` no farther from `p` than any other of `k`.
pub open spec fn is_nearest(p: Position, foods: Seq<Food>, k: FoodKind, j: int) -> bool {
    &&& 0 <= j < foods.len()
    &&& foods[j].kind == k
    &&& forall|i: int| 0 <= i < foods.len() && #[trigger] foods[i].kind == k
            ==> dist_sq(p, foods[j].position) <= dist_sq(p, foods[i].position)
}

/// The debounce rule: the marker follows whether the category is in range,
/// and the event fires only on the way in.
pub open spec fn debounced(seen: bool, in_range: bool) -> (bool, bool) {
    (in_range, in_range && !seen)
}

/// Largest squared distance between two points of the world.
pub const MAX_DIST_SQ: u64 = 2_156_800_000_000;

/// Squared distance between two points of the world.
pub fn distance_squared(a: Position, b: Position) -> (r: u64)
    requires
        a.inside(),
        b.inside(),
    ensures
        r as int == dist_sq(a, b),
        r <= MAX_DIST_SQ,
{
    let dx = a.x - b.x;
    let dy = a.y - b.y;
    assert(dx * dx <= WIDTH * WIDTH) by (nonlinear_arith)
        requires -WIDTH <= dx <= WIDTH;
    assert(dy * dy <= HEIGHT * HEIGHT) by (nonlinear_arith)
        requires -HEIGHT <= dy <= HEIGHT;
    assert(0 <= dx * dx && 0 <= dy * dy) by (nonlinear_arith);
    (dx * dx + dy * dy) as u64
}

/// The integer square root: the largest `r` with `r * r <= n`.
pub fn isqrt(n: u64) -> (r: u64)
    requires
        n <= MAX_DIST_SQ,
    ensures
        r * r <= n < (r + 1) * (r + 1),
{
    let mut lo: u64 = 0;
    let mut hi: u64 = 2_000_000;
    assert(n < hi * hi) by (nonlinear_arith)
        requires n <= MAX_DIST_SQ, hi == 2_000_000;
    while lo + 1 < hi
        invariant
            lo < hi <= 2_000_000,
            lo * lo <= n < hi * hi,
        decreases hi - lo,
    {
        let mid = lo + (hi - lo) / 2;
        assert(mid * mid < 4_000_000_000_000) by (nonlinear_arith)
            requires mid < 2_000_000;
        if mid * mid <= n {
            lo = mid;
        } else {
            hi = mid;
        }
    }
    lo
}

/// A squared distance in squared sub-units, as whole world units rounded down.
pub fn whole_distance(d2: u64) -> (r: u32)
    requires
        d2 <= MAX_DIST_SQ,
    ensures
        (r * SCALE) * (r * SCALE) <= d2 < ((r + 1) * SCALE) * ((r + 1) * SCALE),
{
    let s = isqrt(d2);
    assert(s < 2_000_000) by (nonlinear_arith)
        requires s * s <= d2, d2 <= MAX_DIST_SQ;
    let r = s / (SCALE as u64);
    proof {
        vstd::arithmetic::div_mod::lemma_fundamental_div_mod(s as int, 1000);
        vstd::arithmetic::div_mod::lemma_mod_bound(s as int, 1000);
    }
    assert(r * SCALE <= s < (r + 1) * SCALE);
    let ghost rs: int = r * SCALE;
    assert(rs * rs <= s * s) by (nonlinear_arith)
        requires 0 <= rs <= s;
    let ghost t: int = (r + 1) * SCALE;
    assert((s + 1) * (s + 1) <= t * t) by (nonlinear_arith)
        requires 0 <= s + 1 <= t;
    r as u32
}

/// The food of category `k` nearest to `p`, the first of equals; `None`
/// when there is no food of that category.
pub fn nearest_of_kind(p: Position, foods: &Vec<Food>, k: FoodKind) -> (r: Option<usize>)
    requires
        p.inside(),
        foods_inside(foods@),
    ensures
        r is None <==> (forall|i: int| 0 <= i < foods@.len() ==> #[trigger] foods@[i].kind != k),
        r matches Some(j) ==> is_nearest(p, foods@, k, j as int),
        r matches Some(j) ==> forall|i: int| 0 <= i < j && #[trigger] foods@[i].kind == k
            ==> dist_sq(p, foods@[j as int].position) < dist_sq(p, foods@[i].position),
{
    let mut best: Option<usize> = None;
    let mut best_d: u64 = 0;
    let mut i: usize = 0;
    while i < foods.len()
        invariant
            i <= foods@.len(),
            p.inside(),
            foods_inside(foods@),
            best is None <==> (forall|m: int| 0 <= m < i ==> #[trigger] foods@[m].kind != k),
            best matches Some(j) ==> {
                &&& j < i
                &&& foods@[j as int].kind == k
                &&& best_d as int == dist_sq(p, foods@[j as int].position)
                &&& forall|m: int| 0 <= m < i && #[trigger] foods@[m].kind == k
                        ==> best_d as int <= dist_sq(p, foods@[m].position)
                &&& forall|m: int| 0 <= m < j && #[trigger] foods@[m].kind == k
                        ==> (best_d as int) < dist_sq(p, foods@[m].position)
            },
        decreases foods@.len() - i,
    {
        let f = foods[i];
        if f.kind == k {
            let d = distance_squared(p, f.position);
            match best {
                None => {
                    best = Some(i);
                    best_d = d;
                },
                Some(_) => {
                    if d < best_d {
                        best = Some(i);
                        best_d = d;
                    }
                },
            }
        }
        i += 1;
    }
    best
}

/// One debounce decision: returns the new marker and whether the event fires.
pub fn debounce(seen: bool, in_range: bool) -> (r: (bool, bool))
    ensures
        r == debounced(seen, in_range),
{
    (in_range, in_range && !seen)
}

/// What an ant perceived when it came into range of a category.
#[derive(Debug, Clone, Copy, PartialEq, Eq, Structural)]
pub struct Sighting {
    /// Index of the nearest food of the category.
    pub food: usize,
    /// Distance to it, whole world units rounded down.
    pub distance: u32,
}

/// The ant's marker for `k` after one perception check.
pub open spec fn perceived(a: AntView, foods: Seq<Food>, k: FoodKind) -> AntView {
    AntView { seen: a.seen.with(k, debounced(a.seen.has(k), in_range_of(pos_of(a), foods, k)).0), ..a }
}

/// Both perception checks of one ant, primary category first.
pub open spec fn perceived_all(a: AntView, foods: Seq<Food>) -> AntView {
    perceived(perceived(a, foods, FoodKind::Apple), foods, FoodKind::Sugar)
}

/// The "near" event of category `k` fires for this ant.
pub open spec fn fires(a: AntView, foods: Seq<Food>, k: FoodKind) -> bool {
    debounced(a.seen.has(k), in_range_of(pos_of(a), foods, k)).1
}

impl Ant {
    /// One perception check of category `k`: updates the marker and returns
    /// the sighting exactly when the "near" event fires.
    pub fn perceive(&mut self, foods: &Vec<Food>, k: FoodKind) -> (r: Option<Sighting>)
        requires
            old(self).wf(),
            foods_inside(foods@),
        ensures
            final(self).wf(),
            final(self)@ == perceived(old(self)@, foods@, k),
            r is Some <==> debounced(old(self)@.seen.has(k), in_range_of(old(self).position, foods@, k)).1,
            r matches Some(s) ==> {
                &&& is_nearest(old(self).position, foods@, k, s.food as int)
                &&& within_range(old(self).position, foods@[s.food as int].position)
                &&& (s.distance * SCALE) * (s.distance * SCALE)
                        <= dist_sq(old(self).position, foods@[s.food as int].position)
                        < ((s.distance + 1) * SCALE) * ((s.distance + 1) * SCALE)
            },
    {
        let p = self.position;
        let near = nearest_of_kind(p, foods, k);
        let mut hit: Option<Sighting> = None;
        match near {
            Some(j) => {
                let d2 = distance_squared(p, foods[j].position);
                if d2 <= (RANGE * RANGE) as u64 {
                    hit = Some(Sighting { food: j, distance: whole_distance(d2) });
                }
            },
            None => {},
        }
        proof {
            let fs = foods@;
            if hit is None && in_range_of(p, fs, k) {
                let w = choose|w: int| 0 <= w < fs.len() && #[trigger] fs[w].kind == k && within_range(p, fs[w].position);
                assert(fs[w].kind == k);
            }
        }
        let (now, fire) = debounce(self.seen.get(k), hit.is_some());
        self.seen.set(k, now);
        if fire {
            hit
        } else {
            None
        }
    }
}

/// The marker after a series of checks, each saying whether the category
/// was in range, and how many events fired along the way.
pub open spec fn debounce_run(seen: bool, checks: Seq<bool>) -> (bool, nat)
    decreases checks.len(),
{
    if checks.len() == 0 {
        (seen, 0)
    } else {
        let (s, n) = debounce_run(seen, checks.drop_last());
        let (s2, f) = debounced(s, checks.last());
        (s2, if f { n + 1 } else { n })
    }
}

/// Check `i` of the series fires.
pub open spec fn fires_at(seen: bool, checks: Seq<bool>, i: int) -> bool {
    debounced(debounce_run(seen, checks.take(i)).0, checks[i]).1
}

/// However many times an ant is checked while it stays in range, the event
/// fires at most once: once if the marker was clear, never if it was set.
pub proof fn lemma_debounce_idempotent(seen: bool, checks: Seq<bool>)
    requires
        forall|i: int| 0 <= i < checks.len() ==> #[trigger] checks[i],
    ensures
        debounce_run(seen, checks).1 == if !seen && checks.len() > 0 { 1nat } else { 0nat },
        checks.len() > 0 ==> debounce_run(seen, checks).0,
    decreases checks.len(),
{
    if checks.len() > 0 {
        let front = checks.drop_last();
        assert forall|i: int| 0 <= i < front.len() implies #[trigger] front[i] by {
            assert(front[i] == checks[i]);
        }
        lemma_debounce_idempotent(seen, front);
        assert(checks.last() == checks[checks.len() - 1]);
    }
}

/// After at least one check the marker is what the last check found.
proof fn lemma_marker_follows(seen: bool, checks: Seq<bool>, j: int)
    requires
        0 < j <= checks.len(),
    ensures
        debounce_run(seen, checks.take(j)).0 == checks[j - 1],
{
    assert(checks.take(j).last() == checks[j - 1]);
}

/// Between two firings of the event the ant was out of range at least once:
/// it does not fire again before it has left and come back.
pub proof fn lemma_refire_needs_leaving(seen: bool, checks: Seq<bool>, i: int, j: int)
    requires
        0 <= i < j < checks.len(),
        fires_at(seen, checks, i),
        fires_at(seen, checks, j),
    ensures
        exists|k: int| i < k < j && !#[trigger] checks[k],
{
    lemma_marker_follows(seen, checks, j);
    assert(!checks[j - 1]);
    assert(checks[i]);
    assert(i < j - 1);
}

/// The marker of a category stays set while any food of that category is
/// within range, not only the nearest, and is cleared only once none is.
pub proof fn lemma_clear_needs_all_out(a: AntView, foods: Seq<Food>, k: FoodKind)
    ensures
        perceived(a, foods, k).seen.has(k) <==> (exists|j: int|
            0 <= j < foods.len() && #[trigger] foods[j].kind == k && within_range(pos_of(a), foods[j].position)),
{
}

} // verus!
