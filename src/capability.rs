//! The host functions a script may call: random draws and the intent queue
//! of the current invocation.

use vstd::prelude::*;

use rand::rngs::StdRng;
use rand::Rng;

use crate::common::Command;

verus! {

#[verifier::external_type_specification]
#[verifier::external_body]
pub struct ExStdRng(rand::rngs::StdRng);

/// Relies on rand's `Rng::gen_range` on an exclusive `i64` range: the value
/// lies in `[lo, hi)`. It panics on an empty range, which `requires` rules out.
#[verifier::external_body]
pub(crate) fn draw_in(rng: &mut StdRng, lo: i64, hi: i64) -> (r: i64)
    requires
        lo < hi,
    ensures
        lo <= r < hi,
{
    rng.gen_range(lo..hi)
}

/// A random draw was asked for over an empty range (`max_exclusive <= min`).
#[derive(Debug, Clone, Copy, PartialEq, Eq, Structural)]
pub struct EmptyRange {
    pub min: i64,
    pub max_exclusive: i64,
}

/// A uniform value in `[min, max_exclusive)`, in thousandths; an empty range
/// is refused rather than answered with `min`.
pub fn rand_range(rng: &mut StdRng, min: i64, max_exclusive: i64) -> (r: Result<i64, EmptyRange>)
    ensures
        r is Err <==> max_exclusive <= min,
        r matches Ok(v) ==> min <= v < max_exclusive,
        r matches Err(e) ==> e.min == min && e.max_exclusive == max_exclusive,
{
    if max_exclusive <= min {
        Err(EmptyRange { min, max_exclusive })
    } else {
        Ok(draw_in(rng, min, max_exclusive))
    }
}

/// A uniform signed integer in `[min, max_exclusive)`; an empty range is refused.
pub fn rand_range_int(rng: &mut StdRng, min: i32, max_exclusive: i32) -> (r: Result<i32, EmptyRange>)
    ensures
        r is Err <==> max_exclusive <= min,
        r matches Ok(v) ==> min <= v < max_exclusive,
        r matches Err(e) ==> e.min == min && e.max_exclusive == max_exclusive,
{
    match rand_range(rng, min as i64, max_exclusive as i64) {
        Ok(v) => Ok(v as i32),
        Err(e) => Err(e),
    }
}

/// A uniform unsigned integer in `[min, max_exclusive)`; an empty range is refused.
pub fn rand_range_uint(rng: &mut StdRng, min: u32, max_exclusive: u32) -> (r: Result<u32, EmptyRange>)
    ensures
        r is Err <==> max_exclusive <= min,
        r matches Ok(v) ==> min <= v < max_exclusive,
        r matches Err(e) ==> e.min == min && e.max_exclusive == max_exclusive,
{
    match rand_range(rng, min as i64, max_exclusive as i64) {
        Ok(v) => Ok(v as u32),
        Err(e) => Err(e),
    }
}

/// The intents queued by one script invocation, in the order they were asked for.
pub struct IntentQueue {
    pub intents: Vec<Command>,
}

impl View for IntentQueue {
    type V = Seq<Command>;

    open spec fn view(&self) -> Seq<Command> {
        self.intents@
    }
}

impl IntentQueue {
    /// An empty queue.
    pub fn new() -> (r: Self)
        ensures
            r@ == Seq::<Command>::empty(),
    {
        IntentQueue { intents: Vec::new() }
    }

    /// Forgets every queued intent, so that a new invocation starts afresh.
    pub fn clear(&mut self)
        ensures
            final(self)@ == Seq::<Command>::empty(),
    {
        self.intents.clear();
    }

    /// Queues a turn by `degrees` (millidegrees).
    pub fn turn(&mut self, degrees: i64)
        ensures
            final(self)@ == old(self)@.push(Command::Turn(degrees)),
    {
        self.intents.push(Command::Turn(degrees));
    }

    /// Queues a turn to the heading `degrees` (millidegrees).
    pub fn turn_to(&mut self, degrees: i64)
        ensures
            final(self)@ == old(self)@.push(Command::TurnTo(degrees)),
    {
        self.intents.push(Command::TurnTo(degrees));
    }

    /// Queues a walk of `steps` steps.
    pub fn move_forward(&mut self, steps: u32)
        ensures
            final(self)@ == old(self)@.push(Command::Move(steps)),
    {
        self.intents.push(Command::Move(steps));
    }

    /// Hands out the queued intents and leaves the queue empty.
    pub fn take(&mut self) -> (r: Vec<Command>)
        ensures
            r@ == old(self)@,
            final(self)@ == Seq::<Command>::empty(),
    {
        let mut out: Vec<Command> = Vec::new();
        std::mem::swap(&mut out, &mut self.intents);
        out
    }
}

} // verus!
