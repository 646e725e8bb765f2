//! How the result of one script invocation is folded into an ant's commands.

use vstd::prelude::*;

use crate::common::Command;
use crate::components::{FoodKind, Position};

verus! {

/// The part of an ant's state that a script is shown.
#[derive(Debug, Clone, Copy, PartialEq, Eq, Structural)]
pub struct AntState {
    pub energy: u32,
}

impl AntState {
    pub fn new(energy: u32) -> (r: Self)
        ensures
            r.energy == energy,
    {
        AntState { energy }
    }
}

/// How an invocation of a script entry point ended.
pub enum Outcome {
    /// The script does not define the entry point: nothing to do.
    Absent,
    /// The entry point returned; these are the intents it queued, in order.
    Returned(Vec<Command>),
    /// The entry point trapped or could not be called: its intents are
    /// dropped and the ant carries on as it was.
    Faulted,
}

/// The intents an outcome brings, empty unless the call returned.
pub open spec fn intents_of(o: &Outcome) -> Seq<Command> {
    match o {
        Outcome::Returned(v) => v@,
        _ => Seq::empty(),
    }
}

/// The commands after an idle invocation: the intents are appended.
pub open spec fn after_idle(cmds: Seq<Command>, o: &Outcome) -> Seq<Command> {
    cmds + intents_of(o)
}

/// The commands after a proximity invocation: intents, if there are any,
/// replace what the ant was doing.
pub open spec fn after_near(cmds: Seq<Command>, o: &Outcome) -> Seq<Command> {
    if intents_of(o).len() > 0 {
        intents_of(o)
    } else {
        cmds
    }
}

/// Appends what an idle invocation queued to `commands`.
pub fn merge_idle(commands: &mut Vec<Command>, outcome: Outcome)
    ensures
        final(commands)@ == after_idle(old(commands)@, &outcome),
{
    match outcome {
        Outcome::Returned(v) => {
            let mut v = v;
            commands.append(&mut v);
        },
        _ => {
            assert(old(commands)@ + Seq::<Command>::empty() =~= old(commands)@);
        },
    }
}

/// Replaces `commands` with what a proximity invocation queued, unless it
/// queued nothing.
pub fn merge_near(commands: &mut Vec<Command>, outcome: Outcome)
    ensures
        final(commands)@ == after_near(old(commands)@, &outcome),
{
    match outcome {
        Outcome::Returned(v) => {
            if v.len() > 0 {
                *commands = v;
            }
        },
        _ => {},
    }
}

/// A "near" event to hand to the script of ant `ant`.
#[derive(Debug, Clone, Copy, PartialEq, Eq, Structural)]
pub struct NearEvent {
    /// Index of the ant in the world.
    pub ant: usize,
    pub kind: FoodKind,
    pub this: AntState,
    /// Distance to the nearest food of the category, whole units rounded down.
    pub distance: u32,
    /// Where the ant stands.
    pub from: Position,
    /// Where that food lies.
    pub food: Position,
}

} // verus!
