//! Fan-controller decisions: target lookup plus hysteresis.
//!
//! The controller loop keeps one mutable value, the fan level currently
//! applied.  Each decision interval it samples the temperature, looks up the
//! target level in the step table, and applies it — with one twist: a *drop*
//! in level is held back for one extra decision interval (the hysteresis
//! delay), so a small dip in temperature does not make the fan chatter
//! between two levels.  A target at or above the current level applies
//! immediately.

use vstd::prelude::*;
use crate::steps::{spec_target_level, StepTable, TempSpeedPair};
use crate::temperature::Temperature;

verus! {

/// Whether dropping from `current` to `target` must wait one extra decision
/// interval: only a strict drop is held back.
pub open spec fn spec_extra_delay(current: u8, target: u8) -> bool {
    target < current
}

/// The levels the fan runs at, interval by interval, when one directive is
/// carried out: a drop holds the old level for one extra interval first,
/// anything else applies at once.
pub open spec fn spec_interval_levels(current: u8, target: u8) -> Seq<u8> {
    if spec_extra_delay(current, target) {
        seq![current, target]
    } else {
        seq![target]
    }
}

/// Law (hysteresis): a strictly lower target keeps the fan at the old level
/// for one additional decision interval before the drop; a target at or
/// above the current level applies on the same interval.
pub proof fn lemma_hysteresis(current: u8, target: u8)
    ensures
        target < current ==> spec_interval_levels(current, target) =~= seq![current, target],
        target >= current ==> spec_interval_levels(current, target) =~= seq![target],
{
}

/// Law (idempotence): the target level is a function of the table and the
/// sample alone, so feeding the same sample again yields the same target;
/// and once that target is the current level — no hysteresis pending — the
/// repeat brings no further delay.
pub proof fn lemma_same_sample_idempotent(
    entries: Seq<TempSpeedPair>,
    sample: Temperature,
    first: u8,
    second: u8,
)
    requires
        first == spec_target_level(entries, sample),
        second == spec_target_level(entries, sample),
    ensures
        first == second,
        !spec_extra_delay(first, second),
{
}

/// What the controller loop does with one temperature sample: hold the old
/// level one extra interval when dropping, then run at the new level.
#[derive(Clone, Copy, Debug, PartialEq, Eq, Structural)]
pub struct FanDirective {
    /// Hold the previous level for one extra decision interval before the
    /// write (the hysteresis delay); set exactly when the level drops.
    pub extra_delay: bool,
    /// The level to write for this interval.
    pub level: u8,
}

/// The fan controller's single mutable value: the level currently applied.
pub struct FanState {
    /// The fan level most recently applied, 0 when none has been yet.
    pub current_level: u8,
}

impl FanState {
    /// The state before the first decision: fan off.
    pub fn new() -> (state: FanState)
        ensures
            state.current_level == 0,
    {
        FanState { current_level: 0 }
    }

    /// Apply a freshly computed target level, reporting whether the
    /// hysteresis delay is owed first.  The target always becomes the
    /// current level; only the timing of the write differs.
    pub fn apply(&mut self, target: u8) -> (extra_delay: bool)
        ensures
            final(self).current_level == target,
            extra_delay == spec_extra_delay(old(self).current_level, target),
    {
        let extra_delay = target < self.current_level;
        self.current_level = target;
        extra_delay
    }

    /// Decide one interval of the controller loop from a temperature
    /// sample: look up the target level for the sample and apply it with
    /// the hysteresis rule.
    pub fn plan(&mut self, table: &StepTable, sample: Temperature) -> (directive: FanDirective)
        ensures
            directive.level == spec_target_level(table@, sample),
            directive.extra_delay == spec_extra_delay(
                old(self).current_level,
                directive.level,
            ),
            final(self).current_level == directive.level,
    {
        let target = table.target_level(sample);
        let extra_delay = self.apply(target);
        FanDirective { extra_delay, level: target }
    }
}

} // verus!
