//! Pulse-decoder decisions: classifying a pulse count into a power action.
//!
//! A pushbutton emits a short burst of rising-edge pulses on a GPIO line; the
//! number of pulses encodes the requested power action.  The decoder loop
//! samples an atomic pulse counter each tick and acts on its value: two or
//! three pulses request a reboot, four or five a power-off, and anything else
//! (no press, a single bounce, or an over-long burst) is ignored.

use vstd::prelude::*;

verus! {

/// The OS power action a sampled pulse count calls for.
#[derive(Clone, Copy, Debug, PartialEq, Eq, Structural)]
pub enum PulseAction {
    /// The count is outside every action band: do nothing.
    NoAction,
    /// Two or three pulses: request a system reboot.
    Reboot,
    /// Four or five pulses: request a system power-off.
    PowerOff,
}

/// The action a given pulse count selects: 2 or 3 pulses mean reboot,
/// 4 or 5 mean power-off, and every other count (0, 1, or 6 and up) means
/// no action.
pub open spec fn spec_classify(count: u8) -> PulseAction {
    if count == 2 || count == 3 {
        PulseAction::Reboot
    } else if count == 4 || count == 5 {
        PulseAction::PowerOff
    } else {
        PulseAction::NoAction
    }
}

/// Law (pulse bands): counts 2 and 3, and no others, request a reboot;
/// counts 4 and 5, and no others, a power-off; everything at or below 1 or
/// at or above 6 is left alone.
pub proof fn lemma_pulse_bands(count: u8)
    ensures
        (count == 2 || count == 3) <==> spec_classify(count) == PulseAction::Reboot,
        (count == 4 || count == 5) <==> spec_classify(count) == PulseAction::PowerOff,
        (count <= 1 || count >= 6) <==> spec_classify(count) == PulseAction::NoAction,
{
}

/// Classify a sampled pulse count into the power action it requests.
pub fn classify_pulse_count(count: u8) -> (action: PulseAction)
    ensures
        action == spec_classify(count),
{
    match count {
        2 | 3 => PulseAction::Reboot,
        4 | 5 => PulseAction::PowerOff,
        _ => PulseAction::NoAction,
    }
}

/// What one tick of the decoder loop does: exit, or act on the counter.
#[derive(Clone, Copy, Debug, PartialEq, Eq, Structural)]
pub struct DecoderPoll {
    /// True when a termination request was observed: the loop must stop.
    pub exit: bool,
    /// The power action the sampled count selects; none when exiting.
    pub action: PulseAction,
}

/// Decide one tick of the decoder loop from the termination flag and the
/// sampled pulse count: on termination the loop exits without acting,
/// otherwise it performs whatever action the count classifies to.
pub fn decoder_poll(termination: bool, count: u8) -> (poll: DecoderPoll)
    ensures
        poll.exit == termination,
        !termination ==> poll.action == spec_classify(count),
        termination ==> poll.action == PulseAction::NoAction,
{
    if termination {
        DecoderPoll { exit: true, action: PulseAction::NoAction }
    } else {
        DecoderPoll { exit: false, action: classify_pulse_count(count) }
    }
}

} // verus!
