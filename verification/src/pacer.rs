use vstd::prelude::*;

use rand::Rng;

use crate::instruction::Instruction;

verus! {

/// What the pacer does with one instruction before the playback engine
/// sees it.
#[derive(PartialEq, Eq, Structural, Clone, Copy, Debug)]
pub enum PacerAction {
    /// Sleep this many milliseconds and move on; the instruction is
    /// consumed here and never forwarded.
    SleepOnly(u64),
    /// Sleep this many milliseconds, then forward the instruction.
    ForwardAfter(u64),
    /// Forward the instruction, then block until the acknowledgment
    /// arrives.
    ForwardAndAwait,
}

/// The shortest randomized per-character typing delay, in milliseconds.
pub const DELAY_MIN_MS: u64 = 35;

/// The exclusive upper bound of the randomized typing delay.
pub const DELAY_MAX_MS: u64 = 85;

/// Relies on rand::thread_rng and rand::Rng::gen_range: sampling a
/// non-empty half-open range yields a value inside it, whatever the seed.
#[verifier::external_body]
fn gen_range_u64(lo: u64, hi: u64) -> (r: u64)
    requires
        lo < hi,
    ensures
        lo <= r < hi,
{
    rand::thread_rng().gen_range(lo..hi)
}

/// Decide the pacing of one instruction, as the delivery loop does: a
/// scripted pause is consumed as a plain sleep, a wait is forwarded and
/// then held until acknowledged, and every other instruction is forwarded
/// after a randomized human-typing delay.
pub fn pacer_action(inst: &Instruction) -> (a: PacerAction)
    ensures
        (match *inst {
            Instruction::Pause(ms) => a == PacerAction::SleepOnly(ms),
            Instruction::Wait => a == PacerAction::ForwardAndAwait,
            _ => a matches PacerAction::ForwardAfter(d) && DELAY_MIN_MS <= d < DELAY_MAX_MS,
        }),
{
    match inst {
        Instruction::Pause(ms) => PacerAction::SleepOnly(*ms),
        Instruction::Wait => PacerAction::ForwardAndAwait,
        _ => PacerAction::ForwardAfter(gen_range_u64(DELAY_MIN_MS, DELAY_MAX_MS)),
    }
}

} // verus!
