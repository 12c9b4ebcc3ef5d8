//! The health of the host.
use vstd::prelude::*;
use crate::arch::action_gateway;
use crate::text;
use crate::text::numbered;

verus! {

/// What a program left behind.
#[derive(Debug)]
pub struct ProgramOutput {
    pub success: bool,
    pub stdout: String,
    pub stderr: String,
}

/// What is stored of the clock of the host.
#[derive(Debug)]
pub struct ClockTracking {
    pub chrony_tracking: Option<String>,
    pub chrony_error: Option<String>,
}

/// What the program that tracks the clock tells: its output where it succeeded,
/// else its complaint, or why it did not run.
pub fn clock_tracking(outcome: Result<ProgramOutput, String>) -> (r: ClockTracking)
    ensures
        r == (match outcome {
            Ok(output) => if output.success {
                ClockTracking { chrony_tracking: Some(output.stdout), chrony_error: None }
            } else {
                ClockTracking { chrony_tracking: None, chrony_error: Some(output.stderr) }
            },
            Err(error) => ClockTracking { chrony_tracking: None, chrony_error: Some(error) },
        }),
{
    match outcome {
        Ok(output) => if output.success {
            ClockTracking { chrony_tracking: Some(output.stdout), chrony_error: None }
        } else {
            ClockTracking { chrony_tracking: None, chrony_error: Some(output.stderr) }
        },
        Err(error) => ClockTracking { chrony_tracking: None, chrony_error: Some(error) },
    }
}

/// Numbers the records of the health of the host.
#[derive(Debug)]
pub struct HealthCounter {
    pub sequence: u64,
}

impl HealthCounter {
    pub fn next_event_id(&mut self) -> (r: String)
        ensures
            final(self).sequence == action_gateway::successor(old(self).sequence),
            r@ == "system-worker-"@ + text::digits(final(self).sequence as nat),
    {
        self.sequence = self.sequence.saturating_add(1);
        numbered("system-worker-", self.sequence)
    }
}

} // verus!
