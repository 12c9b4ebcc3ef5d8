//! What follows where the record of a decision or of an action is not stored.
use vstd::prelude::*;
use crate::arch::action_gateway::ActionKind;

verus! {

/// A record of an action that is sent.
#[derive(Clone, Copy, Debug, PartialEq, Eq, Structural)]
pub enum KeptRecord {
    /// The record of the decision, before the action is sent.
    Decision,
    /// The record of the action, after it was sent.
    Action,
}

/// What follows from an action that was sent.
#[derive(Clone, Copy, Debug, PartialEq, Eq, Structural)]
pub struct Aftermath {
    /// The module takes note of what was sent.
    pub is_noted: bool,
    /// The record whose failure is reported.
    pub failure: Option<KeptRecord>,
}

/// The action waits for its records: a placement does. What ends exposure is
/// never held up by them.
pub open spec fn waits_for_records(kind: ActionKind) -> bool {
    kind == ActionKind::Place
}

/// The first record that was not stored.
pub open spec fn first_failure(decision_stored: bool, action_stored: bool) -> Option<KeptRecord> {
    if !decision_stored {
        Some(KeptRecord::Decision)
    } else if !action_stored {
        Some(KeptRecord::Action)
    } else {
        None
    }
}

/// An action is sent: a placement only once its decision is stored.
pub open spec fn is_sent(kind: ActionKind, decision_stored: bool) -> bool {
    decision_stored || !waits_for_records(kind)
}

/// The module takes note of an action that was sent: of a placement only once its
/// record is stored.
pub open spec fn is_taken_note_of(kind: ActionKind, action_stored: bool) -> bool {
    action_stored || !waits_for_records(kind)
}

/// Whether an action is sent, once the store has taken the record of its decision
/// or refused it.
pub fn goes_out(kind: ActionKind, decision_stored: bool) -> (r: bool)
    ensures
        r == is_sent(kind, decision_stored),
{
    decision_stored || kind != ActionKind::Place
}

/// What follows from an action that was sent, once the store has taken its record
/// or refused it.
pub fn aftermath(kind: ActionKind, decision_stored: bool, action_stored: bool) -> (r: Aftermath)
    ensures
        r.is_noted == is_taken_note_of(kind, action_stored),
        r.failure == first_failure(decision_stored, action_stored),
{
    Aftermath {
        is_noted: action_stored || kind != ActionKind::Place,
        failure: if !decision_stored {
            Some(KeptRecord::Decision)
        } else if !action_stored {
            Some(KeptRecord::Action)
        } else {
            None
        },
    }
}

} // verus!
