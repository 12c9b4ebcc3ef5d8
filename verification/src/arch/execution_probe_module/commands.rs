//! What a step of the probe asks for next.
use vstd::prelude::*;
use crate::arch::action_gateway::PlaceOutcome;
use crate::arch::records::{Action, SystemEvent};
use crate::arch::vocabulary::{FinishReason, Reason, RestReason, RestScope, Trigger};
use crate::binary64::Binary64;
use super::state::{OrderUpdate, UserFill};

verus! {

/// One thing to do next. The commands of a step are carried out in order, each
/// with all that it asks for in turn, before the next one; the first failure
/// ends the sequence.
#[derive(Debug)]
#[allow(inconsistent_fields)]
pub enum Command {
    /// Store a record.
    Record(SystemEvent),
    /// Store a record, and go on where that fails.
    Note(SystemEvent),
    /// Ask for a snapshot of the account.
    Rest { reason: RestReason, scope: RestScope },
    /// Ask for a snapshot, at most once a second.
    RestThrottled { reason: RestReason, scope: RestScope, now_ns: u64 },
    /// Ask for a snapshot where a probe is still active.
    RestIfActive { reason: RestReason, scope: RestScope },
    /// Ask for a snapshot, at most once a second, where a probe is still active.
    RestIfActiveThrottled { reason: RestReason, scope: RestScope },
    /// Cancel the resting order.
    Cancel { trigger: Trigger, reason: Reason },
    /// Write down that the order is kept.
    Keep { trigger: Trigger, reason: Reason },
    /// Write down a decision of the lifecycle.
    Decide { trigger: Trigger, action: Action, reason: Reason },
    /// End the probe.
    Finish(FinishReason),
    /// End the probe where its flattening has left no inventory.
    FinishIfFlat,
    /// Let no probe start for a while.
    Cooldown { now_ns: u64 },
    /// Bring the inventory back to zero.
    Flatten { risk_exit: bool },
    /// Handle an order update.
    OrderUpdate { update: OrderUpdate, received_ns: u64 },
    /// Handle a fill.
    UserFill { fill: UserFill, received_ns: u64 },
    /// Settle an order that was cancelled.
    CancelSettled { has_fill: bool, filled: Binary64, received_ns: u64 },
    /// Handle the answer to a flattening order.
    FlattenAnswered { request_id: u64, outcome: PlaceOutcome },
    /// Compare the probe with a new snapshot of the account.
    Reconcile,
    /// Sample the markouts that are due.
    SampleMarkouts,
    /// Forget the markouts that are complete.
    DropCompleteMarkouts,
    /// Look at the active probe.
    Evaluate,
    /// Look at the size of the inventory.
    GuardInventory,
    /// Start a probe where none is active.
    StartIfIdle,
    /// Ask for the last snapshot of the account.
    ShutdownSnapshot,
    /// Store the last record and stop.
    Stop(SystemEvent),
}

/// No command.
pub fn nothing() -> (r: Vec<Command>)
    ensures
        r@ == Seq::<Command>::empty(),
{
    Vec::new()
}

/// One command.
pub fn only(command: Command) -> (r: Vec<Command>)
    ensures
        r@ == seq![command],
{
    let mut out: Vec<Command> = Vec::new();
    let ghost expected = seq![command];
    out.push(command);
    proof {
        assert(out@ =~= expected);
    }
    out
}

/// Two commands.
pub fn pair(first: Command, second: Command) -> (r: Vec<Command>)
    ensures
        r@ == seq![first, second],
{
    let mut out: Vec<Command> = Vec::new();
    let ghost expected = seq![first, second];
    out.push(first);
    out.push(second);
    proof {
        assert(out@ =~= expected);
    }
    out
}

/// Three commands.
pub fn triple(first: Command, second: Command, third: Command) -> (r: Vec<Command>)
    ensures
        r@ == seq![first, second, third],
{
    let mut out: Vec<Command> = Vec::new();
    let ghost expected = seq![first, second, third];
    out.push(first);
    out.push(second);
    out.push(third);
    proof {
        assert(out@ =~= expected);
    }
    out
}

/// None of the commands may start a probe.
pub open spec fn start_nothing(commands: Seq<Command>) -> bool {
    forall|i: int| 0 <= i < commands.len() ==> !(#[trigger] commands[i] is StartIfIdle)
}

/// No command stands behind one that may start a probe.
pub open spec fn start_last(commands: Seq<Command>) -> bool {
    forall|i: int|
        0 <= i < commands.len() && #[trigger] commands[i] is StartIfIdle ==> i == commands.len() - 1
}

/// The commands that are still to be carried out, the next one first.
#[derive(Debug)]
pub struct Agenda {
    // The next command stands last.
    waiting: Vec<Command>,
}

impl View for Agenda {
    type V = Seq<Command>;

    closed spec fn view(&self) -> Seq<Command> {
        self.waiting@.reverse()
    }
}

impl Agenda {
    /// The agenda of a step.
    pub fn new(commands: Vec<Command>) -> (r: Agenda)
        ensures
            r@ == commands@,
    {
        let mut agenda = Agenda { waiting: Vec::new() };
        let ghost expected = commands@;
        agenda.put_first(commands);
        proof {
            assert(agenda@ =~= expected);
        }
        agenda
    }

    /// Puts what a command asks for before everything else.
    pub fn put_first(&mut self, following: Vec<Command>)
        ensures
            final(self)@ == following@ + old(self)@,
    {
        let ghost expected = following@ + self@;
        let mut rest = following;
        while rest.len() > 0
            invariant
                rest@ + self.waiting@.reverse() == expected,
            decreases rest@.len(),
        {
            let ghost rest_before = rest@;
            let ghost waiting_before = self.waiting@;
            if let Some(command) = rest.pop() {
                self.waiting.push(command);
                proof {
                    assert(rest@ + self.waiting@.reverse() =~= rest_before
                        + waiting_before.reverse());
                }
            }
        }
        proof {
            assert(self@ =~= expected);
        }
    }

    /// Takes the next command.
    pub fn next(&mut self) -> (r: Option<Command>)
        ensures
            match r {
                Some(command) => {
                    &&& old(self)@.len() > 0
                    &&& command == old(self)@[0]
                    &&& final(self)@ == old(self)@.skip(1)
                },
                None => old(self)@.len() == 0 && final(self)@ == old(self)@,
            },
    {
        let ghost before = self@;
        let r = self.waiting.pop();
        proof {
            if r is Some {
                assert(self@ =~= before.skip(1));
            }
        }
        r
    }
}

/// The agenda `after` is `before` without its next command, with what that one
/// asked for put first. Nothing that a command asks for may start a probe.
pub open spec fn follows(before: Seq<Command>, after: Seq<Command>) -> bool {
    before.len() > 0 && exists|following: Seq<Command>|
        start_nothing(following) && after == #[trigger] (following + before.skip(1))
}

/// The agendas of a step, from its commands on.
pub open spec fn is_run(agendas: Seq<Seq<Command>>) -> bool {
    forall|i: int|
        0 <= i < agendas.len() - 1 ==> follows(#[trigger] agendas[i], agendas[i + 1])
}

/// Where nothing on the agenda may start a probe, nothing ever will; where a
/// start comes last, it stays last.
proof fn lemma_follows(before: Seq<Command>, after: Seq<Command>)
    requires
        follows(before, after),
    ensures
        start_nothing(before) ==> start_nothing(after),
        start_last(before) ==> start_last(after),
        start_last(before) && before[0] is StartIfIdle ==> start_nothing(after),
{
    let following = choose|following: Seq<Command>|
        start_nothing(following) && after == #[trigger] (following + before.skip(1));
    let n = following.len();
    assert forall|i: int| 0 <= i < after.len() && #[trigger] after[i] is StartIfIdle implies i >= n
        && before[i - n + 1] is StartIfIdle by {
        if i < n {
            assert(after[i] == following[i]);
        } else {
            assert(after[i] == before.skip(1)[i - n]);
        }
    }
}

proof fn lemma_run_starts_nothing(agendas: Seq<Seq<Command>>, i: int, j: int)
    requires
        is_run(agendas),
        0 <= i <= j < agendas.len(),
        start_nothing(agendas[i]),
    ensures
        start_nothing(agendas[j]),
    decreases j - i,
{
    if i < j {
        lemma_follows(agendas[i], agendas[i + 1]);
        lemma_run_starts_nothing(agendas, i + 1, j);
    }
}

proof fn lemma_run_starts_last(agendas: Seq<Seq<Command>>, i: int)
    requires
        is_run(agendas),
        0 <= i < agendas.len(),
        start_last(agendas[0]),
    ensures
        start_last(agendas[i]),
    decreases i,
{
    if i > 0 {
        lemma_run_starts_last(agendas, i - 1);
        lemma_follows(agendas[i - 1], agendas[i]);
    }
}

/// Where the commands of a step have a start at most at their end, a probe is
/// started at most once, and only when everything else has been done.
pub proof fn law_start_comes_once_and_last(agendas: Seq<Seq<Command>>, i: int)
    requires
        is_run(agendas),
        0 <= i < agendas.len(),
        start_last(agendas[0]),
        agendas[i].len() > 0,
        agendas[i][0] is StartIfIdle,
    ensures
        agendas[i].len() == 1,
        forall|j: int| i < j < agendas.len() ==> start_nothing(#[trigger] agendas[j]),
{
    lemma_run_starts_last(agendas, i);
    assert forall|j: int| i < j < agendas.len() implies start_nothing(#[trigger] agendas[j]) by {
        lemma_follows(agendas[i], agendas[i + 1]);
        lemma_run_starts_nothing(agendas, i + 1, j);
    }
}

/// Where no command of a step may start a probe, none is started.
pub proof fn law_nothing_starts_by_itself(agendas: Seq<Seq<Command>>, i: int)
    requires
        is_run(agendas),
        0 <= i < agendas.len(),
        start_nothing(agendas[0]),
    ensures
        start_nothing(agendas[i]),
{
    lemma_run_starts_nothing(agendas, 0, i);
}

} // verus!
