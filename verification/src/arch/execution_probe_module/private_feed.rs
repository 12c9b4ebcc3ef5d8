//! What the private feed and the answers to actions tell.
use vstd::prelude::*;
use crate::binary64::Binary64;
use crate::json::Json;
use crate::text::same;
use super::base::ExecutionProbe;
use super::commands;
use super::commands::{Command, nothing, only};
use super::connections::FrameError;
use super::frames;
use super::frames::{frame_channel, parse_order_updates, parse_user_fills, parse_xyz_inventory};
use super::market_feed;
use super::state::{AccountState, OrderUpdate, UserFill};

verus! {

/// One command for each order update, in order.
pub open spec fn are_updates(
    commands: Seq<Command>,
    updates: Seq<frames::OrderUpdateView>,
    at_ns: u64,
) -> bool {
    &&& commands.len() == updates.len()
    &&& forall|i: int|
        0 <= i < commands.len() ==> {
            &&& (#[trigger] commands[i]) matches Command::OrderUpdate { update, received_ns }
            &&& update@ == updates[i]
            &&& received_ns == at_ns
        }
}

/// One command for each fill, in order.
pub open spec fn are_fills(
    commands: Seq<Command>,
    fills: Seq<frames::UserFillView>,
    at_ns: u64,
) -> bool {
    &&& commands.len() == fills.len()
    &&& forall|i: int|
        0 <= i < commands.len() ==> {
            &&& (#[trigger] commands[i]) matches Command::UserFill { fill, received_ns }
            &&& fill@ == fills[i]
            &&& received_ns == at_ns
        }
}

fn update_commands(updates: Vec<OrderUpdate>, received_ns: u64) -> (r: Vec<Command>)
    ensures
        are_updates(r@, frames::update_views(updates@), received_ns),
{
    let ghost all = updates@;
    let mut rest = updates;
    let mut out: Vec<Command> = Vec::new();
    while rest.len() > 0
        invariant
            out@.len() + rest@.len() == all.len(),
            rest@ == all.skip(out@.len() as int),
            are_updates(
                out@,
                frames::update_views(all.take(out@.len() as int)),
                received_ns,
            ),
        decreases rest@.len(),
    {
        let update = rest.remove(0);
        let ghost before = out@;
        out.push(Command::OrderUpdate { update, received_ns });
        proof {
            assert(update == all[before.len() as int]);
            assert(rest@ =~= all.skip(out@.len() as int));
            assert forall|i: int| 0 <= i < out@.len() implies {
                &&& (#[trigger] out@[i]) matches Command::OrderUpdate { update, received_ns: at }
                &&& update@ == frames::update_views(all.take(out@.len() as int))[i]
                &&& at == received_ns
            } by {
                if i < before.len() {
                    assert(out@[i] == before[i]);
                    assert(all.take(before.len() as int)[i] == all[i]);
                }
            }
        }
    }
    proof {
        assert(all.take(out@.len() as int) =~= all);
    }
    out
}

fn fill_commands(fills: Vec<UserFill>, received_ns: u64) -> (r: Vec<Command>)
    ensures
        are_fills(r@, frames::fill_views(fills@), received_ns),
{
    let ghost all = fills@;
    let mut rest = fills;
    let mut out: Vec<Command> = Vec::new();
    while rest.len() > 0
        invariant
            out@.len() + rest@.len() == all.len(),
            rest@ == all.skip(out@.len() as int),
            are_fills(out@, frames::fill_views(all.take(out@.len() as int)), received_ns),
        decreases rest@.len(),
    {
        let fill = rest.remove(0);
        let ghost before = out@;
        out.push(Command::UserFill { fill, received_ns });
        proof {
            assert(fill == all[before.len() as int]);
            assert(rest@ =~= all.skip(out@.len() as int));
            assert forall|i: int| 0 <= i < out@.len() implies {
                &&& (#[trigger] out@[i]) matches Command::UserFill { fill, received_ns: at }
                &&& fill@ == frames::fill_views(all.take(out@.len() as int))[i]
                &&& at == received_ns
            } by {
                if i < before.len() {
                    assert(out@[i] == before[i]);
                    assert(all.take(before.len() as int)[i] == all[i]);
                }
            }
        }
    }
    proof {
        assert(all.take(out@.len() as int) =~= all);
    }
    out
}

impl ExecutionProbe {
    /// The inventory that a frame states of the traded coin.
    pub open spec fn stated_inventory(self, frame: Json) -> Option<Binary64> {
        frames::inventory_of(frame, self.config.markets.hyperliquid_coin@)
    }

    /// What a private frame means.
    pub open spec fn handles_private(
        self,
        after: ExecutionProbe,
        commands: Seq<Command>,
        frame: Json,
        received_ns: u64,
    ) -> bool {
        let channel = frames::channel_of(frame);
        if channel == Some("orderUpdates"@) {
            &&& after == self
            &&& are_updates(commands, frames::updates_of(frames::data_items(frame)), received_ns)
        } else if channel == Some("userFills"@) {
            &&& after == self
            &&& are_fills(commands, frames::fills_of(frames::fill_items(frame)), received_ns)
        } else if channel == Some("clearinghouseState"@) && self.stated_inventory(frame) is Some {
            &&& after == (ExecutionProbe {
                account: AccountState {
                    confirmed_inventory: self.stated_inventory(frame)->0,
                    snapshot_monotonic_ns: received_ns,
                    ..self.account
                },
                ..self
            })
            &&& commands == seq![Command::FinishIfFlat]
        } else {
            after == self && commands.len() == 0
        }
    }

    /// Takes in a frame of the private feed.
    pub fn process_private_frame(&mut self, frame: &Json, received_ns: u64) -> (r: Vec<Command>)
        requires
            old(self).is_sound(),
        ensures
            commands::start_nothing(r@),
            final(self).is_sound(),
            old(self).handles_private(*final(self), r@, *frame, received_ns),
    {
        proof {
            reveal_strlit("orderUpdates");
            reveal_strlit("userFills");
            reveal_strlit("clearinghouseState");
            assert("orderUpdates"@.len() == 12);
            assert("userFills"@.len() == 9);
            assert("clearinghouseState"@.len() == 18);
        }
        let channel = match frame_channel(frame) {
            Some(channel) => channel,
            None => {
                return nothing();
            },
        };
        if same(channel, "orderUpdates") {
            update_commands(parse_order_updates(frame), received_ns)
        } else if same(channel, "userFills") {
            fill_commands(parse_user_fills(frame), received_ns)
        } else if same(channel, "clearinghouseState") {
            match parse_xyz_inventory(frame, self.config.markets.hyperliquid_coin.as_str()) {
                Some(inventory) => {
                    self.account.confirmed_inventory = inventory;
                    self.account.snapshot_monotonic_ns = received_ns;
                    only(Command::FinishIfFlat)
                },
                None => nothing(),
            }
        } else {
            nothing()
        }
    }
}

impl ExecutionProbe {
    /// What a stored frame does, by the feed that brought it: an answer of the action
    /// feed, private news, or public news.
    pub open spec fn handles_frame(
        self,
        after: ExecutionProbe,
        r: Result<Vec<Command>, FrameError>,
        task_id: u64,
        frame: Json,
        received_ns: u64,
    ) -> bool {
        match self.plan_of(task_id) {
            Some(plan) => if plan.is_action {
                match r {
                    Ok(commands) => self.handles_post(after, commands@, frame),
                    Err(FrameError::Gateway(error)) => after == self && self.is_answer_error(
                        error,
                        frame,
                    ),
                    Err(_) => false,
                }
            } else if plan.is_private {
                r is Ok && self.handles_private(after, r->Ok_0@, frame, received_ns)
            } else {
                r is Ok && r->Ok_0@.len() == 0 && self.has_heard(
                    after,
                    market_feed::news(task_id, frame),
                    frame,
                    received_ns,
                )
            },
            None => {
                &&& after == self
                &&& r matches Err(FrameError::UnknownTask(unknown))
                &&& unknown == task_id
            },
        }
    }

    /// Takes in a frame that was stored: an answer on the action feed, a private
    /// frame or a public one.
    pub fn process_frame(&mut self, task_id: u64, frame: &Json, received_ns: u64) -> (r: Result<
        Vec<Command>,
        FrameError,
    >)
        requires
            old(self).is_sound(),
        ensures
            r matches Ok(following) ==> commands::start_nothing(following@),
            final(self).is_sound(),
            old(self).handles_frame(*final(self), r, task_id, *frame, received_ns),
    {
        let (is_action, is_private) = match self.feed_plan(task_id) {
            Some(plan) => (plan.is_action, plan.is_private),
            None => {
                return Err(FrameError::UnknownTask(task_id));
            },
        };
        if is_action {
            match self.process_post_response(frame) {
                Ok(commands) => Ok(commands),
                Err(error) => Err(FrameError::Gateway(error)),
            }
        } else if is_private {
            Ok(self.process_private_frame(frame, received_ns))
        } else {
            self.process_public_frame(task_id, frame, received_ns);
            Ok(nothing())
        }
    }
}

} // verus!
