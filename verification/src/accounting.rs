//! What holds of the balances whatever is sent and whatever the transport
//! reports, in whatever order.

use vstd::prelude::*;
use crate::amount::Coin;
use crate::contract::{after_execute, command_request, SendRequest};
use crate::error::ContractError;
use crate::ibc_msg::{Ics20AckView, Ics20PacketView};
use crate::msg::ExecuteMsg;
use crate::state::BridgeView;
use crate::timestamp::Timestamp;

verus! {

/// Something that moves the balances: a send, or the fate of a packet that
/// was sent.
pub enum Event {
    Send { request: SendRequest, now: Timestamp },
    Ack { channel: Seq<char>, sequence: u64, packet: Ics20PacketView, ack: Ics20AckView },
    Timeout { channel: Seq<char>, sequence: u64, packet: Ics20PacketView },
}

/// The state after one event. A refused event leaves the state as it was.
pub open spec fn step(s: BridgeView, e: Event) -> BridgeView {
    match e {
        Event::Send { request, now } => s.after_send(request, now),
        Event::Ack { channel, sequence, packet, ack } => s.after_ack(channel, sequence, packet, ack),
        Event::Timeout { channel, sequence, packet } => s.after_settle(channel, sequence, packet),
    }
}

/// The state after a sequence of events, the first event first.
pub open spec fn run(s: BridgeView, events: Seq<Event>) -> BridgeView
    decreases events.len(),
{
    if events.len() == 0 {
        s
    } else {
        step(run(s, events.drop_last()), events.last())
    }
}

/// No counter of what was ever sent is lower in `b` than in `a`.
pub open spec fn total_sent_grows(a: BridgeView, b: BridgeView) -> bool {
    forall|channel: Seq<char>, denom: Seq<char>| #[trigger]
        a.balance(channel, denom).total_sent <= b.balance(channel, denom).total_sent
}

/// Counting a send keeps every balance within what was ever sent, and
/// lowers no counter of what was ever sent.
pub proof fn lemma_increase_keeps_account(s: BridgeView, channel: Seq<char>, denom: Seq<char>, amount: u128)
    requires
        s.consistent(),
        s.can_increase(channel, denom, amount),
    ensures
        s.increased(channel, denom, amount).consistent(),
        total_sent_grows(s, s.increased(channel, denom, amount)),
{
    let t = s.increased(channel, denom, amount);
    assert(s.balances.contains_key((channel, denom)) ==> s.balance(channel, denom).outstanding
        <= s.balance(channel, denom).total_sent);
    assert forall|k: (Seq<char>, Seq<char>)| #[trigger] t.balances.contains_key(k) implies t.balances[k].outstanding
        <= t.balances[k].total_sent by {
        if k != (channel, denom) {
            assert(s.balances.contains_key(k));
        }
    }
    assert forall|c: Seq<char>, d: Seq<char>| #[trigger]
        s.balance(c, d).total_sent <= t.balance(c, d).total_sent by {
        if (c, d) != (channel, denom) {
            assert(t.balances.contains_key((c, d)) == s.balances.contains_key((c, d)));
        }
    }
}

/// Settling a packet keeps every balance within what was ever sent, and
/// leaves every counter of what was ever sent as it was.
pub proof fn lemma_reduce_keeps_account(s: BridgeView, channel: Seq<char>, denom: Seq<char>, amount: u128)
    requires
        s.consistent(),
        s.can_reduce(channel, denom, amount),
    ensures
        s.reduced(channel, denom, amount).consistent(),
        forall|c: Seq<char>, d: Seq<char>| #[trigger]
            s.reduced(channel, denom, amount).balance(c, d).total_sent == s.balance(
                c,
                d,
            ).total_sent,
{
    let t = s.reduced(channel, denom, amount);
    assert(s.balances.contains_key((channel, denom)));
    assert forall|k: (Seq<char>, Seq<char>)| #[trigger] t.balances.contains_key(k) implies t.balances[k].outstanding
        <= t.balances[k].total_sent by {
        if k != (channel, denom) {
            assert(s.balances.contains_key(k));
        }
    }
    assert forall|c: Seq<char>, d: Seq<char>| #[trigger]
        t.balance(c, d).total_sent == s.balance(c, d).total_sent by {
        if (c, d) != (channel, denom) {
            assert(t.balances.contains_key((c, d)) == s.balances.contains_key((c, d)));
        }
    }
}

/// One event, accepted or refused, keeps every balance within what was
/// ever sent and lowers no counter of what was ever sent.
pub proof fn lemma_step_keeps_account(s: BridgeView, e: Event)
    requires
        s.consistent(),
    ensures
        step(s, e).consistent(),
        total_sent_grows(s, step(s, e)),
{
    match e {
        Event::Send { request, now } => {
            if s.send_refusal(request, now) is None {
                lemma_increase_keeps_account(
                    s,
                    request.channel,
                    request.amount.denom(),
                    request.amount.amount(),
                );
            }
        },
        Event::Ack { channel, sequence, packet, ack } => {
            lemma_settle_keeps_account(s, channel, sequence, packet);
            let settled = s.after_settle(channel, sequence, packet);
            let t = s.after_ack(channel, sequence, packet, ack);
            assert(t.balances == settled.balances);
            assert forall|c: Seq<char>, d: Seq<char>| #[trigger]
                s.balance(c, d).total_sent <= t.balance(c, d).total_sent by {
                assert(t.balance(c, d) == settled.balance(c, d));
            }
        },
        Event::Timeout { channel, sequence, packet } => {
            lemma_settle_keeps_account(s, channel, sequence, packet);
        },
    }
}

/// The report of a packet's fate, accepted or refused, keeps every balance
/// within what was ever sent and leaves every counter of what was ever
/// sent as it was.
pub proof fn lemma_settle_keeps_account(s: BridgeView, channel: Seq<char>, sequence: u64, packet: Ics20PacketView)
    requires
        s.consistent(),
    ensures
        s.after_settle(channel, sequence, packet).consistent(),
        total_sent_grows(s, s.after_settle(channel, sequence, packet)),
        forall|c: Seq<char>, d: Seq<char>| #[trigger]
            s.after_settle(channel, sequence, packet).balance(c, d).total_sent == s.balance(
                c,
                d,
            ).total_sent,
{
    if s.settle_refusal(channel, sequence, packet) is None {
        lemma_reduce_keeps_account(s, channel, packet.denom, packet.amount);
        let r = s.reduced(channel, packet.denom, packet.amount);
        let t = s.after_settle(channel, sequence, packet);
        assert(t.balances == r.balances);
        assert forall|c: Seq<char>, d: Seq<char>| #[trigger]
            t.balance(c, d).total_sent == s.balance(c, d).total_sent by {
            assert(t.balance(c, d) == r.balance(c, d));
        }
    }
}

/// Sends, acknowledgements of success and of error, and timeouts, in any
/// number and any order: afterwards every balance has at most as much
/// outstanding as was ever sent, and no counter of what was ever sent is
/// lower than before.
pub proof fn lemma_run_keeps_account(s: BridgeView, events: Seq<Event>)
    requires
        s.consistent(),
    ensures
        run(s, events).consistent(),
        total_sent_grows(s, run(s, events)),
    decreases events.len(),
{
    if events.len() > 0 {
        let mid = run(s, events.drop_last());
        lemma_run_keeps_account(s, events.drop_last());
        lemma_step_keeps_account(mid, events.last());
        let end = run(s, events);
        assert forall|c: Seq<char>, d: Seq<char>| #[trigger]
            s.balance(c, d).total_sent <= end.balance(c, d).total_sent by {
            assert(s.balance(c, d).total_sent <= mid.balance(c, d).total_sent);
            assert(mid.balance(c, d).total_sent <= end.balance(c, d).total_sent);
        }
    }
}

/// A packet's fate is taken once. After a report for a sequence number was
/// accepted, every further report for that number on that channel, be it
/// an acknowledgement or a timeout and whatever packet it names, is
/// refused as settled and changes nothing.
pub proof fn lemma_settled_once(
    s: BridgeView,
    channel: Seq<char>,
    sequence: u64,
    packet: Ics20PacketView,
    again: Ics20PacketView,
)
    requires
        s.settle_refusal(channel, sequence, packet) is None,
    ensures
        s.after_settle(channel, sequence, packet).settle_refusal(channel, sequence, again) == Some(
            ContractError::AlreadySettled,
        ),
        s.after_settle(channel, sequence, packet).after_settle(channel, sequence, again)
            == s.after_settle(channel, sequence, packet),
{
}

/// Reporting the same fate twice is the same as reporting it once, whether
/// the first report was accepted or refused.
pub proof fn lemma_replay_changes_nothing(s: BridgeView, e: Event)
    requires
        !(e is Send),
    ensures
        step(step(s, e), e) == step(s, e),
{
    match e {
        Event::Send { .. } => {},
        Event::Ack { channel, sequence, packet, ack } => {
            if s.settle_refusal(channel, sequence, packet) is None {
                lemma_settled_once(s, channel, sequence, packet, packet);
                let once = s.after_ack(channel, sequence, packet, ack);
                assert(once.settled == s.after_settle(channel, sequence, packet).settled);
                assert(once.settle_refusal(channel, sequence, packet) == Some(
                    ContractError::AlreadySettled,
                ));
            }
        },
        Event::Timeout { channel, sequence, packet } => {
            if s.settle_refusal(channel, sequence, packet) is None {
                lemma_settled_once(s, channel, sequence, packet, packet);
            }
        },
    }
}

/// The allow-list stands before the accounts: a request to send tokens of
/// a cw20 contract that is not on the list is refused, and the state after
/// it is the state before it.
pub proof fn lemma_allow_list_gate(s: BridgeView, request: SendRequest, now: Timestamp)
    requires
        request.amount is Cw20,
        !s.allow_list.contains_key(request.amount->address),
    ensures
        s.send_refusal(request, now) == Some(ContractError::NotOnAllowList) || s.send_refusal(
            request,
            now,
        ) == Some(ContractError::NoSuchChannel),
        s.channels.contains_key(request.channel) ==> s.send_refusal(request, now) == Some(
            ContractError::NotOnAllowList,
        ),
        s.after_send(request, now) == s,
{
}

/// The same of the commands: a sending command whose tokens are those of a
/// cw20 contract that is not on the list leaves the state as it was.
pub proof fn lemma_allow_list_gate_on_commands(
    s: BridgeView,
    msg: ExecuteMsg,
    caller: Seq<char>,
    funds: Seq<Coin>,
    now: Timestamp,
)
    requires
        command_request(msg, caller, funds) matches Ok(Some(request)) && request.amount is Cw20
            && !s.allow_list.contains_key(request.amount->address),
    ensures
        after_execute(s, msg, caller, funds, now) == s,
{
    lemma_allow_list_gate(s, command_request(msg, caller, funds)->Ok_0->0, now);
}

} // verus!
