//! The wire format of a packet: JSON text with the names and the order of
//! the fields fixed.

use vstd::prelude::*;
use vstd::string::*;
use crate::ibc_msg::{
    ClaimPacket, ClaimPacketView, ExitPoolPacket, ExitPoolPacketView, Ics20Packet,
    Ics20PacketView, JoinPoolPacket, LockPacket, OsmoPacket, OsmoPacketView, SwapAmountInRoute,
    SwapAmountInRouteView, SwapPacket, SwapPacketView, UnlockPacket,
};
use crate::error::ContractError;
use crate::json::{
    decimal, expect, expect_at, lemma_expect, lemma_expect_other, lemma_read_number,
    lemma_read_quoted, quoted, read_number, read_number_at, read_quoted, read_quoted_at, rest_of,
    value_of, write_number, write_quoted, write_text,
};
use crate::text::{chars_of, lemma_utf8_injective, str_eq, utf8_text};

verus! {

/// One hop of a swap as JSON text.
pub open spec fn route_json(r: SwapAmountInRouteView) -> Seq<char> {
    "{\"pool_id\":"@ + quoted(decimal(r.pool_id as nat)) + ",\"token_out_denom\":"@ + quoted(
        r.token_out_denom,
    ) + "}"@
}

/// The hops after the first, each behind a comma.
pub open spec fn more_routes_json(routes: Seq<SwapAmountInRouteView>) -> Seq<char>
    decreases routes.len(),
{
    if routes.len() == 0 {
        Seq::empty()
    } else {
        ","@ + route_json(routes[0]) + more_routes_json(routes.skip(1))
    }
}

/// The hops of a swap, with commas between them.
pub open spec fn routes_json(routes: Seq<SwapAmountInRouteView>) -> Seq<char> {
    if routes.len() == 0 {
        Seq::empty()
    } else {
        route_json(routes[0]) + more_routes_json(routes.skip(1))
    }
}

/// An action as JSON text: an object with one key, the action's name in
/// snake case, over the action's fields. Numbers are strings of digits.
pub open spec fn action_json(a: OsmoPacketView) -> Seq<char> {
    match a {
        OsmoPacketView::Swap(p) => "{\"swap\":{\"routes\":["@ + routes_json(p.routes)
            + "],\"token_out_min_amount\":"@ + quoted(decimal(p.token_out_min_amount as nat))
            + "}}"@,
        OsmoPacketView::JoinPool(p) => "{\"join_pool\":{\"pool_id\":"@ + quoted(
            decimal(p.pool_id as nat),
        ) + ",\"share_out_min_amount\":"@ + quoted(decimal(p.share_out_min_amount as nat))
            + "}}"@,
        OsmoPacketView::ExitPool(p) => "{\"exit_pool\":{\"token_out_denom\":"@ + quoted(
            p.token_out_denom,
        ) + ",\"token_out_min_amount\":"@ + quoted(decimal(p.token_out_min_amount as nat))
            + "}}"@,
        OsmoPacketView::LockupAccount => "{\"lockup_account\":{}}"@,
        OsmoPacketView::Lock(p) => "{\"lock\":{\"duration\":"@ + quoted(
            decimal(p.duration as nat),
        ) + "}}"@,
        OsmoPacketView::Claim(p) => "{\"claim\":{\"denom\":"@ + quoted(p.denom) + "}}"@,
        OsmoPacketView::Unlock(p) => "{\"unlock\":{\"id\":"@ + quoted(decimal(p.id as nat))
            + "}}"@,
    }
}

/// What closes a packet: the action under its key, if there is one, and
/// the brace.
pub open spec fn packet_end_json(action: Option<OsmoPacketView>) -> Seq<char> {
    match action {
        Some(a) => ",\"action\":"@ + action_json(a) + "}"@,
        None => "}"@,
    }
}

/// A packet as JSON text: the amount as a string of digits, the
/// denomination, the receiver, the sender, and the action if there is one,
/// in this order and with nothing between them.
pub open spec fn packet_json(p: Ics20PacketView) -> Seq<char> {
    "{\"amount\":"@ + quoted(decimal(p.amount as nat)) + ",\"denom\":"@ + quoted(p.denom)
        + ",\"receiver\":"@ + quoted(p.receiver) + ",\"sender\":"@ + quoted(p.sender)
        + packet_end_json(p.action)
}

spec fn parse_route(rest: Seq<char>) -> Option<(SwapAmountInRouteView, Seq<char>)> {
    let r1 = expect(rest, "{\"pool_id\":"@);
    let id = read_number(r1->0, u64::MAX as nat);
    let r2 = expect(rest_of(id), ",\"token_out_denom\":"@);
    let denom = read_quoted(r2->0);
    let r3 = expect(rest_of(denom), "}"@);
    if r1 is Some && id is Some && r2 is Some && denom is Some && r3 is Some {
        Some(
            (
                SwapAmountInRouteView { pool_id: value_of(id) as u64, token_out_denom: value_of(denom) },
                r3->0,
            ),
        )
    } else {
        None
    }
}

proof fn lemma_parse_route(r: SwapAmountInRouteView, tail: Seq<char>)
    ensures
        parse_route(route_json(r) + tail) == Some((r, tail)),
        (route_json(r) + tail).len() > tail.len(),
{
    let s4 = "}"@ + tail;
    let s3 = quoted(r.token_out_denom) + s4;
    let s2 = ",\"token_out_denom\":"@ + s3;
    let s1 = quoted(decimal(r.pool_id as nat)) + s2;
    let s0 = "{\"pool_id\":"@ + s1;
    assert(route_json(r) + tail =~= s0);
    lemma_expect("{\"pool_id\":"@, s1);
    lemma_read_number(r.pool_id as nat, u64::MAX as nat, s2);
    lemma_expect(",\"token_out_denom\":"@, s3);
    lemma_read_quoted(r.token_out_denom, s4);
    lemma_expect("}"@, tail);
}

spec fn parse_more_routes(rest: Seq<char>) -> Option<(Seq<SwapAmountInRouteView>, Seq<char>)>
    decreases rest.len(),
{
    let comma = expect(rest, ","@);
    if comma is None {
        Some((Seq::empty(), rest))
    } else {
        let r = parse_route(comma->0);
        if r is None || rest_of(r).len() >= rest.len() {
            None
        } else {
            match parse_more_routes(rest_of(r)) {
                Some((rs, t)) => Some((seq![value_of(r)] + rs, t)),
                None => None,
            }
        }
    }
}

proof fn lemma_parse_more_routes(rs: Seq<SwapAmountInRouteView>, tail: Seq<char>)
    requires
        expect(tail, ","@) is None,
    ensures
        parse_more_routes(more_routes_json(rs) + tail) == Some((rs, tail)),
    decreases rs.len(),
{
    let rest = more_routes_json(rs) + tail;
    if rs.len() == 0 {
        assert(rest =~= tail);
    } else {
        let after = more_routes_json(rs.skip(1)) + tail;
        let s1 = route_json(rs[0]) + after;
        assert(rest =~= ","@ + s1);
        lemma_expect(","@, s1);
        lemma_parse_route(rs[0], after);
        lemma_parse_more_routes(rs.skip(1), tail);
        assert(seq![rs[0]] + rs.skip(1) =~= rs);
    }
}

spec fn parse_routes(rest: Seq<char>) -> Option<(Seq<SwapAmountInRouteView>, Seq<char>)> {
    let first = parse_route(rest);
    if first is None {
        Some((Seq::empty(), rest))
    } else {
        match parse_more_routes(rest_of(first)) {
            Some((rs, t)) => Some((seq![value_of(first)] + rs, t)),
            None => None,
        }
    }
}

proof fn lemma_parse_routes(rs: Seq<SwapAmountInRouteView>, tail: Seq<char>)
    requires
        expect(tail, ","@) is None,
        expect(tail, "{\"pool_id\":"@) is None,
    ensures
        parse_routes(routes_json(rs) + tail) == Some((rs, tail)),
{
    let rest = routes_json(rs) + tail;
    if rs.len() == 0 {
        assert(rest =~= tail);
    } else {
        let after = more_routes_json(rs.skip(1)) + tail;
        assert(rest =~= route_json(rs[0]) + after);
        lemma_parse_route(rs[0], after);
        lemma_parse_more_routes(rs.skip(1), tail);
        assert(seq![rs[0]] + rs.skip(1) =~= rs);
    }
}

spec fn parse_swap(rest: Seq<char>) -> Option<(OsmoPacketView, Seq<char>)> {
    let routes = parse_routes(rest);
    let r1 = expect(rest_of(routes), "],\"token_out_min_amount\":"@);
    let min = read_number(r1->0, u128::MAX as nat);
    let r2 = expect(rest_of(min), "}}"@);
    if routes is Some && r1 is Some && min is Some && r2 is Some {
        Some(
            (
                OsmoPacketView::Swap(
                    SwapPacketView {
                        routes: value_of(routes),
                        token_out_min_amount: value_of(min) as u128,
                    },
                ),
                r2->0,
            ),
        )
    } else {
        None
    }
}

spec fn parse_join_pool(rest: Seq<char>) -> Option<(OsmoPacketView, Seq<char>)> {
    let id = read_number(rest, u64::MAX as nat);
    let r1 = expect(rest_of(id), ",\"share_out_min_amount\":"@);
    let min = read_number(r1->0, u128::MAX as nat);
    let r2 = expect(rest_of(min), "}}"@);
    if id is Some && r1 is Some && min is Some && r2 is Some {
        Some(
            (
                OsmoPacketView::JoinPool(
                    JoinPoolPacket {
                        pool_id: value_of(id) as u64,
                        share_out_min_amount: value_of(min) as u128,
                    },
                ),
                r2->0,
            ),
        )
    } else {
        None
    }
}

spec fn parse_exit_pool(rest: Seq<char>) -> Option<(OsmoPacketView, Seq<char>)> {
    let denom = read_quoted(rest);
    let r1 = expect(rest_of(denom), ",\"token_out_min_amount\":"@);
    let min = read_number(r1->0, u128::MAX as nat);
    let r2 = expect(rest_of(min), "}}"@);
    if denom is Some && r1 is Some && min is Some && r2 is Some {
        Some(
            (
                OsmoPacketView::ExitPool(
                    ExitPoolPacketView {
                        token_out_denom: value_of(denom),
                        token_out_min_amount: value_of(min) as u128,
                    },
                ),
                r2->0,
            ),
        )
    } else {
        None
    }
}

spec fn parse_lock(rest: Seq<char>) -> Option<(OsmoPacketView, Seq<char>)> {
    let duration = read_number(rest, u64::MAX as nat);
    let r1 = expect(rest_of(duration), "}}"@);
    if duration is Some && r1 is Some {
        Some((OsmoPacketView::Lock(LockPacket { duration: value_of(duration) as u64 }), r1->0))
    } else {
        None
    }
}

spec fn parse_claim(rest: Seq<char>) -> Option<(OsmoPacketView, Seq<char>)> {
    let denom = read_quoted(rest);
    let r1 = expect(rest_of(denom), "}}"@);
    if denom is Some && r1 is Some {
        Some((OsmoPacketView::Claim(ClaimPacketView { denom: value_of(denom) }), r1->0))
    } else {
        None
    }
}

spec fn parse_unlock(rest: Seq<char>) -> Option<(OsmoPacketView, Seq<char>)> {
    let id = read_number(rest, u64::MAX as nat);
    let r1 = expect(rest_of(id), "}}"@);
    if id is Some && r1 is Some {
        Some((OsmoPacketView::Unlock(UnlockPacket { id: value_of(id) as u64 }), r1->0))
    } else {
        None
    }
}

spec fn parse_action(rest: Seq<char>) -> Option<(OsmoPacketView, Seq<char>)> {
    let swap = expect(rest, "{\"swap\":{\"routes\":["@);
    let join = expect(rest, "{\"join_pool\":{\"pool_id\":"@);
    let exit = expect(rest, "{\"exit_pool\":{\"token_out_denom\":"@);
    let lockup = expect(rest, "{\"lockup_account\":{}}"@);
    let lock = expect(rest, "{\"lock\":{\"duration\":"@);
    let claim = expect(rest, "{\"claim\":{\"denom\":"@);
    let unlock = expect(rest, "{\"unlock\":{\"id\":"@);
    if swap is Some {
        parse_swap(swap->0)
    } else if join is Some {
        parse_join_pool(join->0)
    } else if exit is Some {
        parse_exit_pool(exit->0)
    } else if lockup is Some {
        Some((OsmoPacketView::LockupAccount, lockup->0))
    } else if lock is Some {
        parse_lock(lock->0)
    } else if claim is Some {
        parse_claim(claim->0)
    } else if unlock is Some {
        parse_unlock(unlock->0)
    } else {
        None
    }
}

/// What begins with one action's name does not begin with another's.
proof fn lemma_action_names_differ(rest: Seq<char>)
    ensures
        rest.len() > 2 && rest[2] != 's' ==> expect(rest, "{\"swap\":{\"routes\":["@) is None,
        rest.len() > 2 && rest[2] != 'j' ==> expect(rest, "{\"join_pool\":{\"pool_id\":"@)
            is None,
        rest.len() > 2 && rest[2] != 'e' ==> expect(
            rest,
            "{\"exit_pool\":{\"token_out_denom\":"@,
        ) is None,
        rest.len() > 6 && (rest[2] != 'l' || rest[6] != 'u') ==> expect(
            rest,
            "{\"lockup_account\":{}}"@,
        ) is None,
        rest.len() > 6 && (rest[2] != 'l' || rest[6] != '"') ==> expect(
            rest,
            "{\"lock\":{\"duration\":"@,
        ) is None,
        rest.len() > 2 && rest[2] != 'c' ==> expect(rest, "{\"claim\":{\"denom\":"@) is None,
        rest.len() > 2 && rest[2] != 'u' ==> expect(rest, "{\"unlock\":{\"id\":"@) is None,
{
    reveal_strlit("{\"swap\":{\"routes\":[");
    reveal_strlit("{\"join_pool\":{\"pool_id\":");
    reveal_strlit("{\"exit_pool\":{\"token_out_denom\":");
    reveal_strlit("{\"lockup_account\":{}}");
    reveal_strlit("{\"lock\":{\"duration\":");
    reveal_strlit("{\"claim\":{\"denom\":");
    reveal_strlit("{\"unlock\":{\"id\":");
    if rest.len() > 2 {
        if rest[2] != 's' {
            lemma_expect_other(rest, "{\"swap\":{\"routes\":["@, 2);
        }
        if rest[2] != 'j' {
            lemma_expect_other(rest, "{\"join_pool\":{\"pool_id\":"@, 2);
        }
        if rest[2] != 'e' {
            lemma_expect_other(rest, "{\"exit_pool\":{\"token_out_denom\":"@, 2);
        }
        if rest[2] != 'c' {
            lemma_expect_other(rest, "{\"claim\":{\"denom\":"@, 2);
        }
        if rest[2] != 'u' {
            lemma_expect_other(rest, "{\"unlock\":{\"id\":"@, 2);
        }
        if rest[2] != 'l' {
            lemma_expect_other(rest, "{\"lockup_account\":{}}"@, 2);
            lemma_expect_other(rest, "{\"lock\":{\"duration\":"@, 2);
        }
    }
    if rest.len() > 6 {
        if rest[6] != 'u' {
            lemma_expect_other(rest, "{\"lockup_account\":{}}"@, 6);
        }
        if rest[6] != '"' {
            lemma_expect_other(rest, "{\"lock\":{\"duration\":"@, 6);
        }
    }
}

/// What follows the hops of a swap begins with a bracket: neither with
/// the comma before a further hop nor with a hop.
proof fn lemma_routes_end(tail: Seq<char>)
    ensures
        expect("],\"token_out_min_amount\":"@ + tail, ","@) is None,
        expect("],\"token_out_min_amount\":"@ + tail, "{\"pool_id\":"@) is None,
{
    reveal_strlit("],\"token_out_min_amount\":");
    reveal_strlit(",");
    reveal_strlit("{\"pool_id\":");
    let s = "],\"token_out_min_amount\":"@ + tail;
    assert(s[0] == ']');
    lemma_expect_other(s, ","@, 0);
    lemma_expect_other(s, "{\"pool_id\":"@, 0);
}

proof fn lemma_parse_swap_body(p: SwapPacketView, tail: Seq<char>)
    ensures
        parse_swap(
            routes_json(p.routes) + ("],\"token_out_min_amount\":"@ + (quoted(
                decimal(p.token_out_min_amount as nat),
            ) + ("}}"@ + tail))),
        ) == Some((OsmoPacketView::Swap(p), tail)),
{
    let s3 = "}}"@ + tail;
    let s2 = quoted(decimal(p.token_out_min_amount as nat)) + s3;
    let s1 = "],\"token_out_min_amount\":"@ + s2;
    lemma_routes_end(s2);
    lemma_parse_routes(p.routes, s1);
    lemma_expect("],\"token_out_min_amount\":"@, s2);
    lemma_read_number(p.token_out_min_amount as nat, u128::MAX as nat, s3);
    lemma_expect("}}"@, tail);
}

proof fn lemma_parse_swap(p: SwapPacketView, tail: Seq<char>)
    ensures
        parse_action(action_json(OsmoPacketView::Swap(p)) + tail) == Some(
            (OsmoPacketView::Swap(p), tail),
        ),
{
    let rest = action_json(OsmoPacketView::Swap(p)) + tail;
    let s0 = routes_json(p.routes) + ("],\"token_out_min_amount\":"@ + (quoted(
        decimal(p.token_out_min_amount as nat),
    ) + ("}}"@ + tail)));
    assert(rest =~= "{\"swap\":{\"routes\":["@ + s0);
    lemma_expect("{\"swap\":{\"routes\":["@, s0);
    lemma_parse_swap_body(p, tail);
}

proof fn lemma_parse_join_pool(p: JoinPoolPacket, tail: Seq<char>)
    ensures
        parse_action(action_json(OsmoPacketView::JoinPool(p)) + tail) == Some(
            (OsmoPacketView::JoinPool(p), tail),
        ),
{
    let rest = action_json(OsmoPacketView::JoinPool(p)) + tail;
    let s3 = "}}"@ + tail;
    let s2 = quoted(decimal(p.share_out_min_amount as nat)) + s3;
    let s1 = ",\"share_out_min_amount\":"@ + s2;
    let s0 = quoted(decimal(p.pool_id as nat)) + s1;
    assert(rest =~= "{\"join_pool\":{\"pool_id\":"@ + s0);
    lemma_expect("{\"join_pool\":{\"pool_id\":"@, s0);
    assert(parse_join_pool(s0) == Some((OsmoPacketView::JoinPool(p), tail))) by {
        lemma_read_number(p.pool_id as nat, u64::MAX as nat, s1);
        lemma_expect(",\"share_out_min_amount\":"@, s2);
        lemma_read_number(p.share_out_min_amount as nat, u128::MAX as nat, s3);
        lemma_expect("}}"@, tail);
    }
    assert(rest.len() > 2 && rest[2] == 'j') by {
        reveal_strlit("{\"join_pool\":{\"pool_id\":");
    }
    lemma_action_names_differ(rest);
}

proof fn lemma_parse_exit_pool(p: ExitPoolPacketView, tail: Seq<char>)
    ensures
        parse_action(action_json(OsmoPacketView::ExitPool(p)) + tail) == Some(
            (OsmoPacketView::ExitPool(p), tail),
        ),
{
    let rest = action_json(OsmoPacketView::ExitPool(p)) + tail;
    let s3 = "}}"@ + tail;
    let s2 = quoted(decimal(p.token_out_min_amount as nat)) + s3;
    let s1 = ",\"token_out_min_amount\":"@ + s2;
    let s0 = quoted(p.token_out_denom) + s1;
    assert(rest =~= "{\"exit_pool\":{\"token_out_denom\":"@ + s0);
    lemma_expect("{\"exit_pool\":{\"token_out_denom\":"@, s0);
    assert(parse_exit_pool(s0) == Some((OsmoPacketView::ExitPool(p), tail))) by {
        lemma_read_quoted(p.token_out_denom, s1);
        lemma_expect(",\"token_out_min_amount\":"@, s2);
        lemma_read_number(p.token_out_min_amount as nat, u128::MAX as nat, s3);
        lemma_expect("}}"@, tail);
    }
    assert(rest.len() > 2 && rest[2] == 'e') by {
        reveal_strlit("{\"exit_pool\":{\"token_out_denom\":");
    }
    lemma_action_names_differ(rest);
}

proof fn lemma_parse_lockup_account(tail: Seq<char>)
    ensures
        parse_action(action_json(OsmoPacketView::LockupAccount) + tail) == Some(
            (OsmoPacketView::LockupAccount, tail),
        ),
{
    let rest = action_json(OsmoPacketView::LockupAccount) + tail;
    lemma_expect("{\"lockup_account\":{}}"@, tail);
    assert(rest.len() > 6 && rest[2] == 'l' && rest[6] == 'u') by {
        reveal_strlit("{\"lockup_account\":{}}");
    }
    lemma_action_names_differ(rest);
}

proof fn lemma_parse_lock(p: LockPacket, tail: Seq<char>)
    ensures
        parse_action(action_json(OsmoPacketView::Lock(p)) + tail) == Some(
            (OsmoPacketView::Lock(p), tail),
        ),
{
    let rest = action_json(OsmoPacketView::Lock(p)) + tail;
    let s1 = "}}"@ + tail;
    let s0 = quoted(decimal(p.duration as nat)) + s1;
    assert(rest =~= "{\"lock\":{\"duration\":"@ + s0);
    lemma_expect("{\"lock\":{\"duration\":"@, s0);
    assert(parse_lock(s0) == Some((OsmoPacketView::Lock(p), tail))) by {
        lemma_read_number(p.duration as nat, u64::MAX as nat, s1);
        lemma_expect("}}"@, tail);
    }
    assert(rest.len() > 6 && rest[2] == 'l' && rest[6] == '"') by {
        reveal_strlit("{\"lock\":{\"duration\":");
    }
    lemma_action_names_differ(rest);
}

proof fn lemma_parse_claim(p: ClaimPacketView, tail: Seq<char>)
    ensures
        parse_action(action_json(OsmoPacketView::Claim(p)) + tail) == Some(
            (OsmoPacketView::Claim(p), tail),
        ),
{
    let rest = action_json(OsmoPacketView::Claim(p)) + tail;
    let s1 = "}}"@ + tail;
    let s0 = quoted(p.denom) + s1;
    assert(rest =~= "{\"claim\":{\"denom\":"@ + s0);
    lemma_expect("{\"claim\":{\"denom\":"@, s0);
    assert(parse_claim(s0) == Some((OsmoPacketView::Claim(p), tail))) by {
        lemma_read_quoted(p.denom, s1);
        lemma_expect("}}"@, tail);
    }
    assert(rest.len() > 6 && rest[2] == 'c') by {
        reveal_strlit("{\"claim\":{\"denom\":");
    }
    lemma_action_names_differ(rest);
}

proof fn lemma_parse_unlock(p: UnlockPacket, tail: Seq<char>)
    ensures
        parse_action(action_json(OsmoPacketView::Unlock(p)) + tail) == Some(
            (OsmoPacketView::Unlock(p), tail),
        ),
{
    let rest = action_json(OsmoPacketView::Unlock(p)) + tail;
    let s1 = "}}"@ + tail;
    let s0 = quoted(decimal(p.id as nat)) + s1;
    assert(rest =~= "{\"unlock\":{\"id\":"@ + s0);
    lemma_expect("{\"unlock\":{\"id\":"@, s0);
    assert(parse_unlock(s0) == Some((OsmoPacketView::Unlock(p), tail))) by {
        lemma_read_number(p.id as nat, u64::MAX as nat, s1);
        lemma_expect("}}"@, tail);
    }
    assert(rest.len() > 6 && rest[2] == 'u') by {
        reveal_strlit("{\"unlock\":{\"id\":");
    }
    lemma_action_names_differ(rest);
}

proof fn lemma_parse_action(a: OsmoPacketView, tail: Seq<char>)
    ensures
        parse_action(action_json(a) + tail) == Some((a, tail)),
{
    match a {
        OsmoPacketView::Swap(p) => lemma_parse_swap(p, tail),
        OsmoPacketView::JoinPool(p) => lemma_parse_join_pool(p, tail),
        OsmoPacketView::ExitPool(p) => lemma_parse_exit_pool(p, tail),
        OsmoPacketView::LockupAccount => lemma_parse_lockup_account(tail),
        OsmoPacketView::Lock(p) => lemma_parse_lock(p, tail),
        OsmoPacketView::Claim(p) => lemma_parse_claim(p, tail),
        OsmoPacketView::Unlock(p) => lemma_parse_unlock(p, tail),
    }
}

spec fn parse_packet_end(rest: Seq<char>) -> Option<Option<OsmoPacketView>> {
    let plain = expect(rest, "}"@);
    let key = expect(rest, ",\"action\":"@);
    let action = parse_action(key->0);
    let close = expect(rest_of(action), "}"@);
    if plain is Some && plain->0.len() == 0 {
        Some(None)
    } else if key is Some && action is Some && close is Some && close->0.len() == 0 {
        Some(Some(value_of(action)))
    } else {
        None
    }
}

spec fn parse_packet(text: Seq<char>) -> Option<Ics20PacketView> {
    let r1 = expect(text, "{\"amount\":"@);
    let amount = read_number(r1->0, u128::MAX as nat);
    let r2 = expect(rest_of(amount), ",\"denom\":"@);
    let denom = read_quoted(r2->0);
    let r3 = expect(rest_of(denom), ",\"receiver\":"@);
    let receiver = read_quoted(r3->0);
    let r4 = expect(rest_of(receiver), ",\"sender\":"@);
    let sender = read_quoted(r4->0);
    let end = parse_packet_end(rest_of(sender));
    if r1 is Some && amount is Some && r2 is Some && denom is Some && r3 is Some && receiver
        is Some && r4 is Some && sender is Some && end is Some {
        Some(
            Ics20PacketView {
                amount: value_of(amount) as u128,
                denom: value_of(denom),
                receiver: value_of(receiver),
                sender: value_of(sender),
                action: end->0,
            },
        )
    } else {
        None
    }
}

proof fn lemma_parse_packet_end(action: Option<OsmoPacketView>)
    ensures
        parse_packet_end(packet_end_json(action)) == Some(action),
{
    let rest = packet_end_json(action);
    reveal_strlit("}");
    reveal_strlit(",\"action\":");
    match action {
        None => {
            lemma_expect("}"@, Seq::empty());
            assert(rest =~= "}"@ + Seq::<char>::empty());
        },
        Some(a) => {
            let s0 = action_json(a) + "}"@;
            assert(rest =~= ",\"action\":"@ + s0);
            lemma_expect_other(rest, "}"@, 0);
            lemma_expect(",\"action\":"@, s0);
            lemma_parse_action(a, "}"@);
            lemma_expect("}"@, Seq::empty());
            assert("}"@ =~= "}"@ + Seq::<char>::empty());
        },
    }
}

proof fn lemma_parse_packet(p: Ics20PacketView)
    ensures
        parse_packet(packet_json(p)) == Some(p),
{
    let s7 = packet_end_json(p.action);
    let s6 = quoted(p.sender) + s7;
    let s5 = ",\"sender\":"@ + s6;
    let s4 = quoted(p.receiver) + s5;
    let s3 = ",\"receiver\":"@ + s4;
    let s2 = quoted(p.denom) + s3;
    let s1 = ",\"denom\":"@ + s2;
    let s0 = quoted(decimal(p.amount as nat)) + s1;
    assert(packet_json(p) =~= "{\"amount\":"@ + s0);
    lemma_expect("{\"amount\":"@, s0);
    lemma_read_number(p.amount as nat, u128::MAX as nat, s1);
    lemma_expect(",\"denom\":"@, s2);
    lemma_read_quoted(p.denom, s3);
    lemma_expect(",\"receiver\":"@, s4);
    lemma_read_quoted(p.receiver, s5);
    lemma_expect(",\"sender\":"@, s6);
    lemma_read_quoted(p.sender, s7);
    lemma_parse_packet_end(p.action);
}

/// Two packets with the same JSON text are the same packet.
pub proof fn lemma_packet_json_injective(p: Ics20PacketView, q: Ics20PacketView)
    requires
        packet_json(p) == packet_json(q),
    ensures
        p == q,
{
    lemma_parse_packet(p);
    lemma_parse_packet(q);
}

fn write_route(out: &mut String, r: &SwapAmountInRoute)
    ensures
        final(out)@ == old(out)@ + route_json(r@),
{
    let ghost before = out@;
    write_text(out, "{\"pool_id\":");
    write_number(out, r.pool_id as u128);
    write_text(out, ",\"token_out_denom\":");
    write_quoted(out, r.token_out_denom.as_str());
    write_text(out, "}");
    assert(out@ =~= before + route_json(r@));
}

fn write_routes(out: &mut String, routes: &Vec<SwapAmountInRoute>)
    ensures
        final(out)@ == old(out)@ + routes_json(crate::ibc_msg::routes_view(routes@)),
{
    let ghost before = out@;
    let ghost rs = crate::ibc_msg::routes_view(routes@);
    if routes.len() == 0 {
        assert(out@ =~= before + routes_json(rs));
        return ;
    }
    write_route(out, &routes[0]);
    let mut i: usize = 1;
    while i < routes.len()
        invariant
            1 <= i <= routes.len(),
            rs == crate::ibc_msg::routes_view(routes@),
            before + routes_json(rs) == out@ + more_routes_json(rs.skip(i as int)),
        decreases routes.len() - i,
    {
        let ghost cur = out@;
        let ghost tail = rs.skip(i as int);
        write_text(out, ",");
        write_route(out, &routes[i]);
        proof {
            assert(tail[0] == routes@[i as int]@);
            assert(tail.skip(1) =~= rs.skip(i + 1));
            assert(cur + more_routes_json(tail) =~= out@ + more_routes_json(rs.skip(i + 1)));
        }
        i += 1;
    }
    proof {
        assert(rs.skip(i as int).len() == 0);
        assert(out@ =~= before + routes_json(rs));
    }
}

fn write_action(out: &mut String, a: &OsmoPacket)
    ensures
        final(out)@ == old(out)@ + action_json(a@),
{
    let ghost before = out@;
    match a {
        OsmoPacket::Swap(p) => {
            write_text(out, "{\"swap\":{\"routes\":[");
            write_routes(out, &p.routes);
            write_text(out, "],\"token_out_min_amount\":");
            write_number(out, p.token_out_min_amount);
            write_text(out, "}}");
        },
        OsmoPacket::JoinPool(p) => {
            write_text(out, "{\"join_pool\":{\"pool_id\":");
            write_number(out, p.pool_id as u128);
            write_text(out, ",\"share_out_min_amount\":");
            write_number(out, p.share_out_min_amount);
            write_text(out, "}}");
        },
        OsmoPacket::ExitPool(p) => {
            write_text(out, "{\"exit_pool\":{\"token_out_denom\":");
            write_quoted(out, p.token_out_denom.as_str());
            write_text(out, ",\"token_out_min_amount\":");
            write_number(out, p.token_out_min_amount);
            write_text(out, "}}");
        },
        OsmoPacket::LockupAccount {  } => {
            write_text(out, "{\"lockup_account\":{}}");
        },
        OsmoPacket::Lock(p) => {
            write_text(out, "{\"lock\":{\"duration\":");
            write_number(out, p.duration as u128);
            write_text(out, "}}");
        },
        OsmoPacket::Claim(p) => {
            write_text(out, "{\"claim\":{\"denom\":");
            write_quoted(out, p.denom.as_str());
            write_text(out, "}}");
        },
        OsmoPacket::Unlock(p) => {
            write_text(out, "{\"unlock\":{\"id\":");
            write_number(out, p.id as u128);
            write_text(out, "}}");
        },
    }
    assert(out@ =~= before + action_json(a@));
}

fn parse_route_at(v: &Vec<char>, pos: usize) -> (r: Option<(SwapAmountInRoute, usize)>)
    requires
        pos <= v.len(),
    ensures
        match r {
            Some((x, next)) => pos < next <= v.len() && parse_route(v@.skip(pos as int)) == Some(
                (x@, v@.skip(next as int)),
            ),
            None => parse_route(v@.skip(pos as int)) is None,
        },
{
    let p1 = expect_at(v, pos, "{\"pool_id\":")?;
    let (id, p2) = read_number_at(v, p1, u64::MAX as u128)?;
    let p3 = expect_at(v, p2, ",\"token_out_denom\":")?;
    let (denom, p4) = read_quoted_at(v, p3)?;
    let p5 = expect_at(v, p4, "}")?;
    Some((SwapAmountInRoute { pool_id: id as u64, token_out_denom: denom }, p5))
}

/// A list of hops with more hops in front of it.
spec fn with_routes(
    a: Seq<SwapAmountInRouteView>,
    x: Option<(Seq<SwapAmountInRouteView>, Seq<char>)>,
) -> Option<(Seq<SwapAmountInRouteView>, Seq<char>)> {
    match x {
        Some((rs, t)) => Some((a + rs, t)),
        None => None,
    }
}

fn parse_routes_at(v: &Vec<char>, pos: usize) -> (r: Option<(Vec<SwapAmountInRoute>, usize)>)
    requires
        pos <= v.len(),
    ensures
        match r {
            Some((x, next)) => pos <= next <= v.len() && parse_routes(v@.skip(pos as int))
                == Some((crate::ibc_msg::routes_view(x@), v@.skip(next as int))),
            None => parse_routes(v@.skip(pos as int)) is None,
        },
{
    let mut routes: Vec<SwapAmountInRoute> = Vec::new();
    let (first, start) = match parse_route_at(v, pos) {
        Some(x) => x,
        None => {
            assert(crate::ibc_msg::routes_view(routes@) =~= Seq::empty());
            return Some((routes, pos));
        },
    };
    let ghost first_view = first@;
    routes.push(first);
    let ghost full = parse_more_routes(v@.skip(start as int));
    let mut at: usize = start;
    proof {
        assert(full == with_routes(Seq::empty(), full)) by {
            match full {
                Some((rs, t)) => {
                    assert(Seq::<SwapAmountInRouteView>::empty() + rs =~= rs);
                },
                None => {},
            }
        }
        assert(crate::ibc_msg::routes_view(routes@) =~= seq![first_view]);
    }
    loop
        invariant
            pos <= at <= v.len(),
            routes@.len() >= 1,
            crate::ibc_msg::routes_view(routes@)[0] == first_view,
            full == with_routes(
                crate::ibc_msg::routes_view(routes@).skip(1),
                parse_more_routes(v@.skip(at as int)),
            ),
            parse_routes(v@.skip(pos as int)) == match full {
                Some((rs, t)) => Some((seq![first_view] + rs, t)),
                None => None,
            },
        decreases v.len() - at,
    {
        let ghost done = crate::ibc_msg::routes_view(routes@);
        let after_comma = match expect_at(v, at, ",") {
            Some(p) => p,
            None => {
                proof {
                    assert(done.skip(1) + Seq::<SwapAmountInRouteView>::empty() =~= done.skip(1));
                    assert(seq![first_view] + done.skip(1) =~= done);
                }
                return Some((routes, at));
            },
        };
        let (route, next) = parse_route_at(v, after_comma)?;
        let ghost route_view = route@;
        routes.push(route);
        proof {
            let more = parse_more_routes(v@.skip(next as int));
            let grown = crate::ibc_msg::routes_view(routes@);
            assert(grown.skip(1) =~= done.skip(1).push(route_view));
            assert(grown[0] == first_view);
            match more {
                Some((rs, t)) => {
                    assert(done.skip(1) + (seq![route_view] + rs) =~= grown.skip(1) + rs);
                },
                None => {},
            }
        }
        at = next;
    }
}

fn parse_action_at(v: &Vec<char>, pos: usize) -> (r: Option<(OsmoPacket, usize)>)
    requires
        pos <= v.len(),
    ensures
        match r {
            Some((x, next)) => pos <= next <= v.len() && parse_action(v@.skip(pos as int))
                == Some((x@, v@.skip(next as int))),
            None => parse_action(v@.skip(pos as int)) is None,
        },
{
    if let Some(p0) = expect_at(v, pos, "{\"swap\":{\"routes\":[") {
        let (routes, p1) = parse_routes_at(v, p0)?;
        let p2 = expect_at(v, p1, "],\"token_out_min_amount\":")?;
        let (min, p3) = read_number_at(v, p2, u128::MAX)?;
        let p4 = expect_at(v, p3, "}}")?;
        Some((OsmoPacket::Swap(SwapPacket { routes, token_out_min_amount: min }), p4))
    } else if let Some(p0) = expect_at(v, pos, "{\"join_pool\":{\"pool_id\":") {
        let (id, p1) = read_number_at(v, p0, u64::MAX as u128)?;
        let p2 = expect_at(v, p1, ",\"share_out_min_amount\":")?;
        let (min, p3) = read_number_at(v, p2, u128::MAX)?;
        let p4 = expect_at(v, p3, "}}")?;
        Some(
            (
                OsmoPacket::JoinPool(
                    JoinPoolPacket { pool_id: id as u64, share_out_min_amount: min },
                ),
                p4,
            ),
        )
    } else if let Some(p0) = expect_at(v, pos, "{\"exit_pool\":{\"token_out_denom\":") {
        let (denom, p1) = read_quoted_at(v, p0)?;
        let p2 = expect_at(v, p1, ",\"token_out_min_amount\":")?;
        let (min, p3) = read_number_at(v, p2, u128::MAX)?;
        let p4 = expect_at(v, p3, "}}")?;
        Some(
            (
                OsmoPacket::ExitPool(
                    ExitPoolPacket { token_out_denom: denom, token_out_min_amount: min },
                ),
                p4,
            ),
        )
    } else if let Some(p0) = expect_at(v, pos, "{\"lockup_account\":{}}") {
        Some((OsmoPacket::LockupAccount {  }, p0))
    } else if let Some(p0) = expect_at(v, pos, "{\"lock\":{\"duration\":") {
        let (duration, p1) = read_number_at(v, p0, u64::MAX as u128)?;
        let p2 = expect_at(v, p1, "}}")?;
        Some((OsmoPacket::Lock(LockPacket { duration: duration as u64 }), p2))
    } else if let Some(p0) = expect_at(v, pos, "{\"claim\":{\"denom\":") {
        let (denom, p1) = read_quoted_at(v, p0)?;
        let p2 = expect_at(v, p1, "}}")?;
        Some((OsmoPacket::Claim(ClaimPacket { denom }), p2))
    } else if let Some(p0) = expect_at(v, pos, "{\"unlock\":{\"id\":") {
        let (id, p1) = read_number_at(v, p0, u64::MAX as u128)?;
        let p2 = expect_at(v, p1, "}}")?;
        Some((OsmoPacket::Unlock(UnlockPacket { id: id as u64 }), p2))
    } else {
        None
    }
}

fn parse_packet_end_at(v: &Vec<char>, pos: usize) -> (r: Option<Option<OsmoPacket>>)
    requires
        pos <= v.len(),
    ensures
        match r {
            Some(a) => parse_packet_end(v@.skip(pos as int)) == Some(
                crate::ibc_msg::action_view(a),
            ),
            None => parse_packet_end(v@.skip(pos as int)) is None,
        },
{
    match expect_at(v, pos, "}") {
        Some(p) => {
            if p == v.len() {
                return Some(None);
            }
        },
        None => {},
    }
    let p1 = expect_at(v, pos, ",\"action\":")?;
    let (action, p2) = parse_action_at(v, p1)?;
    match expect_at(v, p2, "}") {
        Some(p) => {
            if p == v.len() {
                Some(Some(action))
            } else {
                None
            }
        },
        None => None,
    }
}

fn parse_packet_at(v: &Vec<char>) -> (r: Option<Ics20Packet>)
    ensures
        match r {
            Some(p) => parse_packet(v@) == Some(p@),
            None => parse_packet(v@) is None,
        },
{
    proof {
        assert(v@.skip(0) =~= v@);
    }
    let p1 = expect_at(v, 0, "{\"amount\":")?;
    let (amount, p2) = read_number_at(v, p1, u128::MAX)?;
    let p3 = expect_at(v, p2, ",\"denom\":")?;
    let (denom, p4) = read_quoted_at(v, p3)?;
    let p5 = expect_at(v, p4, ",\"receiver\":")?;
    let (receiver, p6) = read_quoted_at(v, p5)?;
    let p7 = expect_at(v, p6, ",\"sender\":")?;
    let (sender, p8) = read_quoted_at(v, p7)?;
    let action = parse_packet_end_at(v, p8)?;
    Some(Ics20Packet { amount, denom, receiver, sender, action })
}

impl Ics20Packet {
    /// The packet as JSON text.
    pub fn to_json(&self) -> (r: String)
        ensures
            r@ == packet_json(self@),
    {
        let mut out = String::new();
        write_text(&mut out, "{\"amount\":");
        write_number(&mut out, self.amount);
        write_text(&mut out, ",\"denom\":");
        write_quoted(&mut out, self.denom.as_str());
        write_text(&mut out, ",\"receiver\":");
        write_quoted(&mut out, self.receiver.as_str());
        write_text(&mut out, ",\"sender\":");
        write_quoted(&mut out, self.sender.as_str());
        match &self.action {
            Some(a) => {
                write_text(&mut out, ",\"action\":");
                write_action(&mut out, a);
                write_text(&mut out, "}");
            },
            None => {
                write_text(&mut out, "}");
            },
        }
        assert(out@ =~= packet_json(self@));
        out
    }

    /// Reads a packet from its JSON text. The text is taken only as
    /// `to_json` writes it: these fields, in this order, numbers as
    /// strings of digits without leading zeros, an action of one of the
    /// seven names, and nothing else.
    pub fn from_json(text: &str) -> (r: Result<Ics20Packet, ContractError>)
        ensures
            match r {
                Ok(p) => packet_json(p@) == text@,
                Err(e) => e == ContractError::Decode && forall|q: Ics20PacketView|
                    packet_json(q) != text@,
            },
    {
        let v = chars_of(text);
        let parsed = parse_packet_at(&v);
        let ok = match &parsed {
            Some(p) => str_eq(p.to_json().as_str(), text),
            None => false,
        };
        if ok {
            match parsed {
                Some(p) => Ok(p),
                None => Err(ContractError::Decode),
            }
        } else {
            proof {
                assert forall|q: Ics20PacketView| packet_json(q) != text@ by {
                    if packet_json(q) == text@ {
                        lemma_parse_packet(q);
                    }
                }
            }
            Err(ContractError::Decode)
        }
    }
}

/// A packet on the wire: the UTF-8 bytes of its JSON text.
pub open spec fn packet_bytes(p: Ics20PacketView) -> Seq<u8> {
    vstd::utf8::encode_utf8(packet_json(p))
}

/// The packet that the bytes are the wire form of, if they are that of any.
pub open spec fn packet_of(data: Seq<u8>) -> Option<Ics20PacketView> {
    if exists|q: Ics20PacketView| packet_bytes(q) == data {
        Some(choose|q: Ics20PacketView| packet_bytes(q) == data)
    } else {
        None
    }
}

/// Two packets with the same bytes on the wire are the same packet, so
/// reading what was written gives back the packet that was written.
pub proof fn lemma_packet_bytes_injective(p: Ics20PacketView, q: Ics20PacketView)
    requires
        packet_bytes(p) == packet_bytes(q),
    ensures
        p == q,
{
    lemma_utf8_injective(packet_json(p), packet_json(q));
    lemma_packet_json_injective(p, q);
}

/// Reading what was written for a packet gives back that packet.
pub proof fn lemma_decode_inverts_encode(p: Ics20PacketView)
    ensures
        packet_of(packet_bytes(p)) == Some(p),
{
    let q = packet_of(packet_bytes(p))->0;
    lemma_packet_bytes_injective(p, q);
}

/// A packet without an action is written as the plain transfer packet:
/// four fields and no key for an action.
pub proof fn lemma_plain_packet_json(p: Ics20PacketView)
    requires
        p.action is None,
    ensures
        packet_json(p) == "{\"amount\":"@ + quoted(decimal(p.amount as nat)) + ",\"denom\":"@
            + quoted(p.denom) + ",\"receiver\":"@ + quoted(p.receiver) + ",\"sender\":"@
            + quoted(p.sender) + "}"@,
{
}

impl Ics20Packet {
    /// The packet as it goes on the wire.
    pub fn encode(&self) -> (r: Vec<u8>)
        ensures
            r@ == packet_bytes(self@),
    {
        self.to_json().as_str().as_bytes_vec()
    }

    /// Reads a packet from the wire: the packet for which `encode` writes
    /// these bytes. Bytes that it writes for no packet are a decode error.
    pub fn decode(data: &[u8]) -> (r: Result<Ics20Packet, ContractError>)
        ensures
            match r {
                Ok(p) => packet_bytes(p@) == data@ && packet_of(data@) == Some(p@),
                Err(e) => e == ContractError::Decode && packet_of(data@) is None
                    && forall|q: Ics20PacketView| packet_bytes(q) != data@,
            },
    {
        match utf8_text(data) {
            Some(text) => {
                let r = Ics20Packet::from_json(text);
                proof {
                    if r is Ok {
                        let p = r->Ok_0@;
                        assert(packet_bytes(p) == data@);
                        lemma_packet_bytes_injective(p, packet_of(data@)->0);
                    } else {
                        assert forall|q: Ics20PacketView| packet_bytes(q) != data@ by {
                            if packet_bytes(q) == data@ {
                                lemma_utf8_injective(packet_json(q), text@);
                            }
                        }
                    }
                }
                r
            },
            None => {
                proof {
                    assert forall|q: Ics20PacketView| packet_bytes(q) != data@ by {
                        vstd::utf8::encode_utf8_valid_utf8(packet_json(q));
                    }
                }
                Err(ContractError::Decode)
            },
        }
    }
}

} // verus!
