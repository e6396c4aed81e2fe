//! The commands: starting the bridge, sending a transfer with or without an
//! action, and the changes that only governance may make.

use vstd::prelude::*;
use vstd::string::*;
use crate::amount::{Amount, AmountView, Coin};
use crate::error::ContractError;
use crate::ibc_msg::{
    action_view, ClaimPacket, ClaimPacketView, ExitPoolPacket, ExitPoolPacketView, Ics20Packet,
    Ics20PacketView, JoinPoolPacket, LockPacket, OsmoPacket, OsmoPacketView, SwapAmountInRoute,
    SwapAmountInRouteView, SwapPacket, SwapPacketView, UnlockPacket, MAX_PACKET_AMOUNT,
};
use crate::msg::{
    AllowMsg, ClaimTokensMsg, CreateLockupMsg, Cw20ReceiveMsg, ExecuteMsg, ExitPoolMsg,
    ExternalTokenMsg, InitMsg, JoinPoolMsg, LockTokensMsg, SwapMsg, TransferMsg, UnlockTokensMsg,
};
use crate::state::{AllowInfo, Bridge, BridgeView, Config};
use crate::timestamp::Timestamp;

verus! {

/// A packet for the transport: the channel to send it on, and the time
/// after which it counts as lost.
#[derive(Debug, PartialEq)]
pub struct OutboundPacket {
    pub channel: String,
    pub packet: Ics20Packet,
    pub timeout: Timestamp,
}

/// What an `OutboundPacket` stands for.
pub struct OutboundPacketView {
    pub channel: Seq<char>,
    pub packet: Ics20PacketView,
    pub timeout: Timestamp,
}

impl View for OutboundPacket {
    type V = OutboundPacketView;

    open spec fn view(&self) -> OutboundPacketView {
        OutboundPacketView { channel: self.channel@, packet: self.packet@, timeout: self.timeout }
    }
}

/// What a sending command asks for.
pub struct SendRequest {
    pub channel: Seq<char>,
    pub timeout: Option<u64>,
    pub amount: AmountView,
    pub sender: Seq<char>,
    pub receiver: Seq<char>,
    pub action: Option<OsmoPacketView>,
}

impl SendRequest {
    /// The packet that the request puts on the wire.
    pub open spec fn packet(self) -> Ics20PacketView {
        Ics20PacketView {
            amount: self.amount.amount(),
            denom: self.amount.denom(),
            receiver: self.receiver,
            sender: self.sender,
            action: self.action,
        }
    }
}

impl BridgeView {
    /// The packet's life in seconds: the caller's choice, else the default.
    pub open spec fn timeout_seconds(self, timeout: Option<u64>) -> u64 {
        match timeout {
            Some(t) => t,
            None => self.default_timeout,
        }
    }

    /// Why the bridge refuses to send, if it does. The channel is looked at
    /// first, then the allow-list, then the amount, then the counters.
    pub open spec fn send_refusal(self, req: SendRequest, now: Timestamp) -> Option<ContractError> {
        if !self.channels.contains_key(req.channel) {
            Some(ContractError::NoSuchChannel)
        } else if req.amount is Cw20 && !self.allow_list.contains_key(req.amount->address) {
            Some(ContractError::NotOnAllowList)
        } else if req.amount.amount() > MAX_PACKET_AMOUNT {
            Some(ContractError::AmountOverflow)
        } else if now.after_seconds(self.timeout_seconds(req.timeout)) > u64::MAX {
            Some(ContractError::Overflow)
        } else if !self.can_increase(req.channel, req.amount.denom(), req.amount.amount()) {
            Some(ContractError::Overflow)
        } else {
            None
        }
    }

    /// What a sending command returns.
    pub open spec fn send_outcome(self, req: SendRequest, now: Timestamp) -> Result<
        OutboundPacketView,
        ContractError,
    > {
        match self.send_refusal(req, now) {
            Some(e) => Err(e),
            None => Ok(
                OutboundPacketView {
                    channel: req.channel,
                    packet: req.packet(),
                    timeout: Timestamp {
                        nanos: now.after_seconds(self.timeout_seconds(req.timeout)) as u64,
                    },
                },
            ),
        }
    }

    /// The state after a sending command: the amount is counted as sent and
    /// outstanding, unless the command was refused.
    pub open spec fn after_send(self, req: SendRequest, now: Timestamp) -> BridgeView {
        match self.send_refusal(req, now) {
            Some(_) => self,
            None => self.increased(req.channel, req.amount.denom(), req.amount.amount()),
        }
    }

    /// What a command of governance returns when `caller` gives it.
    pub open spec fn governance_outcome(self, caller: Seq<char>) -> Result<(), ContractError> {
        if caller == self.admin {
            Ok(())
        } else {
            Err(ContractError::Unauthorized)
        }
    }
}

/// What the result of a sending command stands for.
pub open spec fn outbound_view(r: Result<OutboundPacket, ContractError>) -> Result<
    OutboundPacketView,
    ContractError,
> {
    match r {
        Ok(p) => Ok(p@),
        Err(e) => Err(e),
    }
}

/// The request of a plain transfer: the tokens go to the remote address.
pub open spec fn transfer_request(msg: TransferMsg, amount: AmountView, sender: Seq<char>) -> SendRequest {
    SendRequest {
        channel: msg.channel@,
        timeout: msg.timeout,
        amount,
        sender,
        receiver: msg.remote_address@,
        action: None,
    }
}

/// The request of a swap: one hop through the pool, for the token wanted.
pub open spec fn swap_request(msg: SwapMsg, amount: AmountView, sender: Seq<char>) -> SendRequest {
    SendRequest {
        channel: msg.channel@,
        timeout: msg.timeout,
        amount,
        sender,
        receiver: sender,
        action: Some(
            OsmoPacketView::Swap(
                SwapPacketView {
                    routes: seq![
                        SwapAmountInRouteView { pool_id: msg.pool, token_out_denom: msg.token_out@ },
                    ],
                    token_out_min_amount: msg.min_amount_out,
                },
            ),
        ),
    }
}

/// The request to add liquidity to a pool.
pub open spec fn join_pool_request(msg: JoinPoolMsg, amount: AmountView, sender: Seq<char>) -> SendRequest {
    SendRequest {
        channel: msg.channel@,
        timeout: msg.timeout,
        amount,
        sender,
        receiver: sender,
        action: Some(
            OsmoPacketView::JoinPool(
                JoinPoolPacket { pool_id: msg.pool, share_out_min_amount: msg.share_min_out },
            ),
        ),
    }
}

/// The request to take liquidity out of a pool.
pub open spec fn exit_pool_request(msg: ExitPoolMsg, amount: AmountView, sender: Seq<char>) -> SendRequest {
    SendRequest {
        channel: msg.channel@,
        timeout: msg.timeout,
        amount,
        sender,
        receiver: sender,
        action: Some(
            OsmoPacketView::ExitPool(
                ExitPoolPacketView {
                    token_out_denom: msg.token_out@,
                    token_out_min_amount: msg.min_amount_out,
                },
            ),
        ),
    }
}

/// The request to open a lockup account.
pub open spec fn create_lockup_request(
    msg: CreateLockupMsg,
    amount: AmountView,
    sender: Seq<char>,
) -> SendRequest {
    SendRequest {
        channel: msg.channel@,
        timeout: msg.timeout,
        amount,
        sender,
        receiver: sender,
        action: Some(OsmoPacketView::LockupAccount),
    }
}

/// The request to lock tokens for a duration.
pub open spec fn lock_tokens_request(msg: LockTokensMsg, amount: AmountView, sender: Seq<char>) -> SendRequest {
    SendRequest {
        channel: msg.channel@,
        timeout: msg.timeout,
        amount,
        sender,
        receiver: sender,
        action: Some(OsmoPacketView::Lock(LockPacket { duration: msg.duration })),
    }
}

/// The request to claim rewards and unlocked tokens of a denomination.
pub open spec fn claim_tokens_request(
    msg: ClaimTokensMsg,
    amount: AmountView,
    sender: Seq<char>,
) -> SendRequest {
    SendRequest {
        channel: msg.channel@,
        timeout: msg.timeout,
        amount,
        sender,
        receiver: sender,
        action: Some(OsmoPacketView::Claim(ClaimPacketView { denom: msg.denom@ })),
    }
}

/// The request to begin unlocking a lock.
pub open spec fn unlock_tokens_request(
    msg: UnlockTokensMsg,
    amount: AmountView,
    sender: Seq<char>,
) -> SendRequest {
    SendRequest {
        channel: msg.channel@,
        timeout: msg.timeout,
        amount,
        sender,
        receiver: sender,
        action: Some(OsmoPacketView::Unlock(UnlockPacket { id: msg.lock_id })),
    }
}

/// The request of a transfer paid in cw20 tokens: the tokens are those of
/// the contract that calls, and the sender is the one who gave them to it.
pub open spec fn receive_request(wrapper: Cw20ReceiveMsg, contract: Seq<char>) -> SendRequest {
    transfer_request(
        wrapper.msg,
        AmountView::Cw20 { amount: wrapper.amount, address: contract },
        wrapper.sender@,
    )
}

/// What a command asks to send, for `caller` who brings `funds`; `None`
/// for a command of governance.
pub open spec fn request_of(msg: ExecuteMsg, caller: Seq<char>, funds: AmountView) -> Option<
    SendRequest,
> {
    match msg {
        ExecuteMsg::Receive(m) => Some(receive_request(m, caller)),
        ExecuteMsg::Transfer(m) => Some(transfer_request(m, funds, caller)),
        ExecuteMsg::Swap(m) => Some(swap_request(m, funds, caller)),
        ExecuteMsg::JoinPool(m) => Some(join_pool_request(m, funds, caller)),
        ExecuteMsg::ExitPool(m) => Some(exit_pool_request(m, funds, caller)),
        ExecuteMsg::CreateLockup(m) => Some(create_lockup_request(m, funds, caller)),
        ExecuteMsg::LockTokens(m) => Some(lock_tokens_request(m, funds, caller)),
        ExecuteMsg::ClaimTokens(m) => Some(claim_tokens_request(m, funds, caller)),
        ExecuteMsg::UnlockTokens(m) => Some(unlock_tokens_request(m, funds, caller)),
        ExecuteMsg::Allow(_) => None,
        ExecuteMsg::AllowExternalToken(_) => None,
        ExecuteMsg::UpdateAdmin { .. } => None,
    }
}

/// The state that a command of governance asks for.
pub open spec fn governed(s: BridgeView, msg: ExecuteMsg) -> BridgeView {
    match msg {
        ExecuteMsg::Allow(m) => BridgeView {
            allow_list: s.allow_list.insert(m.contract@, AllowInfo { gas_limit: m.gas_limit }),
            ..s
        },
        ExecuteMsg::AllowExternalToken(m) => BridgeView {
            external_tokens: s.external_tokens.insert(m.denom@, m.contract@),
            ..s
        },
        ExecuteMsg::UpdateAdmin { admin } => BridgeView { admin: admin@, ..s },
        _ => s,
    }
}

/// What a command of `caller` asks to send when `funds` come with it:
/// nothing for a command of governance, whatever comes with it. A cw20
/// hook moves the tokens of the contract that calls and takes no coins; any
/// other sending command moves the one coin that comes with it.
pub open spec fn command_request(msg: ExecuteMsg, caller: Seq<char>, funds: Seq<Coin>) -> Result<
    Option<SendRequest>,
    ContractError,
> {
    match msg {
        ExecuteMsg::Receive(m) => if funds.len() == 0 {
            Ok(Some(receive_request(m, caller)))
        } else {
            Err(ContractError::Payment)
        },
        ExecuteMsg::Allow(_) => Ok(None),
        ExecuteMsg::AllowExternalToken(_) => Ok(None),
        ExecuteMsg::UpdateAdmin { .. } => Ok(None),
        _ => if funds.len() == 1 {
            Ok(request_of(msg, caller, funds[0].asset()))
        } else {
            Err(ContractError::Payment)
        },
    }
}

/// The state after a command.
pub open spec fn after_execute(
    s: BridgeView,
    msg: ExecuteMsg,
    caller: Seq<char>,
    funds: Seq<Coin>,
    now: Timestamp,
) -> BridgeView {
    match command_request(msg, caller, funds) {
        Ok(Some(req)) => s.after_send(req, now),
        Ok(None) => if caller == s.admin {
            governed(s, msg)
        } else {
            s
        },
        Err(_) => s,
    }
}

/// What a command returns: the packet to send, nothing for a command of
/// governance, or the reason for which it was refused.
pub open spec fn execute_outcome(
    s: BridgeView,
    msg: ExecuteMsg,
    caller: Seq<char>,
    funds: Seq<Coin>,
    now: Timestamp,
) -> Result<Option<OutboundPacketView>, ContractError> {
    match command_request(msg, caller, funds) {
        Ok(Some(req)) => match s.send_outcome(req, now) {
            Ok(p) => Ok(Some(p)),
            Err(e) => Err(e),
        },
        Ok(None) => match s.governance_outcome(caller) {
            Ok(_) => Ok(None),
            Err(e) => Err(e),
        },
        Err(e) => Err(e),
    }
}

/// What the result of a command stands for.
pub open spec fn response_view(r: Result<Option<OutboundPacket>, ContractError>) -> Result<
    Option<OutboundPacketView>,
    ContractError,
> {
    match r {
        Ok(Some(p)) => Ok(Some(p@)),
        Ok(None) => Ok(None),
        Err(e) => Err(e),
    }
}

/// The allow-list that a list of admissions builds: a later admission of a
/// contract replaces an earlier one.
pub open spec fn allow_list_of(list: Seq<AllowMsg>) -> Map<Seq<char>, AllowInfo>
    decreases list.len(),
{
    if list.len() == 0 {
        Map::empty()
    } else {
        allow_list_of(list.drop_last()).insert(
            list.last().contract@,
            AllowInfo { gas_limit: list.last().gas_limit },
        )
    }
}

/// The one coin that came with a sending command.
pub fn one_coin(funds: &Vec<Coin>) -> (r: Result<Amount, ContractError>)
    ensures
        match r {
            Ok(a) => funds@.len() == 1 && a@ == funds@[0].asset(),
            Err(e) => funds@.len() != 1 && e == ContractError::Payment,
        },
{
    if funds.len() == 1 {
        Ok(Amount::native(funds[0].amount, funds[0].denom.as_str()))
    } else {
        Err(ContractError::Payment)
    }
}

impl Bridge {
    /// Starts a bridge: the default timeout, the governance address, and the
    /// cw20 contracts that are admitted from the start.
    pub fn instantiate(msg: &InitMsg) -> (r: Bridge)
        ensures
            r.wf(),
            r@ == (BridgeView {
                allow_list: allow_list_of(msg.allowlist@),
                ..BridgeView::initial(msg.default_timeout, msg.gov_contract@)
            }),
    {
        let mut bridge = Bridge::new(
            Config { default_timeout: msg.default_timeout },
            msg.gov_contract.as_str(),
        );
        let mut i: usize = 0;
        while i < msg.allowlist.len()
            invariant
                i <= msg.allowlist.len(),
                bridge.wf(),
                bridge@ == (BridgeView {
                    allow_list: allow_list_of(msg.allowlist@.take(i as int)),
                    ..BridgeView::initial(msg.default_timeout, msg.gov_contract@)
                }),
            decreases msg.allowlist.len() - i,
        {
            let entry = &msg.allowlist[i];
            bridge.set_allowed(entry.contract.as_str(), AllowInfo { gas_limit: entry.gas_limit });
            proof {
                let next = msg.allowlist@.take(i + 1);
                assert(next.drop_last() =~= msg.allowlist@.take(i as int));
                assert(next.last() == msg.allowlist@[i as int]);
            }
            i += 1;
        }
        proof {
            assert(msg.allowlist@.take(i as int) =~= msg.allowlist@);
        }
        bridge
    }

    /// Sends `amount` on `channel`. The request is refused, with nothing
    /// changed, for an unknown channel, a cw20 contract that is not on the
    /// allow-list, an amount beyond 64 bits, or a counter out of range.
    /// Otherwise the amount is counted as sent and outstanding, and the
    /// packet comes back with the time at which it is lost.
    pub fn send(
        &mut self,
        channel: &str,
        timeout: Option<u64>,
        amount: &Amount,
        sender: &str,
        receiver: &str,
        action: Option<OsmoPacket>,
        now: Timestamp,
    ) -> (r: Result<OutboundPacket, ContractError>)
        requires
            old(self).wf(),
        ensures
            final(self).wf(),
            final(self)@ == old(self)@.after_send(
                SendRequest {
                    channel: channel@,
                    timeout,
                    amount: amount@,
                    sender: sender@,
                    receiver: receiver@,
                    action: action_view(action),
                },
                now,
            ),
            outbound_view(r) == old(self)@.send_outcome(
                SendRequest {
                    channel: channel@,
                    timeout,
                    amount: amount@,
                    sender: sender@,
                    receiver: receiver@,
                    action: action_view(action),
                },
                now,
            ),
    {
        if self.channel(channel).is_none() {
            return Err(ContractError::NoSuchChannel);
        }
        match amount {
            Amount::Cw20 { address, .. } => {
                if self.allowed(address.as_str()).is_none() {
                    return Err(ContractError::NotOnAllowList);
                }
            },
            Amount::Native { .. } => {},
        }
        let denom = amount.denom();
        let packet = Ics20Packet::new(amount.amount(), denom.as_str(), sender, receiver, action);
        match packet.validate() {
            Err(e) => {
                return Err(e);
            },
            Ok(_) => {},
        }
        let seconds = match timeout {
            Some(t) => t,
            None => self.config().default_timeout,
        };
        let lost_at = match now.checked_plus_seconds(seconds) {
            Some(t) => t,
            None => {
                return Err(ContractError::Overflow);
            },
        };
        match self.increase_channel_balance(channel, denom.as_str(), amount.amount()) {
            Err(e) => {
                return Err(e);
            },
            Ok(_) => {},
        }
        Ok(OutboundPacket { channel: channel.to_string(), packet, timeout: lost_at })
    }

    /// Sends a plain transfer to the remote address.
    pub fn execute_transfer(
        &mut self,
        msg: &TransferMsg,
        amount: &Amount,
        sender: &str,
        now: Timestamp,
    ) -> (r: Result<OutboundPacket, ContractError>)
        requires
            old(self).wf(),
        ensures
            final(self).wf(),
            final(self)@ == old(self)@.after_send(transfer_request(*msg, amount@, sender@), now),
            outbound_view(r) == old(self)@.send_outcome(
                transfer_request(*msg, amount@, sender@),
                now,
            ),
    {
        self.send(
            msg.channel.as_str(),
            msg.timeout,
            amount,
            sender,
            msg.remote_address.as_str(),
            None,
            now,
        )
    }

    /// Sends tokens to be swapped in a pool for another token.
    pub fn execute_swap(&mut self, msg: &SwapMsg, amount: &Amount, sender: &str, now: Timestamp) -> (r:
        Result<OutboundPacket, ContractError>)
        requires
            old(self).wf(),
        ensures
            final(self).wf(),
            final(self)@ == old(self)@.after_send(swap_request(*msg, amount@, sender@), now),
            outbound_view(r) == old(self)@.send_outcome(swap_request(*msg, amount@, sender@), now),
    {
        let mut routes: Vec<SwapAmountInRoute> = Vec::new();
        routes.push(SwapAmountInRoute { pool_id: msg.pool, token_out_denom: msg.token_out.clone() });
        let swap = SwapPacket { routes, token_out_min_amount: msg.min_amount_out };
        proof {
            assert(swap@.routes =~= seq![
                SwapAmountInRouteView { pool_id: msg.pool, token_out_denom: msg.token_out@ },
            ]);
        }
        self.send(
            msg.channel.as_str(),
            msg.timeout,
            amount,
            sender,
            sender,
            Some(OsmoPacket::Swap(swap)),
            now,
        )
    }

    /// Sends tokens to be added to a pool.
    pub fn execute_join_pool(
        &mut self,
        msg: &JoinPoolMsg,
        amount: &Amount,
        sender: &str,
        now: Timestamp,
    ) -> (r: Result<OutboundPacket, ContractError>)
        requires
            old(self).wf(),
        ensures
            final(self).wf(),
            final(self)@ == old(self)@.after_send(join_pool_request(*msg, amount@, sender@), now),
            outbound_view(r) == old(self)@.send_outcome(
                join_pool_request(*msg, amount@, sender@),
                now,
            ),
    {
        let action = OsmoPacket::JoinPool(
            JoinPoolPacket { pool_id: msg.pool, share_out_min_amount: msg.share_min_out },
        );
        self.send(msg.channel.as_str(), msg.timeout, amount, sender, sender, Some(action), now)
    }

    /// Sends pool shares to be turned back into a token.
    pub fn execute_exit_pool(
        &mut self,
        msg: &ExitPoolMsg,
        amount: &Amount,
        sender: &str,
        now: Timestamp,
    ) -> (r: Result<OutboundPacket, ContractError>)
        requires
            old(self).wf(),
        ensures
            final(self).wf(),
            final(self)@ == old(self)@.after_send(exit_pool_request(*msg, amount@, sender@), now),
            outbound_view(r) == old(self)@.send_outcome(
                exit_pool_request(*msg, amount@, sender@),
                now,
            ),
    {
        let action = OsmoPacket::ExitPool(
            ExitPoolPacket {
                token_out_denom: msg.token_out.clone(),
                token_out_min_amount: msg.min_amount_out,
            },
        );
        self.send(msg.channel.as_str(), msg.timeout, amount, sender, sender, Some(action), now)
    }

    /// Asks the other chain to open a lockup account for the sender.
    pub fn execute_create_lockup(
        &mut self,
        msg: &CreateLockupMsg,
        amount: &Amount,
        sender: &str,
        now: Timestamp,
    ) -> (r: Result<OutboundPacket, ContractError>)
        requires
            old(self).wf(),
        ensures
            final(self).wf(),
            final(self)@ == old(self)@.after_send(
                create_lockup_request(*msg, amount@, sender@),
                now,
            ),
            outbound_view(r) == old(self)@.send_outcome(
                create_lockup_request(*msg, amount@, sender@),
                now,
            ),
    {
        let action = OsmoPacket::LockupAccount {  };
        self.send(msg.channel.as_str(), msg.timeout, amount, sender, sender, Some(action), now)
    }

    /// Sends tokens to be locked for a duration.
    pub fn execute_lock_tokens(
        &mut self,
        msg: &LockTokensMsg,
        amount: &Amount,
        sender: &str,
        now: Timestamp,
    ) -> (r: Result<OutboundPacket, ContractError>)
        requires
            old(self).wf(),
        ensures
            final(self).wf(),
            final(self)@ == old(self)@.after_send(lock_tokens_request(*msg, amount@, sender@), now),
            outbound_view(r) == old(self)@.send_outcome(
                lock_tokens_request(*msg, amount@, sender@),
                now,
            ),
    {
        let action = OsmoPacket::Lock(LockPacket { duration: msg.duration });
        self.send(msg.channel.as_str(), msg.timeout, amount, sender, sender, Some(action), now)
    }

    /// Asks for the rewards and the unlocked tokens of a denomination.
    pub fn execute_claim_tokens(
        &mut self,
        msg: &ClaimTokensMsg,
        amount: &Amount,
        sender: &str,
        now: Timestamp,
    ) -> (r: Result<OutboundPacket, ContractError>)
        requires
            old(self).wf(),
        ensures
            final(self).wf(),
            final(self)@ == old(self)@.after_send(
                claim_tokens_request(*msg, amount@, sender@),
                now,
            ),
            outbound_view(r) == old(self)@.send_outcome(
                claim_tokens_request(*msg, amount@, sender@),
                now,
            ),
    {
        let action = OsmoPacket::Claim(ClaimPacket { denom: msg.denom.clone() });
        self.send(msg.channel.as_str(), msg.timeout, amount, sender, sender, Some(action), now)
    }

    /// Asks to begin unlocking a lock.
    pub fn execute_unlock_tokens(
        &mut self,
        msg: &UnlockTokensMsg,
        amount: &Amount,
        sender: &str,
        now: Timestamp,
    ) -> (r: Result<OutboundPacket, ContractError>)
        requires
            old(self).wf(),
        ensures
            final(self).wf(),
            final(self)@ == old(self)@.after_send(
                unlock_tokens_request(*msg, amount@, sender@),
                now,
            ),
            outbound_view(r) == old(self)@.send_outcome(
                unlock_tokens_request(*msg, amount@, sender@),
                now,
            ),
    {
        let action = OsmoPacket::Unlock(UnlockPacket { id: msg.lock_id });
        self.send(msg.channel.as_str(), msg.timeout, amount, sender, sender, Some(action), now)
    }

    /// Sends the transfer that a cw20 contract's tokens pay for. `contract`
    /// is the cw20 contract that calls.
    pub fn execute_receive(&mut self, wrapper: &Cw20ReceiveMsg, contract: &str, now: Timestamp) -> (r:
        Result<OutboundPacket, ContractError>)
        requires
            old(self).wf(),
        ensures
            final(self).wf(),
            final(self)@ == old(self)@.after_send(receive_request(*wrapper, contract@), now),
            outbound_view(r) == old(self)@.send_outcome(receive_request(*wrapper, contract@), now),
    {
        let amount = Amount::cw20(wrapper.amount, contract);
        self.execute_transfer(&wrapper.msg, &amount, wrapper.sender.as_str(), now)
    }

    /// The guard of every command of governance: only the governance
    /// address passes.
    pub fn assert_admin(&self, caller: &str) -> (r: Result<(), ContractError>)
        ensures
            r == self@.governance_outcome(caller@),
    {
        if crate::text::str_eq(self.admin().as_str(), caller) {
            Ok(())
        } else {
            Err(ContractError::Unauthorized)
        }
    }

    /// Admits a cw20 contract, for governance only.
    pub fn execute_allow(&mut self, caller: &str, allow: &AllowMsg) -> (r: Result<(), ContractError>)
        requires
            old(self).wf(),
        ensures
            final(self).wf(),
            r == old(self)@.governance_outcome(caller@),
            r is Ok ==> final(self)@ == governed(old(self)@, ExecuteMsg::Allow(*allow)),
            r is Err ==> final(self)@ == old(self)@,
    {
        match self.assert_admin(caller) {
            Err(e) => {
                return Err(e);
            },
            Ok(_) => {},
        }
        self.set_allowed(allow.contract.as_str(), AllowInfo { gas_limit: allow.gas_limit });
        Ok(())
    }

    /// Admits an external denomination, for governance only.
    pub fn execute_allow_external_token(&mut self, caller: &str, token: &ExternalTokenMsg) -> (r:
        Result<(), ContractError>)
        requires
            old(self).wf(),
        ensures
            final(self).wf(),
            r == old(self)@.governance_outcome(caller@),
            r is Ok ==> final(self)@ == governed(
                old(self)@,
                ExecuteMsg::AllowExternalToken(*token),
            ),
            r is Err ==> final(self)@ == old(self)@,
    {
        match self.assert_admin(caller) {
            Err(e) => {
                return Err(e);
            },
            Ok(_) => {},
        }
        self.set_external_token(token.denom.as_str(), token.contract.as_str());
        Ok(())
    }

    /// Hands governance to another address, for governance only.
    pub fn execute_update_admin(&mut self, caller: &str, admin: &str) -> (r: Result<
        (),
        ContractError,
    >)
        requires
            old(self).wf(),
        ensures
            final(self).wf(),
            r == old(self)@.governance_outcome(caller@),
            r is Ok ==> final(self)@ == (BridgeView { admin: admin@, ..old(self)@ }),
            r is Err ==> final(self)@ == old(self)@,
    {
        match self.assert_admin(caller) {
            Err(e) => {
                return Err(e);
            },
            Ok(_) => {},
        }
        self.set_admin(admin);
        Ok(())
    }

    /// Carries out a command of `caller`, with the coins that came with
    /// it. A sending command gives the packet to send; a command of
    /// governance gives nothing. A sending command needs exactly one coin,
    /// and a cw20 hook none. A refused command changes nothing.
    pub fn execute(&mut self, msg: &ExecuteMsg, caller: &str, funds: &Vec<Coin>, now: Timestamp) -> (r:
        Result<Option<OutboundPacket>, ContractError>)
        requires
            old(self).wf(),
        ensures
            final(self).wf(),
            final(self)@ == after_execute(old(self)@, *msg, caller@, funds@, now),
            response_view(r) == execute_outcome(old(self)@, *msg, caller@, funds@, now),
    {
        let sent = match msg {
            ExecuteMsg::Receive(m) => {
                if funds.len() == 0 {
                    self.execute_receive(m, caller, now)
                } else {
                    Err(ContractError::Payment)
                }
            },
            ExecuteMsg::Transfer(m) => match one_coin(funds) {
                Ok(coin) => self.execute_transfer(m, &coin, caller, now),
                Err(e) => Err(e),
            },
            ExecuteMsg::Swap(m) => match one_coin(funds) {
                Ok(coin) => self.execute_swap(m, &coin, caller, now),
                Err(e) => Err(e),
            },
            ExecuteMsg::JoinPool(m) => match one_coin(funds) {
                Ok(coin) => self.execute_join_pool(m, &coin, caller, now),
                Err(e) => Err(e),
            },
            ExecuteMsg::ExitPool(m) => match one_coin(funds) {
                Ok(coin) => self.execute_exit_pool(m, &coin, caller, now),
                Err(e) => Err(e),
            },
            ExecuteMsg::CreateLockup(m) => match one_coin(funds) {
                Ok(coin) => self.execute_create_lockup(m, &coin, caller, now),
                Err(e) => Err(e),
            },
            ExecuteMsg::LockTokens(m) => match one_coin(funds) {
                Ok(coin) => self.execute_lock_tokens(m, &coin, caller, now),
                Err(e) => Err(e),
            },
            ExecuteMsg::ClaimTokens(m) => match one_coin(funds) {
                Ok(coin) => self.execute_claim_tokens(m, &coin, caller, now),
                Err(e) => Err(e),
            },
            ExecuteMsg::UnlockTokens(m) => match one_coin(funds) {
                Ok(coin) => self.execute_unlock_tokens(m, &coin, caller, now),
                Err(e) => Err(e),
            },
            ExecuteMsg::Allow(m) => {
                return match self.execute_allow(caller, m) {
                    Ok(_) => Ok(None),
                    Err(e) => Err(e),
                };
            },
            ExecuteMsg::AllowExternalToken(m) => {
                return match self.execute_allow_external_token(caller, m) {
                    Ok(_) => Ok(None),
                    Err(e) => Err(e),
                };
            },
            ExecuteMsg::UpdateAdmin { admin } => {
                return match self.execute_update_admin(caller, admin.as_str()) {
                    Ok(_) => Ok(None),
                    Err(e) => Err(e),
                };
            },
        };
        match sent {
            Ok(p) => Ok(Some(p)),
            Err(e) => Err(e),
        }
    }
}

} // verus!
