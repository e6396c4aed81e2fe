//! What the transport reports: a channel that opened, a packet that came
//! in, and the fate of a packet that went out.

use vstd::prelude::*;
use vstd::string::*;
use crate::amount::{is_cw20_denom, Amount, AmountView};
use crate::ack::{ack_of, lockup_address};
use crate::codec::packet_of;
use crate::error::ContractError;
use crate::ibc_msg::{
    action_view, CreateLockupAck, Ics20Ack, Ics20AckView, Ics20Packet, Ics20PacketView,
    OsmoPacket, OsmoPacketView, Voucher, VoucherView,
};
use crate::state::{Bridge, BridgeView, ChannelInfo};
use crate::text::str_eq;

verus! {

/// What opens the denomination of a token that left through the channel
/// `channel` of the port `port`: the port, a slash, the channel, a slash.
pub open spec fn voucher_prefix(port: Seq<char>, channel: Seq<char>) -> Seq<char> {
    port + seq!['/'] + channel + seq!['/']
}

/// The token that arrives under `denom` from the channel end `port`,
/// `channel`. A denomination that opens with that end's prefix names a
/// token of this chain that comes home, under the rest of the
/// denomination; any other names a token from elsewhere.
pub open spec fn voucher_of(denom: Seq<char>, port: Seq<char>, channel: Seq<char>) -> VoucherView {
    let prefix = voucher_prefix(port, channel);
    if prefix.len() <= denom.len() && denom.subrange(0, prefix.len() as int) == prefix {
        VoucherView { denom: denom.subrange(prefix.len() as int, denom.len() as int), our_chain: true }
    } else {
        VoucherView { denom, our_chain: false }
    }
}

/// Reads the token that arrives under `denom` from the channel end `port`,
/// `channel`.
pub fn parse_voucher(denom: &str, port: &str, channel: &str) -> (r: Voucher)
    ensures
        r@ == voucher_of(denom@, port@, channel@),
{
    proof {
        reveal_strlit("/");
        assert("/"@ =~= seq!['/']);
    }
    let mut prefix = port.to_string();
    prefix.append("/");
    prefix.append(channel);
    prefix.append("/");
    let p = prefix.as_str().unicode_len();
    let n = denom.unicode_len();
    if p <= n && str_eq(denom.substring_char(0, p), prefix.as_str()) {
        Voucher { denom: denom.substring_char(p, n).to_string(), our_chain: true }
    } else {
        Voucher { denom: denom.to_string(), our_chain: false }
    }
}

/// The outside module that carries out an action.
#[derive(Clone, Copy, Debug, PartialEq, Eq, Structural)]
pub enum Module {
    /// trades one token for another
    Swap,
    /// adds liquidity to a pool and takes it out
    Pool,
    /// opens lockup accounts
    Lockup,
    /// locks tokens, unlocks them and pays out what they earned
    Staking,
}

impl OsmoPacketView {
    /// The module that carries out the action.
    pub open spec fn module(self) -> Module {
        match self {
            OsmoPacketView::Swap(_) => Module::Swap,
            OsmoPacketView::JoinPool(_) => Module::Pool,
            OsmoPacketView::ExitPool(_) => Module::Pool,
            OsmoPacketView::LockupAccount => Module::Lockup,
            OsmoPacketView::Lock(_) => Module::Staking,
            OsmoPacketView::Claim(_) => Module::Staking,
            OsmoPacketView::Unlock(_) => Module::Staking,
        }
    }
}

impl OsmoPacket {
    /// The module that carries out the action.
    pub fn module(&self) -> (m: Module)
        ensures
            m == self@.module(),
    {
        match self {
            OsmoPacket::Swap(_) => Module::Swap,
            OsmoPacket::JoinPool(_) => Module::Pool,
            OsmoPacket::ExitPool(_) => Module::Pool,
            OsmoPacket::LockupAccount {  } => Module::Lockup,
            OsmoPacket::Lock(_) => Module::Staking,
            OsmoPacket::Claim(_) => Module::Staking,
            OsmoPacket::Unlock(_) => Module::Staking,
        }
    }
}

/// The module of an optional action.
pub open spec fn module_view(action: Option<OsmoPacketView>) -> Option<Module> {
    match action {
        Some(a) => Some(a.module()),
        None => None,
    }
}

/// What is owed for a packet that was accepted: the token that came and
/// what is handed to the receiver for it, and the action to pass on, if
/// there is one, with the module that it goes to. A token of this chain is
/// released from what the bridge holds; for a token from elsewhere the
/// cw20 contract that stands for it mints.
#[derive(Debug, PartialEq)]
pub struct Delivery {
    pub voucher: Voucher,
    pub asset: Amount,
    pub receiver: String,
    pub action: Option<OsmoPacket>,
    pub module: Option<Module>,
}

/// What a `Delivery` stands for.
pub struct DeliveryView {
    pub voucher: VoucherView,
    pub asset: AmountView,
    pub receiver: Seq<char>,
    pub action: Option<OsmoPacketView>,
    pub module: Option<Module>,
}

impl View for Delivery {
    type V = DeliveryView;

    open spec fn view(&self) -> DeliveryView {
        DeliveryView {
            voucher: self.voucher@,
            asset: self.asset@,
            receiver: self.receiver@,
            action: action_view(self.action),
            module: self.module,
        }
    }
}

/// The bridge's answer to a packet that came in.
#[derive(Debug, PartialEq)]
pub enum Receipt {
    /// The packet is refused: this acknowledgement goes back, and nothing
    /// else happens.
    Rejected(Ics20Ack),
    /// The packet is accepted: the tokens are to be handed over and the
    /// action passed on.
    Accepted(Delivery),
}

/// What a `Receipt` stands for.
pub enum ReceiptView {
    Rejected(Ics20AckView),
    Accepted(DeliveryView),
}

impl View for Receipt {
    type V = ReceiptView;

    open spec fn view(&self) -> ReceiptView {
        match self {
            Receipt::Rejected(a) => ReceiptView::Rejected(a@),
            Receipt::Accepted(d) => ReceiptView::Accepted(d@),
        }
    }
}

/// What was paid back to the sender of a packet that failed or was lost.
#[derive(Debug, PartialEq)]
pub struct Refund {
    pub to: String,
    pub amount: Amount,
}

/// What a `Refund` stands for.
pub struct RefundView {
    pub to: Seq<char>,
    pub amount: AmountView,
}

impl View for Refund {
    type V = RefundView;

    open spec fn view(&self) -> RefundView {
        RefundView { to: self.to@, amount: self.amount@ }
    }
}

/// How a packet that went out ended.
#[derive(Debug, PartialEq)]
pub enum Settlement {
    /// The other chain took the tokens; this is what its action gave.
    Completed { payload: Vec<u8> },
    /// The other chain refused; the sender gets the tokens back.
    Refunded(Refund),
}

/// What a `Settlement` stands for.
pub enum SettlementView {
    Completed { payload: Seq<u8> },
    Refunded(RefundView),
}

impl View for Settlement {
    type V = SettlementView;

    open spec fn view(&self) -> SettlementView {
        match self {
            Settlement::Completed { payload } => SettlementView::Completed { payload: payload@ },
            Settlement::Refunded(r) => SettlementView::Refunded(r@),
        }
    }
}

impl Ics20PacketView {
    /// What the sender of the packet gets back when it fails or is lost.
    pub open spec fn refund(self) -> RefundView {
        RefundView { to: self.sender, amount: AmountView::from_parts(self.denom, self.amount) }
    }
}

impl BridgeView {
    /// Whether a token may come in: a cw20 token of this chain needs its
    /// contract on the allow-list, a token from elsewhere needs its
    /// denomination admitted as an external token.
    pub open spec fn voucher_allowed(self, v: VoucherView) -> bool {
        if v.our_chain {
            is_cw20_denom(v.denom) ==> self.allow_list.contains_key(
                v.denom.subrange(5, v.denom.len() as int),
            )
        } else {
            self.external_tokens.contains_key(v.denom)
        }
    }

    /// What is handed over for `amount` of a token that came: the token
    /// itself where it is one of this chain, else the token of the cw20
    /// contract that stands for its denomination.
    pub open spec fn asset(self, v: VoucherView, amount: u128) -> AmountView {
        if v.our_chain {
            AmountView::from_parts(v.denom, amount)
        } else {
            AmountView::Cw20 { amount, address: self.external_tokens[v.denom] }
        }
    }

    /// The token that `packet` brings over `channel`.
    pub open spec fn voucher(self, channel: Seq<char>, packet: Ics20PacketView) -> VoucherView {
        let end = self.channels[channel].counterparty_endpoint;
        voucher_of(packet.denom, end.port_id, end.channel_id)
    }

    /// Why a packet that came in over `channel` is refused, if it is. The
    /// channel is looked at first, then the amount, then the token.
    pub open spec fn receive_refusal(self, channel: Seq<char>, packet: Ics20PacketView) -> Option<
        ContractError,
    > {
        if !self.channels.contains_key(channel) {
            Some(ContractError::NoSuchChannel)
        } else if !packet.valid() {
            Some(ContractError::AmountOverflow)
        } else if !self.voucher_allowed(self.voucher(channel, packet)) {
            Some(ContractError::NotOnAllowList)
        } else {
            None
        }
    }

    /// The answer to what the transport delivered over `channel`: a packet,
    /// or the reason for which the bytes could not be read as one.
    pub open spec fn receipt(self, channel: Seq<char>, packet: Result<Ics20PacketView, Seq<char>>) -> ReceiptView {
        match packet {
            Err(reason) => ReceiptView::Rejected(Ics20AckView::Error(reason)),
            Ok(p) => match self.receive_refusal(channel, p) {
                Some(e) => ReceiptView::Rejected(Ics20AckView::Error(e.spec_message())),
                None => ReceiptView::Accepted(
                    DeliveryView {
                        voucher: self.voucher(channel, p),
                        asset: self.asset(self.voucher(channel, p), p.amount),
                        receiver: p.receiver,
                        action: p.action,
                        module: module_view(p.action),
                    },
                ),
            },
        }
    }

    /// Why the fate of the packet with number `sequence` on `channel` is not
    /// taken, if it is not: it was settled before, or it asks for more than
    /// is outstanding.
    pub open spec fn settle_refusal(self, channel: Seq<char>, sequence: u64, packet: Ics20PacketView) -> Option<
        ContractError,
    > {
        if self.settled.contains((channel, sequence)) {
            Some(ContractError::AlreadySettled)
        } else if !self.can_reduce(channel, packet.denom, packet.amount) {
            Some(ContractError::InsufficientFunds)
        } else {
            None
        }
    }

    /// The state after the fate of a packet was reported: its amount is
    /// outstanding no more and its number is remembered, unless the report
    /// was refused.
    pub open spec fn after_settle(self, channel: Seq<char>, sequence: u64, packet: Ics20PacketView) -> BridgeView {
        match self.settle_refusal(channel, sequence, packet) {
            Some(_) => self,
            None => BridgeView {
                settled: self.settled.insert((channel, sequence)),
                ..self.reduced(channel, packet.denom, packet.amount)
            },
        }
    }

    /// The address of the lockup account that an acknowledgement reports:
    /// the packet asked for one, and the acknowledgement is a result whose
    /// payload names where it lives.
    pub open spec fn opened_lockup(packet: Ics20PacketView, ack: Ics20AckView) -> Option<Seq<char>> {
        match (packet.action, ack) {
            (Some(OsmoPacketView::LockupAccount), Ics20AckView::Result(payload)) => lockup_address(
                payload,
            ),
            _ => None,
        }
    }

    /// The state after an acknowledgement was reported: the packet is
    /// settled, and where the acknowledgement reports a lockup account, the
    /// account is kept for the packet's sender on the channel. A refused
    /// report changes nothing.
    pub open spec fn after_ack(
        self,
        channel: Seq<char>,
        sequence: u64,
        packet: Ics20PacketView,
        ack: Ics20AckView,
    ) -> BridgeView {
        let settled = self.after_settle(channel, sequence, packet);
        match (self.settle_refusal(channel, sequence, packet), Self::opened_lockup(packet, ack)) {
            (None, Some(address)) => BridgeView {
                lockups: settled.lockups.insert((channel, packet.sender), address),
                ..settled
            },
            _ => settled,
        }
    }

    /// What the report of an acknowledgement returns.
    pub open spec fn ack_outcome(
        self,
        channel: Seq<char>,
        sequence: u64,
        packet: Ics20PacketView,
        ack: Ics20AckView,
    ) -> Result<SettlementView, ContractError> {
        match self.settle_refusal(channel, sequence, packet) {
            Some(e) => Err(e),
            None => match ack {
                Ics20AckView::Result(payload) => Ok(SettlementView::Completed { payload }),
                Ics20AckView::Error(_) => Ok(SettlementView::Refunded(packet.refund())),
            },
        }
    }

    /// What the report of a timeout returns.
    pub open spec fn timeout_outcome(self, channel: Seq<char>, sequence: u64, packet: Ics20PacketView) -> Result<
        RefundView,
        ContractError,
    > {
        match self.settle_refusal(channel, sequence, packet) {
            Some(e) => Err(e),
            None => Ok(packet.refund()),
        }
    }
}

/// What the bytes that the transport delivered are read as: the packet,
/// or the reason for which they are none.
pub open spec fn delivered(data: Seq<u8>) -> Result<Ics20PacketView, Seq<char>> {
    match packet_of(data) {
        Some(p) => Ok(p),
        None => Err(ContractError::Decode.spec_message()),
    }
}

/// What the transport delivered stands for.
pub open spec fn delivered_view(packet: Result<Ics20Packet, String>) -> Result<
    Ics20PacketView,
    Seq<char>,
> {
    match packet {
        Ok(p) => Ok(p@),
        Err(e) => Err(e@),
    }
}

/// What the result of an acknowledgement's report stands for.
pub open spec fn settlement_view(r: Result<Settlement, ContractError>) -> Result<
    SettlementView,
    ContractError,
> {
    match r {
        Ok(s) => Ok(s@),
        Err(e) => Err(e),
    }
}

/// What the result of a timeout's report stands for.
pub open spec fn refund_view(r: Result<Refund, ContractError>) -> Result<RefundView, ContractError> {
    match r {
        Ok(s) => Ok(s@),
        Err(e) => Err(e),
    }
}

/// What the outcome of an action stands for.
pub open spec fn outcome_view(outcome: Option<Result<Vec<u8>, String>>) -> Option<
    Result<Seq<u8>, Seq<char>>,
> {
    match outcome {
        None => None,
        Some(Ok(b)) => Some(Ok(b@)),
        Some(Err(e)) => Some(Err(e@)),
    }
}

/// The acknowledgement of a packet whose tokens were handed over. Without
/// an action it is an empty result; with one it is what the action's module
/// reported, result or error, as it came.
pub open spec fn acknowledgement(outcome: Option<Result<Seq<u8>, Seq<char>>>) -> Ics20AckView {
    match outcome {
        None => Ics20AckView::Result(Seq::empty()),
        Some(Ok(payload)) => Ics20AckView::Result(payload),
        Some(Err(reason)) => Ics20AckView::Error(reason),
    }
}

/// The acknowledgement of success without a payload.
pub fn ack_success() -> (r: Ics20Ack)
    ensures
        r@ == Ics20AckView::Result(Seq::empty()),
{
    Ics20Ack::Result(Vec::new())
}

/// The acknowledgement of a failure.
pub fn ack_fail(err: String) -> (r: Ics20Ack)
    ensures
        r@ == Ics20AckView::Error(err@),
{
    Ics20Ack::Error(err)
}

/// Writes the acknowledgement of a packet whose tokens were handed over:
/// `outcome` is `None` where the packet had no action, else what the
/// action's module reported.
pub fn acknowledge(outcome: Option<Result<Vec<u8>, String>>) -> (r: Ics20Ack)
    ensures
        r@ == acknowledgement(outcome_view(outcome)),
{
    match outcome {
        None => ack_success(),
        Some(Ok(payload)) => Ics20Ack::Result(payload),
        Some(Err(reason)) => ack_fail(reason),
    }
}

impl Bridge {
    /// Registers a channel that opened. A channel stays as it was
    /// registered: a second one with the same id is refused.
    pub fn on_channel_connect(&mut self, info: ChannelInfo) -> (r: Result<(), ContractError>)
        requires
            old(self).wf(),
        ensures
            final(self).wf(),
            !old(self)@.channels.contains_key(info.id@) ==> r is Ok && final(self)@ == (BridgeView {
                channels: old(self)@.channels.insert(info.id@, info@),
                ..old(self)@
            }),
            old(self)@.channels.contains_key(info.id@) ==> r == Err::<(), ContractError>(
                ContractError::ChannelExists,
            ) && final(self)@ == old(self)@,
    {
        if self.channel(info.id.as_str()).is_some() {
            return Err(ContractError::ChannelExists);
        }
        self.set_channel(info);
        Ok(())
    }

    /// Answers what the transport delivered over `channel`: the packet, or
    /// the reason for which the bytes could not be read as one. Unreadable
    /// bytes, an unknown channel, an amount beyond 64 bits and a token that
    /// is not admitted are answered with an acknowledgement of the error.
    /// Otherwise the answer says which token to hand to the receiver and
    /// which action to pass on. The state is not touched.
    pub fn on_packet_receive(&self, channel: &str, packet: Result<Ics20Packet, String>) -> (r:
        Receipt)
        requires
            self.wf(),
        ensures
            r@ == self@.receipt(channel@, delivered_view(packet)),
    {
        let p = match packet {
            Err(reason) => {
                return Receipt::Rejected(ack_fail(reason));
            },
            Ok(p) => p,
        };
        let info = match self.channel(channel) {
            None => {
                return Receipt::Rejected(ack_fail(ContractError::NoSuchChannel.message()));
            },
            Some(info) => info,
        };
        match p.validate() {
            Err(e) => {
                return Receipt::Rejected(ack_fail(e.message()));
            },
            Ok(_) => {},
        }
        let voucher = parse_voucher(
            p.denom.as_str(),
            info.counterparty_endpoint.port_id.as_str(),
            info.counterparty_endpoint.channel_id.as_str(),
        );
        let asset = if voucher.our_chain {
            let asset = Amount::from_parts(voucher.denom.as_str(), p.amount);
            match &asset {
                Amount::Cw20 { address, .. } => {
                    if self.allowed(address.as_str()).is_none() {
                        return Receipt::Rejected(ack_fail(ContractError::NotOnAllowList.message()));
                    }
                },
                Amount::Native { .. } => {},
            }
            asset
        } else {
            match self.external_token(voucher.denom.as_str()) {
                Some(contract) => Amount::cw20(p.amount, contract.as_str()),
                None => {
                    return Receipt::Rejected(ack_fail(ContractError::NotOnAllowList.message()));
                },
            }
        };
        let module = match &p.action {
            Some(a) => Some(a.module()),
            None => None,
        };
        Receipt::Accepted(
            Delivery { voucher, asset, receiver: p.receiver, action: p.action, module },
        )
    }

    /// Answers the bytes that the transport delivered over `channel`: they
    /// are read as a packet, and the packet is answered as
    /// `on_packet_receive` does. Bytes that are no packet are answered with
    /// an acknowledgement of the error.
    pub fn ibc_packet_receive(&self, channel: &str, data: &[u8]) -> (r: Receipt)
        requires
            self.wf(),
        ensures
            r@ == self@.receipt(channel@, delivered(data@)),
    {
        match Ics20Packet::decode(data) {
            Ok(p) => self.on_packet_receive(channel, Ok(p)),
            Err(e) => self.on_packet_receive(channel, Err(e.message())),
        }
    }

    /// Takes the acknowledgement, as bytes, of the packet that went out on
    /// `channel` with number `sequence` as the bytes `original`. Bytes that
    /// are no packet or no acknowledgement are a decode error and change
    /// nothing; otherwise the report is taken as `on_packet_ack` does.
    pub fn ibc_packet_ack(&mut self, channel: &str, sequence: u64, original: &[u8], ack: &[u8]) -> (r:
        Result<Settlement, ContractError>)
        requires
            old(self).wf(),
        ensures
            final(self).wf(),
            match (packet_of(original@), ack_of(ack@)) {
                (Some(p), Some(a)) => final(self)@ == old(self)@.after_ack(
                    channel@,
                    sequence,
                    p,
                    a,
                ) && settlement_view(r) == old(self)@.ack_outcome(channel@, sequence, p, a),
                _ => final(self)@ == old(self)@ && r == Err::<Settlement, ContractError>(
                    ContractError::Decode,
                ),
            },
    {
        let packet = match Ics20Packet::decode(original) {
            Ok(p) => p,
            Err(e) => {
                return Err(e);
            },
        };
        let ack = match Ics20Ack::decode(ack) {
            Ok(a) => a,
            Err(e) => {
                return Err(e);
            },
        };
        self.on_packet_ack(channel, sequence, &packet, &ack)
    }

    /// Takes the loss of the packet that went out on `channel` with number
    /// `sequence` as the bytes `original`. Bytes that are no packet are a
    /// decode error and change nothing; otherwise the report is taken as
    /// `on_packet_timeout` does.
    pub fn ibc_packet_timeout(&mut self, channel: &str, sequence: u64, original: &[u8]) -> (r:
        Result<Refund, ContractError>)
        requires
            old(self).wf(),
        ensures
            final(self).wf(),
            match packet_of(original@) {
                Some(p) => final(self)@ == old(self)@.after_settle(channel@, sequence, p)
                    && refund_view(r) == old(self)@.timeout_outcome(channel@, sequence, p),
                None => final(self)@ == old(self)@ && r == Err::<Refund, ContractError>(
                    ContractError::Decode,
                ),
            },
    {
        let packet = match Ics20Packet::decode(original) {
            Ok(p) => p,
            Err(e) => {
                return Err(e);
            },
        };
        self.on_packet_timeout(channel, sequence, &packet)
    }

    fn settle(&mut self, channel: &str, sequence: u64, packet: &Ics20Packet) -> (r: Result<
        (),
        ContractError,
    >)
        requires
            old(self).wf(),
        ensures
            final(self).wf(),
            final(self)@ == old(self)@.after_settle(channel@, sequence, packet@),
            match r {
                Ok(_) => old(self)@.settle_refusal(channel@, sequence, packet@) is None,
                Err(e) => old(self)@.settle_refusal(channel@, sequence, packet@) == Some(e),
            },
    {
        if self.is_settled(channel, sequence) {
            return Err(ContractError::AlreadySettled);
        }
        match self.reduce_channel_balance(channel, packet.denom.as_str(), packet.amount) {
            Err(e) => {
                return Err(e);
            },
            Ok(_) => {},
        }
        self.mark_settled(channel, sequence);
        Ok(())
    }

    /// Takes the acknowledgement of the packet that went out on `channel`
    /// with number `sequence`. The packet's amount stops being outstanding,
    /// whatever the acknowledgement says; what was ever sent stays. For an
    /// error the sender is owed the tokens back. Where the packet asked for
    /// a lockup account and the result names one, the account is kept for
    /// the sender. A packet that was settled before, or that asks for more
    /// than is outstanding, is refused with nothing changed.
    pub fn on_packet_ack(&mut self, channel: &str, sequence: u64, packet: &Ics20Packet, ack: &Ics20Ack) -> (r:
        Result<Settlement, ContractError>)
        requires
            old(self).wf(),
        ensures
            final(self).wf(),
            final(self)@ == old(self)@.after_ack(channel@, sequence, packet@, ack@),
            settlement_view(r) == old(self)@.ack_outcome(channel@, sequence, packet@, ack@),
    {
        match self.settle(channel, sequence, packet) {
            Err(e) => {
                return Err(e);
            },
            Ok(_) => {},
        }
        match ack {
            Ics20Ack::Result(payload) => {
                match &packet.action {
                    Some(OsmoPacket::LockupAccount {  }) => {
                        match CreateLockupAck::decode(payload.as_slice()) {
                            Ok(opened) => {
                                self.set_lockup(
                                    channel,
                                    packet.sender.as_str(),
                                    opened.contract.as_str(),
                                );
                            },
                            Err(_) => {},
                        }
                    },
                    _ => {},
                }
                Ok(Settlement::Completed { payload: payload.clone() })
            },
            Ics20Ack::Error(_) => Ok(Settlement::Refunded(refund_of(packet))),
        }
    }

    /// Takes the loss of the packet that went out on `channel` with number
    /// `sequence`: as for an acknowledgement of an error, the amount stops
    /// being outstanding and the sender is owed the tokens back.
    pub fn on_packet_timeout(&mut self, channel: &str, sequence: u64, packet: &Ics20Packet) -> (r:
        Result<Refund, ContractError>)
        requires
            old(self).wf(),
        ensures
            final(self).wf(),
            final(self)@ == old(self)@.after_settle(channel@, sequence, packet@),
            refund_view(r) == old(self)@.timeout_outcome(channel@, sequence, packet@),
    {
        match self.settle(channel, sequence, packet) {
            Err(e) => {
                return Err(e);
            },
            Ok(_) => {},
        }
        Ok(refund_of(packet))
    }
}

/// What the sender of `packet` gets back when it fails or is lost.
pub fn refund_of(packet: &Ics20Packet) -> (r: Refund)
    ensures
        r@ == packet@.refund(),
{
    Refund {
        to: packet.sender.clone(),
        amount: Amount::from_parts(packet.denom.as_str(), packet.amount),
    }
}

} // verus!
