//! What travels between the chains: the transfer packet, the action it may
//! carry, and the acknowledgement that answers it.

use vstd::prelude::*;
use vstd::string::*;
use crate::error::ContractError;
use crate::timestamp::Timestamp;

verus! {

/// One hop of a swap: the pool to trade in and the token to leave it with.
#[derive(Debug, PartialEq)]
pub struct SwapAmountInRoute {
    pub pool_id: u64,
    pub token_out_denom: String,
}

/// What a `SwapAmountInRoute` stands for.
pub struct SwapAmountInRouteView {
    pub pool_id: u64,
    pub token_out_denom: Seq<char>,
}

impl View for SwapAmountInRoute {
    type V = SwapAmountInRouteView;

    open spec fn view(&self) -> SwapAmountInRouteView {
        SwapAmountInRouteView { pool_id: self.pool_id, token_out_denom: self.token_out_denom@ }
    }
}

impl Clone for SwapAmountInRoute {
    fn clone(&self) -> (r: SwapAmountInRoute)
        ensures
            r@ == self@,
    {
        SwapAmountInRoute { pool_id: self.pool_id, token_out_denom: self.token_out_denom.clone() }
    }
}

/// What a list of routes stands for.
pub open spec fn routes_view(routes: Seq<SwapAmountInRoute>) -> Seq<SwapAmountInRouteView> {
    Seq::new(routes.len(), |i: int| routes[i]@)
}

/// Swap Packet
#[derive(Debug, PartialEq)]
pub struct SwapPacket {
    pub routes: Vec<SwapAmountInRoute>,
    pub token_out_min_amount: u128,
}

/// What a `SwapPacket` stands for.
pub struct SwapPacketView {
    pub routes: Seq<SwapAmountInRouteView>,
    pub token_out_min_amount: u128,
}

impl View for SwapPacket {
    type V = SwapPacketView;

    open spec fn view(&self) -> SwapPacketView {
        SwapPacketView {
            routes: routes_view(self.routes@),
            token_out_min_amount: self.token_out_min_amount,
        }
    }
}

impl Clone for SwapPacket {
    fn clone(&self) -> (r: SwapPacket)
        ensures
            r@ == self@,
    {
        let mut routes: Vec<SwapAmountInRoute> = Vec::new();
        let mut i: usize = 0;
        while i < self.routes.len()
            invariant
                i <= self.routes.len(),
                routes.len() == i,
                forall|j: int| 0 <= j < i ==> routes@[j]@ == self.routes@[j]@,
            decreases self.routes.len() - i,
        {
            routes.push(self.routes[i].clone());
            i += 1;
        }
        assert(routes_view(routes@) =~= routes_view(self.routes@));
        SwapPacket { routes, token_out_min_amount: self.token_out_min_amount }
    }
}

/// JoinPool Packet
#[derive(Clone, Copy, Debug, PartialEq, Eq, Structural)]
pub struct JoinPoolPacket {
    pub pool_id: u64,
    pub share_out_min_amount: u128,
}

/// ExitPool Packet
#[derive(Debug, PartialEq)]
pub struct ExitPoolPacket {
    pub token_out_denom: String,
    pub token_out_min_amount: u128,
}

/// What an `ExitPoolPacket` stands for.
pub struct ExitPoolPacketView {
    pub token_out_denom: Seq<char>,
    pub token_out_min_amount: u128,
}

impl View for ExitPoolPacket {
    type V = ExitPoolPacketView;

    open spec fn view(&self) -> ExitPoolPacketView {
        ExitPoolPacketView {
            token_out_denom: self.token_out_denom@,
            token_out_min_amount: self.token_out_min_amount,
        }
    }
}

impl Clone for ExitPoolPacket {
    fn clone(&self) -> (r: ExitPoolPacket)
        ensures
            r@ == self@,
    {
        ExitPoolPacket {
            token_out_denom: self.token_out_denom.clone(),
            token_out_min_amount: self.token_out_min_amount,
        }
    }
}

/// Lock Packet: how long the tokens stay locked.
#[derive(Clone, Copy, Debug, PartialEq, Eq, Structural)]
pub struct LockPacket {
    pub duration: u64,
}

/// Claim Packet: the denomination to claim.
#[derive(Debug, PartialEq)]
pub struct ClaimPacket {
    pub denom: String,
}

/// What a `ClaimPacket` stands for.
pub struct ClaimPacketView {
    pub denom: Seq<char>,
}

impl View for ClaimPacket {
    type V = ClaimPacketView;

    open spec fn view(&self) -> ClaimPacketView {
        ClaimPacketView { denom: self.denom@ }
    }
}

impl Clone for ClaimPacket {
    fn clone(&self) -> (r: ClaimPacket)
        ensures
            r@ == self@,
    {
        ClaimPacket { denom: self.denom.clone() }
    }
}

/// Unlock Packet: the lock to open.
#[derive(Clone, Copy, Debug, PartialEq, Eq, Structural)]
pub struct UnlockPacket {
    pub id: u64,
}

/// Answer to a swap, a pool entry or a pool exit: what came out.
#[derive(Clone, Debug, PartialEq)]
pub struct SwapAmountInAck {
    pub amount: u128,
    pub denom: String,
}

/// Answer to the creation of a lockup account: where it lives.
#[derive(Clone, Debug, PartialEq)]
pub struct CreateLockupAck {
    pub contract: String,
}

/// Answer to a lock: the lock's id.
#[derive(Clone, Copy, Debug, PartialEq, Eq, Structural)]
pub struct LockResultAck {
    pub lock_id: u64,
}

/// Answer to an unlock: when the tokens are free.
#[derive(Clone, Copy, Debug, PartialEq, Eq, Structural)]
pub struct UnLockResultAck {
    pub end_time: Timestamp,
}

/// The action that a transfer asks the receiving chain to carry out.
#[derive(Debug, PartialEq)]
pub enum OsmoPacket {
    Swap(SwapPacket),
    JoinPool(JoinPoolPacket),
    ExitPool(ExitPoolPacket),
    LockupAccount {  },
    Lock(LockPacket),
    Claim(ClaimPacket),
    Unlock(UnlockPacket),
}

/// What an `OsmoPacket` stands for.
pub enum OsmoPacketView {
    Swap(SwapPacketView),
    JoinPool(JoinPoolPacket),
    ExitPool(ExitPoolPacketView),
    LockupAccount,
    Lock(LockPacket),
    Claim(ClaimPacketView),
    Unlock(UnlockPacket),
}

impl View for OsmoPacket {
    type V = OsmoPacketView;

    open spec fn view(&self) -> OsmoPacketView {
        match self {
            OsmoPacket::Swap(p) => OsmoPacketView::Swap(p@),
            OsmoPacket::JoinPool(p) => OsmoPacketView::JoinPool(*p),
            OsmoPacket::ExitPool(p) => OsmoPacketView::ExitPool(p@),
            OsmoPacket::LockupAccount {  } => OsmoPacketView::LockupAccount,
            OsmoPacket::Lock(p) => OsmoPacketView::Lock(*p),
            OsmoPacket::Claim(p) => OsmoPacketView::Claim(p@),
            OsmoPacket::Unlock(p) => OsmoPacketView::Unlock(*p),
        }
    }
}

impl Clone for OsmoPacket {
    fn clone(&self) -> (r: OsmoPacket)
        ensures
            r@ == self@,
    {
        match self {
            OsmoPacket::Swap(p) => OsmoPacket::Swap(p.clone()),
            OsmoPacket::JoinPool(p) => OsmoPacket::JoinPool(*p),
            OsmoPacket::ExitPool(p) => OsmoPacket::ExitPool(p.clone()),
            OsmoPacket::LockupAccount {  } => OsmoPacket::LockupAccount {  },
            OsmoPacket::Lock(p) => OsmoPacket::Lock(*p),
            OsmoPacket::Claim(p) => OsmoPacket::Claim(p.clone()),
            OsmoPacket::Unlock(p) => OsmoPacket::Unlock(*p),
        }
    }
}

/// What an optional action stands for.
pub open spec fn action_view(action: Option<OsmoPacket>) -> Option<OsmoPacketView> {
    match action {
        Some(a) => Some(a@),
        None => None,
    }
}

/// Copies an optional action.
pub fn clone_action(action: &Option<OsmoPacket>) -> (r: Option<OsmoPacket>)
    ensures
        action_view(r) == action_view(*action),
{
    match action {
        Some(a) => Some(a.clone()),
        None => None,
    }
}

/// The largest amount that a packet may carry: counterparty chains read the
/// amount as 64 bits, though it is kept in 128.
pub const MAX_PACKET_AMOUNT: u128 = 0xffff_ffff_ffff_ffff;

/// The ICS20 transfer packet, with the action it may carry.
#[derive(Debug, PartialEq)]
pub struct Ics20Packet {
    /// amount of tokens to transfer
    pub amount: u128,
    /// the token denomination to be transferred
    pub denom: String,
    /// the recipient address on the destination chain
    pub receiver: String,
    /// the sender address
    pub sender: String,
    /// what the receiving chain is to do with the tokens; a plain transfer has none
    pub action: Option<OsmoPacket>,
}

/// What an `Ics20Packet` stands for.
pub struct Ics20PacketView {
    pub amount: u128,
    pub denom: Seq<char>,
    pub receiver: Seq<char>,
    pub sender: Seq<char>,
    pub action: Option<OsmoPacketView>,
}

impl View for Ics20Packet {
    type V = Ics20PacketView;

    open spec fn view(&self) -> Ics20PacketView {
        Ics20PacketView {
            amount: self.amount,
            denom: self.denom@,
            receiver: self.receiver@,
            sender: self.sender@,
            action: action_view(self.action),
        }
    }
}

impl Clone for Ics20Packet {
    fn clone(&self) -> (r: Ics20Packet)
        ensures
            r@ == self@,
    {
        Ics20Packet {
            amount: self.amount,
            denom: self.denom.clone(),
            receiver: self.receiver.clone(),
            sender: self.sender.clone(),
            action: clone_action(&self.action),
        }
    }
}

impl Ics20PacketView {
    /// Whether the amount fits the 64 bits of a counterparty chain.
    pub open spec fn valid(self) -> bool {
        self.amount <= MAX_PACKET_AMOUNT
    }
}

impl Ics20Packet {
    /// A packet of `amount` units of `denom` from `sender` to `receiver`.
    pub fn new(
        amount: u128,
        denom: &str,
        sender: &str,
        receiver: &str,
        action_packet: Option<OsmoPacket>,
    ) -> (r: Ics20Packet)
        ensures
            r@ == (Ics20PacketView {
                amount,
                denom: denom@,
                receiver: receiver@,
                sender: sender@,
                action: action_view(action_packet),
            }),
    {
        Ics20Packet {
            denom: denom.to_string(),
            amount,
            sender: sender.to_string(),
            receiver: receiver.to_string(),
            action: action_packet,
        }
    }

    /// Refuses an amount that a counterparty chain could not read.
    pub fn validate(&self) -> (r: Result<(), ContractError>)
        ensures
            self@.valid() ==> r == Ok::<(), ContractError>(()),
            !self@.valid() ==> r == Err::<(), ContractError>(ContractError::AmountOverflow),
    {
        if self.amount > MAX_PACKET_AMOUNT {
            Err(ContractError::AmountOverflow)
        } else {
            Ok(())
        }
    }
}

/// The acknowledgement of a packet: what the action gave, or why it failed.
#[derive(Debug, PartialEq)]
pub enum Ics20Ack {
    Result(Vec<u8>),
    Error(String),
}

/// What an `Ics20Ack` stands for.
pub enum Ics20AckView {
    Result(Seq<u8>),
    Error(Seq<char>),
}

impl View for Ics20Ack {
    type V = Ics20AckView;

    open spec fn view(&self) -> Ics20AckView {
        match self {
            Ics20Ack::Result(b) => Ics20AckView::Result(b@),
            Ics20Ack::Error(e) => Ics20AckView::Error(e@),
        }
    }
}

impl Clone for Ics20Ack {
    fn clone(&self) -> (r: Ics20Ack)
        ensures
            r@ == self@,
    {
        match self {
            Ics20Ack::Result(b) => Ics20Ack::Result(b.clone()),
            Ics20Ack::Error(e) => Ics20Ack::Error(e.clone()),
        }
    }
}

/// A received token: its denomination here, and whether it is a token of
/// this chain that comes home.
#[derive(Debug, PartialEq)]
pub struct Voucher {
    pub denom: String,
    /// denom is from source chain.
    pub our_chain: bool,
}

/// What a `Voucher` stands for.
pub struct VoucherView {
    pub denom: Seq<char>,
    pub our_chain: bool,
}

impl View for Voucher {
    type V = VoucherView;

    open spec fn view(&self) -> VoucherView {
        VoucherView { denom: self.denom@, our_chain: self.our_chain }
    }
}

} // verus!
