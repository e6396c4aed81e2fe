//! What the bridge keeps between calls: its settings, the channel registry,
//! the allow-lists, the balance of each channel and denomination, and the
//! packets that were settled.

use vstd::prelude::*;
use vstd::string::*;
use crate::error::ContractError;
use crate::msg::{AllowedInfo, AllowedTokenInfo};
use crate::store::{
    is_page, lemma_map_of, map_of, row_of, ChannelDenom, Key, LockupKey, PacketId, Table,
};

verus! {

/// The settings of the bridge.
#[derive(Clone, Copy, Debug, PartialEq, Eq, Structural)]
pub struct Config {
    /// Default timeout for ics20 packets, specified in seconds
    pub default_timeout: u64,
}

/// One end of a channel.
#[derive(Debug, PartialEq)]
pub struct IbcEndpoint {
    pub port_id: String,
    pub channel_id: String,
}

/// What an `IbcEndpoint` stands for.
pub struct IbcEndpointView {
    pub port_id: Seq<char>,
    pub channel_id: Seq<char>,
}

impl View for IbcEndpoint {
    type V = IbcEndpointView;

    open spec fn view(&self) -> IbcEndpointView {
        IbcEndpointView { port_id: self.port_id@, channel_id: self.channel_id@ }
    }
}

impl Clone for IbcEndpoint {
    fn clone(&self) -> (r: IbcEndpoint)
        ensures
            r@ == self@,
    {
        IbcEndpoint { port_id: self.port_id.clone(), channel_id: self.channel_id.clone() }
    }
}

/// A channel of this bridge: fixed once the channel is open.
#[derive(Debug, PartialEq)]
pub struct ChannelInfo {
    /// id of this channel
    pub id: String,
    /// the remote channel/port we connect to
    pub counterparty_endpoint: IbcEndpoint,
    /// the connection this exists on (you can use to query client/consensus info)
    pub connection_id: String,
}

/// What a `ChannelInfo` stands for.
pub struct ChannelInfoView {
    pub id: Seq<char>,
    pub counterparty_endpoint: IbcEndpointView,
    pub connection_id: Seq<char>,
}

impl View for ChannelInfo {
    type V = ChannelInfoView;

    open spec fn view(&self) -> ChannelInfoView {
        ChannelInfoView {
            id: self.id@,
            counterparty_endpoint: self.counterparty_endpoint@,
            connection_id: self.connection_id@,
        }
    }
}

impl Clone for ChannelInfo {
    fn clone(&self) -> (r: ChannelInfo)
        ensures
            r@ == self@,
    {
        ChannelInfo {
            id: self.id.clone(),
            counterparty_endpoint: self.counterparty_endpoint.clone(),
            connection_id: self.connection_id.clone(),
        }
    }
}

/// The account of one denomination on one channel.
#[derive(Clone, Copy, Debug, PartialEq, Eq, Structural)]
pub struct ChannelState {
    /// what was sent and is not settled yet
    pub outstanding: u128,
    /// all that was ever sent; it never goes down
    pub total_sent: u128,
}

/// What governance granted to a cw20 contract.
#[derive(Clone, Copy, Debug, PartialEq, Eq, Structural)]
pub struct AllowInfo {
    pub gas_limit: Option<u64>,
}

/// The bridge's state as plain mathematics.
pub struct BridgeView {
    pub default_timeout: u64,
    pub admin: Seq<char>,
    pub channels: Map<Seq<char>, ChannelInfoView>,
    pub balances: Map<(Seq<char>, Seq<char>), ChannelState>,
    pub allow_list: Map<Seq<char>, AllowInfo>,
    pub external_tokens: Map<Seq<char>, Seq<char>>,
    pub settled: Set<(Seq<char>, u64)>,
    pub lockups: Map<(Seq<char>, Seq<char>), Seq<char>>,
}

impl BridgeView {
    /// A bridge that has not seen a channel, a token or a packet.
    pub open spec fn initial(default_timeout: u64, admin: Seq<char>) -> BridgeView {
        BridgeView {
            default_timeout,
            admin,
            channels: Map::empty(),
            balances: Map::empty(),
            allow_list: Map::empty(),
            external_tokens: Map::empty(),
            settled: Set::empty(),
            lockups: Map::empty(),
        }
    }

    /// No balance has more outstanding than was ever sent.
    pub open spec fn consistent(self) -> bool {
        forall|k: (Seq<char>, Seq<char>)| #[trigger]
            self.balances.contains_key(k) ==> self.balances[k].outstanding
                <= self.balances[k].total_sent
    }

    /// The account of `denom` on `channel`; empty before the first send.
    pub open spec fn balance(self, channel: Seq<char>, denom: Seq<char>) -> ChannelState {
        if self.balances.contains_key((channel, denom)) {
            self.balances[(channel, denom)]
        } else {
            ChannelState { outstanding: 0, total_sent: 0 }
        }
    }

    /// Whether `amount` more of `denom` can be counted as sent on `channel`.
    pub open spec fn can_increase(self, channel: Seq<char>, denom: Seq<char>, amount: u128) -> bool {
        self.balance(channel, denom).total_sent + amount <= u128::MAX
    }

    /// The state after `amount` of `denom` was sent on `channel`.
    pub open spec fn increased(self, channel: Seq<char>, denom: Seq<char>, amount: u128) -> BridgeView {
        let b = self.balance(channel, denom);
        BridgeView {
            balances: self.balances.insert(
                (channel, denom),
                ChannelState {
                    outstanding: (b.outstanding + amount) as u128,
                    total_sent: (b.total_sent + amount) as u128,
                },
            ),
            ..self
        }
    }

    /// Whether `amount` of `denom` is outstanding on `channel`.
    pub open spec fn can_reduce(self, channel: Seq<char>, denom: Seq<char>, amount: u128) -> bool {
        self.balances.contains_key((channel, denom)) && amount <= self.balances[(
            channel,
            denom,
        )].outstanding
    }

    /// The state after `amount` of `denom` on `channel` stopped being
    /// outstanding.
    pub open spec fn reduced(self, channel: Seq<char>, denom: Seq<char>, amount: u128) -> BridgeView {
        let b = self.balances[(channel, denom)];
        BridgeView {
            balances: self.balances.insert(
                (channel, denom),
                ChannelState { outstanding: (b.outstanding - amount) as u128, total_sent: b.total_sent },
            ),
            ..self
        }
    }
}

/// One row of the balances: the account of a denomination on a channel.
#[derive(Clone, Debug, PartialEq)]
pub struct Balance {
    pub channel: String,
    pub denom: String,
    pub state: ChannelState,
}

/// One lockup account: where the account of an owner on a channel lives
/// on the other chain.
#[derive(Clone, Debug, PartialEq)]
pub struct Lockup {
    pub channel: String,
    pub owner: String,
    pub address: String,
}

/// The bridge's state as plain lists, as it is stored between calls.
#[derive(Debug, PartialEq)]
pub struct Snapshot {
    pub config: Config,
    pub admin: String,
    pub channels: Vec<ChannelInfo>,
    pub balances: Vec<Balance>,
    pub allow_list: Vec<AllowedInfo>,
    pub external_tokens: Vec<AllowedTokenInfo>,
    pub settled: Vec<PacketId>,
    pub lockups: Vec<Lockup>,
}

impl Snapshot {
    /// The channels, each with its id.
    pub open spec fn channel_pairs(self) -> Seq<(Seq<char>, ChannelInfoView)> {
        Seq::new(self.channels@.len(), |i: int| (self.channels@[i].id@, self.channels@[i]@))
    }

    /// The balances, each with its channel and denomination.
    pub open spec fn balance_pairs(self) -> Seq<((Seq<char>, Seq<char>), ChannelState)> {
        Seq::new(
            self.balances@.len(),
            |i: int|
                ((self.balances@[i].channel@, self.balances@[i].denom@), self.balances@[i].state),
        )
    }

    /// The admitted cw20 contracts, each with what it was granted.
    pub open spec fn allow_pairs(self) -> Seq<(Seq<char>, AllowInfo)> {
        Seq::new(
            self.allow_list@.len(),
            |i: int|
                (self.allow_list@[i].contract@, AllowInfo { gas_limit: self.allow_list@[i].gas_limit }),
        )
    }

    /// The admitted external denominations, each with its contract.
    pub open spec fn token_pairs(self) -> Seq<(Seq<char>, Seq<char>)> {
        Seq::new(
            self.external_tokens@.len(),
            |i: int| (self.external_tokens@[i].denom@, self.external_tokens@[i].contract@),
        )
    }

    /// The lockup accounts, each with its channel and owner.
    pub open spec fn lockup_pairs(self) -> Seq<((Seq<char>, Seq<char>), Seq<char>)> {
        Seq::new(
            self.lockups@.len(),
            |i: int|
                ((self.lockups@[i].channel@, self.lockups@[i].owner@), self.lockups@[i].address@),
        )
    }

    /// The packets that were settled.
    pub open spec fn settled_set(self) -> Set<(Seq<char>, u64)> {
        Set::new(
            |k: (Seq<char>, u64)|
                exists|i: int| 0 <= i < self.settled@.len() && (#[trigger] self.settled@[i]).id() == k,
        )
    }
}

impl View for Snapshot {
    type V = BridgeView;

    /// The state that the lists describe. Where a list names a key twice,
    /// the later row counts.
    open spec fn view(&self) -> BridgeView {
        BridgeView {
            default_timeout: self.config.default_timeout,
            admin: self.admin@,
            channels: map_of(self.channel_pairs()),
            balances: map_of(self.balance_pairs()),
            allow_list: map_of(self.allow_pairs()),
            external_tokens: map_of(self.token_pairs()),
            settled: self.settled_set(),
            lockups: map_of(self.lockup_pairs()),
        }
    }
}

/// Whether `rows` is the page of `m` behind `start_after`: the rows of the
/// first keys behind it in ascending order, `limit` of them or all there
/// are, each with the value that `m` has for it.
pub open spec fn is_listing<V>(
    m: Map<Seq<char>, V>,
    start_after: Option<Seq<char>>,
    limit: nat,
    rows: Seq<(Seq<char>, V)>,
) -> bool {
    &&& is_page(m, start_after, limit, Seq::new(rows.len(), |i: int| rows[i].0))
    &&& forall|i: int| 0 <= i < rows.len() ==> (#[trigger] rows[i]).1 == m[rows[i].0]
}

/// The cw20 contracts of a list, each with what it was granted.
pub open spec fn allowed_rows(list: Seq<AllowedInfo>) -> Seq<(Seq<char>, AllowInfo)> {
    Seq::new(list.len(), |i: int| (list[i].contract@, AllowInfo { gas_limit: list[i].gas_limit }))
}

/// The external denominations of a list, each with its contract.
pub open spec fn token_rows(list: Seq<AllowedTokenInfo>) -> Seq<(Seq<char>, Seq<char>)> {
    Seq::new(list.len(), |i: int| (list[i].denom@, list[i].contract@))
}

/// The channels of a list, each with its id.
pub open spec fn channel_rows(list: Seq<ChannelInfo>) -> Seq<(Seq<char>, ChannelInfoView)> {
    Seq::new(list.len(), |i: int| (list[i].id@, list[i]@))
}

/// The accounts of a list, each with its denomination.
pub open spec fn balance_rows(list: Seq<Balance>) -> Seq<(Seq<char>, ChannelState)> {
    Seq::new(list.len(), |i: int| (list[i].denom@, list[i].state))
}

impl BridgeView {
    /// The accounts of one channel, by denomination.
    pub open spec fn balances_of(self, channel: Seq<char>) -> Map<Seq<char>, ChannelState> {
        Map::new(
            |d: Seq<char>| self.balances.contains_key((channel, d)),
            |d: Seq<char>| self.balances[(channel, d)],
        )
    }
}

/// The bridge's state.
pub struct Bridge {
    config: Config,
    admin: String,
    channels: Table<String, ChannelInfo>,
    balances: Table<ChannelDenom, ChannelState>,
    allow_list: Table<String, AllowInfo>,
    external_tokens: Table<String, String>,
    settled: Table<PacketId, ()>,
    lockups: Table<LockupKey, String>,
}

impl View for Bridge {
    type V = BridgeView;

    closed spec fn view(&self) -> BridgeView {
        BridgeView {
            default_timeout: self.config.default_timeout,
            admin: self.admin@,
            channels: self.channels@.map_values(|c: ChannelInfo| c@),
            balances: self.balances@,
            allow_list: self.allow_list@,
            external_tokens: self.external_tokens@.map_values(|s: String| s@),
            settled: self.settled@.dom(),
            lockups: self.lockups@.map_values(|s: String| s@),
        }
    }
}

impl Bridge {
    /// Each table has one row for each key, and a channel stands under its
    /// own id.
    pub closed spec fn tables_wf(&self) -> bool {
        &&& self.channels.wf()
        &&& self.balances.wf()
        &&& self.allow_list.wf()
        &&& self.external_tokens.wf()
        &&& self.settled.wf()
        &&& self.lockups.wf()
        &&& forall|id: Seq<char>| #[trigger]
            self.channels@.contains_key(id) ==> self.channels@[id].id@ == id
    }

    /// What every bridge that this library hands out satisfies.
    pub open spec fn wf(&self) -> bool {
        self.tables_wf() && self@.consistent()
    }

    /// A bridge with its settings and nothing else.
    pub fn new(config: Config, admin: &str) -> (r: Bridge)
        ensures
            r.wf(),
            r@ == BridgeView::initial(config.default_timeout, admin@),
    {
        let r = Bridge {
            config,
            admin: admin.to_string(),
            channels: Table::new(),
            balances: Table::new(),
            allow_list: Table::new(),
            external_tokens: Table::new(),
            settled: Table::new(),
            lockups: Table::new(),
        };
        proof {
            assert(r@.channels =~= Map::<Seq<char>, ChannelInfoView>::empty());
            assert(r@.external_tokens =~= Map::<Seq<char>, Seq<char>>::empty());
            assert(r@.settled =~= Set::<(Seq<char>, u64)>::empty());
            assert(r@.lockups =~= Map::<(Seq<char>, Seq<char>), Seq<char>>::empty());
        }
        r
    }

    /// The settings.
    pub fn config(&self) -> (r: Config)
        ensures
            r.default_timeout == self@.default_timeout,
    {
        self.config
    }

    /// The governance address.
    pub fn admin(&self) -> (r: &String)
        ensures
            r@ == self@.admin,
    {
        &self.admin
    }

    pub(crate) fn set_admin(&mut self, admin: &str)
        requires
            old(self).wf(),
        ensures
            final(self).wf(),
            final(self)@ == (BridgeView { admin: admin@, ..old(self)@ }),
    {
        self.admin = admin.to_string();
        assert(self@.balances == old(self)@.balances);
    }

    /// The channel with this id, if it is registered.
    pub fn channel(&self, id: &str) -> (r: Option<&ChannelInfo>)
        requires
            self.wf(),
        ensures
            match r {
                Some(c) => self@.channels.contains_key(id@) && c@ == self@.channels[id@],
                None => !self@.channels.contains_key(id@),
            },
    {
        self.channels.get(&id.to_string())
    }

    pub(crate) fn set_channel(&mut self, info: ChannelInfo)
        requires
            old(self).wf(),
        ensures
            final(self).wf(),
            final(self)@ == (BridgeView {
                channels: old(self)@.channels.insert(info.id@, info@),
                ..old(self)@
            }),
    {
        let ghost before = self.channels@;
        let key = info.id.clone();
        self.channels.insert(key, info);
        proof {
            assert(self.channels@.map_values(|c: ChannelInfo| c@) =~= before.map_values(
                |c: ChannelInfo| c@,
            ).insert(info.id@, info@));
            assert(self@.balances == old(self)@.balances);
        }
    }

    /// What governance granted to the cw20 contract, if it is on the list.
    pub fn allowed(&self, contract: &str) -> (r: Option<AllowInfo>)
        requires
            self.wf(),
        ensures
            match r {
                Some(a) => self@.allow_list.contains_key(contract@) && a
                    == self@.allow_list[contract@],
                None => !self@.allow_list.contains_key(contract@),
            },
    {
        match self.allow_list.get(&contract.to_string()) {
            Some(a) => Some(*a),
            None => None,
        }
    }

    pub(crate) fn set_allowed(&mut self, contract: &str, info: AllowInfo)
        requires
            old(self).wf(),
        ensures
            final(self).wf(),
            final(self)@ == (BridgeView {
                allow_list: old(self)@.allow_list.insert(contract@, info),
                ..old(self)@
            }),
    {
        self.allow_list.insert(contract.to_string(), info);
        assert(self@.balances == old(self)@.balances);
    }

    /// The cw20 contract that stands for the external denomination, if
    /// governance admitted it.
    pub fn external_token(&self, denom: &str) -> (r: Option<&String>)
        requires
            self.wf(),
        ensures
            match r {
                Some(c) => self@.external_tokens.contains_key(denom@) && c@
                    == self@.external_tokens[denom@],
                None => !self@.external_tokens.contains_key(denom@),
            },
    {
        self.external_tokens.get(&denom.to_string())
    }

    pub(crate) fn set_external_token(&mut self, denom: &str, contract: &str)
        requires
            old(self).wf(),
        ensures
            final(self).wf(),
            final(self)@ == (BridgeView {
                external_tokens: old(self)@.external_tokens.insert(denom@, contract@),
                ..old(self)@
            }),
    {
        let ghost before = self.external_tokens@;
        let value = contract.to_string();
        self.external_tokens.insert(denom.to_string(), value);
        proof {
            assert(self.external_tokens@.map_values(|s: String| s@) =~= before.map_values(
                |s: String| s@,
            ).insert(denom@, contract@));
            assert(self@.balances == old(self)@.balances);
        }
    }

    /// The account of `denom` on `channel`, if anything was ever sent.
    pub fn channel_state(&self, channel: &str, denom: &str) -> (r: Option<ChannelState>)
        requires
            self.wf(),
        ensures
            match r {
                Some(s) => self@.balances.contains_key((channel@, denom@)) && s
                    == self@.balances[(channel@, denom@)],
                None => !self@.balances.contains_key((channel@, denom@)),
            },
    {
        match self.balances.get(&ChannelDenom::new(channel, denom)) {
            Some(s) => Some(*s),
            None => None,
        }
    }

    /// Counts `amount` of `denom` as sent on `channel`: both counters grow.
    /// Refused, with nothing changed, where a counter would leave 128 bits.
    pub fn increase_channel_balance(&mut self, channel: &str, denom: &str, amount: u128) -> (r:
        Result<(), ContractError>)
        requires
            old(self).wf(),
        ensures
            final(self).wf(),
            old(self)@.can_increase(channel@, denom@, amount) ==> r is Ok && final(self)@ == old(
                self,
            )@.increased(channel@, denom@, amount),
            !old(self)@.can_increase(channel@, denom@, amount) ==> r == Err::<(), ContractError>(
                ContractError::Overflow,
            ) && final(self)@ == old(self)@,
    {
        let cur = match self.channel_state(channel, denom) {
            Some(s) => s,
            None => ChannelState { outstanding: 0, total_sent: 0 },
        };
        proof {
            assert(cur == self@.balance(channel@, denom@));
            assert(self@.balances.contains_key((channel@, denom@)) ==> cur.outstanding
                <= cur.total_sent);
        }
        if amount > u128::MAX - cur.total_sent {
            return Err(ContractError::Overflow);
        }
        let next = ChannelState {
            outstanding: cur.outstanding + amount,
            total_sent: cur.total_sent + amount,
        };
        self.balances.insert(ChannelDenom::new(channel, denom), next);
        Ok(())
    }

    /// Takes `amount` of `denom` out of what is outstanding on `channel`;
    /// what was ever sent stays. Refused, with nothing changed, where less
    /// than `amount` is outstanding.
    pub fn reduce_channel_balance(&mut self, channel: &str, denom: &str, amount: u128) -> (r:
        Result<(), ContractError>)
        requires
            old(self).wf(),
        ensures
            final(self).wf(),
            old(self)@.can_reduce(channel@, denom@, amount) ==> r is Ok && final(self)@ == old(
                self,
            )@.reduced(channel@, denom@, amount),
            !old(self)@.can_reduce(channel@, denom@, amount) ==> r == Err::<(), ContractError>(
                ContractError::InsufficientFunds,
            ) && final(self)@ == old(self)@,
    {
        let cur = match self.channel_state(channel, denom) {
            Some(s) => s,
            None => {
                return Err(ContractError::InsufficientFunds);
            },
        };
        if amount > cur.outstanding {
            return Err(ContractError::InsufficientFunds);
        }
        let next = ChannelState {
            outstanding: cur.outstanding - amount,
            total_sent: cur.total_sent,
        };
        self.balances.insert(ChannelDenom::new(channel, denom), next);
        Ok(())
    }

    /// Whether the packet with number `sequence` on `channel` was settled.
    pub fn is_settled(&self, channel: &str, sequence: u64) -> (r: bool)
        requires
            self.wf(),
        ensures
            r == self@.settled.contains((channel@, sequence)),
    {
        self.settled.contains(&PacketId::new(channel, sequence))
    }

    pub(crate) fn mark_settled(&mut self, channel: &str, sequence: u64)
        requires
            old(self).wf(),
        ensures
            final(self).wf(),
            final(self)@ == (BridgeView {
                settled: old(self)@.settled.insert((channel@, sequence)),
                ..old(self)@
            }),
    {
        let ghost before = self.settled@;
        self.settled.insert(PacketId::new(channel, sequence), ());
        proof {
            assert(self.settled@.dom() =~= before.dom().insert((channel@, sequence)));
            assert(self@.balances == old(self)@.balances);
        }
    }

    /// Where the lockup account of `owner` on `channel` lives, if the other
    /// chain has opened one.
    pub fn lockup(&self, channel: &str, owner: &str) -> (r: Option<&String>)
        requires
            self.wf(),
        ensures
            match r {
                Some(a) => self@.lockups.contains_key((channel@, owner@)) && a@
                    == self@.lockups[(channel@, owner@)],
                None => !self@.lockups.contains_key((channel@, owner@)),
            },
    {
        self.lockups.get(&LockupKey::new(channel, owner))
    }

    pub(crate) fn set_lockup(&mut self, channel: &str, owner: &str, address: &str)
        requires
            old(self).wf(),
        ensures
            final(self).wf(),
            final(self)@ == (BridgeView {
                lockups: old(self)@.lockups.insert((channel@, owner@), address@),
                ..old(self)@
            }),
    {
        let ghost before = self.lockups@;
        let value = address.to_string();
        self.lockups.insert(LockupKey::new(channel, owner), value);
        proof {
            assert(self.lockups@.map_values(|s: String| s@) =~= before.map_values(
                |s: String| s@,
            ).insert((channel@, owner@), address@));
            assert(self@.balances == old(self)@.balances);
        }
    }

    /// The state as plain lists, to be stored.
    pub fn snapshot(&self) -> (r: Snapshot)
        requires
            self.wf(),
        ensures
            r@ == self@,
    {
        proof {
            self.channels.lemma_rows();
            self.balances.lemma_rows();
            self.allow_list.lemma_rows();
            self.external_tokens.lemma_rows();
            self.settled.lemma_rows();
            self.lockups.lemma_rows();
        }
        let mut channels: Vec<ChannelInfo> = Vec::new();
        let mut i: usize = 0;
        while i < self.channels.len()
            invariant
                i <= self.channels.rows().len(),
                channels@.len() == i,
                forall|j: int| 0 <= j < i ==> (#[trigger] channels@[j])@ == self.channels.rows()[j].1@,
            decreases self.channels.rows().len() - i,
        {
            channels.push(self.channels.value_at(i).clone());
            i += 1;
        }
        let mut balances: Vec<Balance> = Vec::new();
        let mut i: usize = 0;
        while i < self.balances.len()
            invariant
                i <= self.balances.rows().len(),
                balances@.len() == i,
                forall|j: int|
                    0 <= j < i ==> {
                        let b = #[trigger] balances@[j];
                        let row = self.balances.rows()[j];
                        (b.channel@, b.denom@) == row.0.id() && b.state == row.1
                    },
            decreases self.balances.rows().len() - i,
        {
            let key = self.balances.key_at(i);
            balances.push(
                Balance {
                    channel: key.channel.clone(),
                    denom: key.denom.clone(),
                    state: *self.balances.value_at(i),
                },
            );
            i += 1;
        }
        let mut allow_list: Vec<AllowedInfo> = Vec::new();
        let mut i: usize = 0;
        while i < self.allow_list.len()
            invariant
                i <= self.allow_list.rows().len(),
                allow_list@.len() == i,
                forall|j: int|
                    0 <= j < i ==> {
                        let a = #[trigger] allow_list@[j];
                        let row = self.allow_list.rows()[j];
                        a.contract@ == row.0@ && a.gas_limit == row.1.gas_limit
                    },
            decreases self.allow_list.rows().len() - i,
        {
            allow_list.push(
                AllowedInfo {
                    contract: self.allow_list.key_at(i).clone(),
                    gas_limit: self.allow_list.value_at(i).gas_limit,
                },
            );
            i += 1;
        }
        let mut external_tokens: Vec<AllowedTokenInfo> = Vec::new();
        let mut i: usize = 0;
        while i < self.external_tokens.len()
            invariant
                i <= self.external_tokens.rows().len(),
                external_tokens@.len() == i,
                forall|j: int|
                    0 <= j < i ==> {
                        let t = #[trigger] external_tokens@[j];
                        let row = self.external_tokens.rows()[j];
                        t.denom@ == row.0@ && t.contract@ == row.1@
                    },
            decreases self.external_tokens.rows().len() - i,
        {
            external_tokens.push(
                AllowedTokenInfo {
                    denom: self.external_tokens.key_at(i).clone(),
                    contract: self.external_tokens.value_at(i).clone(),
                },
            );
            i += 1;
        }
        let mut settled: Vec<PacketId> = Vec::new();
        let mut i: usize = 0;
        while i < self.settled.len()
            invariant
                i <= self.settled.rows().len(),
                settled@.len() == i,
                forall|j: int|
                    0 <= j < i ==> (#[trigger] settled@[j]).id() == self.settled.rows()[j].0.id(),
            decreases self.settled.rows().len() - i,
        {
            let key = self.settled.key_at(i);
            settled.push(PacketId::new(key.channel.as_str(), key.sequence));
            i += 1;
        }
        let mut lockups: Vec<Lockup> = Vec::new();
        let mut i: usize = 0;
        while i < self.lockups.len()
            invariant
                i <= self.lockups.rows().len(),
                lockups@.len() == i,
                forall|j: int|
                    0 <= j < i ==> {
                        let l = #[trigger] lockups@[j];
                        let row = self.lockups.rows()[j];
                        (l.channel@, l.owner@) == row.0.id() && l.address@ == row.1@
                    },
            decreases self.lockups.rows().len() - i,
        {
            let key = self.lockups.key_at(i);
            lockups.push(
                Lockup {
                    channel: key.channel.clone(),
                    owner: key.owner.clone(),
                    address: self.lockups.value_at(i).clone(),
                },
            );
            i += 1;
        }
        let r = Snapshot {
            config: self.config,
            admin: self.admin.clone(),
            channels,
            balances,
            allow_list,
            external_tokens,
            settled,
            lockups,
        };
        proof {
            let rows = self.channels.rows();
            let pairs = r.channel_pairs();
            assert forall|i: int| 0 <= i < pairs.len() implies (#[trigger] pairs[i]).0
                == rows[i].0.id() && pairs[i].1 == rows[i].1@ by {
                assert(self.channels@.contains_key(rows[i].0.id()));
                assert(r.channels@[i]@ == rows[i].1@);
            }
            assert forall|i: int, j: int| 0 <= i < j < pairs.len() implies (#[trigger] pairs[i]).0
                != (#[trigger] pairs[j]).0 by {
                assert(rows[i].0.id() != rows[j].0.id());
            }
            assert forall|i: int| 0 <= i < pairs.len() implies self@.channels.contains_key(
                (#[trigger] pairs[i]).0,
            ) && self@.channels[pairs[i].0] == pairs[i].1 by {
                assert(self.channels@.contains_key(rows[i].0.id()));
            }
            assert forall|id: Seq<char>| self@.channels.contains_key(id) implies exists|i: int|
                0 <= i < pairs.len() && (#[trigger] pairs[i]).0 == id by {
                assert(self.channels@.contains_key(id));
                let i = row_of(rows, id)->0;
                assert(pairs[i].0 == id);
            }
            lemma_map_of(pairs, self@.channels);
        }
        proof {
            let rows = self.balances.rows();
            let pairs = r.balance_pairs();
            assert forall|i: int| 0 <= i < pairs.len() implies (#[trigger] pairs[i]).0
                == rows[i].0.id() && pairs[i].1 == rows[i].1 by {
                assert(r.balances@[i].state == rows[i].1);
            }
            assert forall|i: int, j: int| 0 <= i < j < pairs.len() implies (#[trigger] pairs[i]).0
                != (#[trigger] pairs[j]).0 by {
                assert(rows[i].0.id() != rows[j].0.id());
            }
            assert forall|i: int| 0 <= i < pairs.len() implies self@.balances.contains_key(
                (#[trigger] pairs[i]).0,
            ) && self@.balances[pairs[i].0] == pairs[i].1 by {
                assert(self.balances@.contains_key(rows[i].0.id()));
            }
            assert forall|id: (Seq<char>, Seq<char>)|
                self@.balances.contains_key(id) implies exists|i: int|
                0 <= i < pairs.len() && (#[trigger] pairs[i]).0 == id by {
                let i = row_of(rows, id)->0;
                assert(pairs[i].0 == id);
            }
            lemma_map_of(pairs, self@.balances);
        }
        proof {
            let rows = self.allow_list.rows();
            let pairs = r.allow_pairs();
            assert forall|i: int| 0 <= i < pairs.len() implies (#[trigger] pairs[i]).0
                == rows[i].0.id() && pairs[i].1 == rows[i].1 by {
                assert(r.allow_list@[i].gas_limit == rows[i].1.gas_limit);
            }
            assert forall|i: int, j: int| 0 <= i < j < pairs.len() implies (#[trigger] pairs[i]).0
                != (#[trigger] pairs[j]).0 by {
                assert(rows[i].0.id() != rows[j].0.id());
            }
            assert forall|i: int| 0 <= i < pairs.len() implies self@.allow_list.contains_key(
                (#[trigger] pairs[i]).0,
            ) && self@.allow_list[pairs[i].0] == pairs[i].1 by {
                assert(self.allow_list@.contains_key(rows[i].0.id()));
            }
            assert forall|id: Seq<char>| self@.allow_list.contains_key(id) implies exists|i: int|
                0 <= i < pairs.len() && (#[trigger] pairs[i]).0 == id by {
                let i = row_of(rows, id)->0;
                assert(pairs[i].0 == id);
            }
            lemma_map_of(pairs, self@.allow_list);
        }
        proof {
            let rows = self.external_tokens.rows();
            let pairs = r.token_pairs();
            assert forall|i: int| 0 <= i < pairs.len() implies (#[trigger] pairs[i]).0
                == rows[i].0.id() && pairs[i].1 == rows[i].1@ by {
                assert(r.external_tokens@[i].contract@ == rows[i].1@);
            }
            assert forall|i: int, j: int| 0 <= i < j < pairs.len() implies (#[trigger] pairs[i]).0
                != (#[trigger] pairs[j]).0 by {
                assert(rows[i].0.id() != rows[j].0.id());
            }
            assert forall|i: int| 0 <= i < pairs.len() implies self@.external_tokens.contains_key(
                (#[trigger] pairs[i]).0,
            ) && self@.external_tokens[pairs[i].0] == pairs[i].1 by {
                assert(self.external_tokens@.contains_key(rows[i].0.id()));
            }
            assert forall|id: Seq<char>|
                self@.external_tokens.contains_key(id) implies exists|i: int|
                0 <= i < pairs.len() && (#[trigger] pairs[i]).0 == id by {
                assert(self.external_tokens@.contains_key(id));
                let i = row_of(rows, id)->0;
                assert(pairs[i].0 == id);
            }
            lemma_map_of(pairs, self@.external_tokens);
        }
        proof {
            let rows = self.lockups.rows();
            let pairs = r.lockup_pairs();
            assert forall|i: int| 0 <= i < pairs.len() implies (#[trigger] pairs[i]).0
                == rows[i].0.id() && pairs[i].1 == rows[i].1@ by {
                assert(r.lockups@[i].address@ == rows[i].1@);
            }
            assert forall|i: int, j: int| 0 <= i < j < pairs.len() implies (#[trigger] pairs[i]).0
                != (#[trigger] pairs[j]).0 by {
                assert(rows[i].0.id() != rows[j].0.id());
            }
            assert forall|i: int| 0 <= i < pairs.len() implies self@.lockups.contains_key(
                (#[trigger] pairs[i]).0,
            ) && self@.lockups[pairs[i].0] == pairs[i].1 by {
                assert(self.lockups@.contains_key(rows[i].0.id()));
            }
            assert forall|id: (Seq<char>, Seq<char>)|
                self@.lockups.contains_key(id) implies exists|i: int|
                0 <= i < pairs.len() && (#[trigger] pairs[i]).0 == id by {
                assert(self.lockups@.contains_key(id));
                let i = row_of(rows, id)->0;
                assert(pairs[i].0 == id);
            }
            lemma_map_of(pairs, self@.lockups);
        }
        proof {
            let rows = self.settled.rows();
            assert forall|k: (Seq<char>, u64)| r.settled_set().contains(k)
                == self@.settled.contains(k) by {
                if self@.settled.contains(k) {
                    let i = row_of(rows, k)->0;
                    assert(r.settled@[i].id() == k);
                }
                if r.settled_set().contains(k) {
                    let i = choose|i: int|
                        0 <= i < r.settled@.len() && (#[trigger] r.settled@[i]).id() == k;
                    assert(rows[i].0.id() == k);
                    assert(self.settled@.contains_key(rows[i].0.id()));
                }
            }
            assert(r.settled_set() =~= self@.settled);
        }
        r
    }

    /// The bridge that the lists describe. Lists in which a balance has
    /// more outstanding than was ever sent are refused.
    pub fn restore(s: &Snapshot) -> (r: Result<Bridge, ContractError>)
        ensures
            match r {
                Ok(b) => s@.consistent() && b.wf() && b@ == s@,
                Err(e) => !s@.consistent() && e == ContractError::InvalidState,
            },
    {
        let mut b = Bridge::new(s.config, s.admin.as_str());
        let mut i: usize = 0;
        while i < s.channels.len()
            invariant
                i <= s.channels.len(),
                b.wf(),
                b@ == (BridgeView {
                    channels: map_of(s.channel_pairs().take(i as int)),
                    ..BridgeView::initial(s.config.default_timeout, s.admin@)
                }),
            decreases s.channels.len() - i,
        {
            b.set_channel(s.channels[i].clone());
            proof {
                let next = s.channel_pairs().take(i + 1);
                assert(next.drop_last() =~= s.channel_pairs().take(i as int));
            }
            i += 1;
        }
        proof {
            assert(s.channel_pairs().take(i as int) =~= s.channel_pairs());
        }
        let mut i: usize = 0;
        while i < s.allow_list.len()
            invariant
                i <= s.allow_list.len(),
                b.wf(),
                b@ == (BridgeView {
                    channels: map_of(s.channel_pairs()),
                    allow_list: map_of(s.allow_pairs().take(i as int)),
                    ..BridgeView::initial(s.config.default_timeout, s.admin@)
                }),
            decreases s.allow_list.len() - i,
        {
            let a = &s.allow_list[i];
            b.set_allowed(a.contract.as_str(), AllowInfo { gas_limit: a.gas_limit });
            proof {
                let next = s.allow_pairs().take(i + 1);
                assert(next.drop_last() =~= s.allow_pairs().take(i as int));
            }
            i += 1;
        }
        proof {
            assert(s.allow_pairs().take(i as int) =~= s.allow_pairs());
        }
        let mut i: usize = 0;
        while i < s.external_tokens.len()
            invariant
                i <= s.external_tokens.len(),
                b.wf(),
                b@ == (BridgeView {
                    channels: map_of(s.channel_pairs()),
                    allow_list: map_of(s.allow_pairs()),
                    external_tokens: map_of(s.token_pairs().take(i as int)),
                    ..BridgeView::initial(s.config.default_timeout, s.admin@)
                }),
            decreases s.external_tokens.len() - i,
        {
            let t = &s.external_tokens[i];
            b.set_external_token(t.denom.as_str(), t.contract.as_str());
            proof {
                let next = s.token_pairs().take(i + 1);
                assert(next.drop_last() =~= s.token_pairs().take(i as int));
            }
            i += 1;
        }
        proof {
            assert(s.token_pairs().take(i as int) =~= s.token_pairs());
            assert(b@.settled =~= Set::new(
                |k: (Seq<char>, u64)|
                    exists|j: int| 0 <= j < 0 && (#[trigger] s.settled@[j]).id() == k,
            ));
        }
        let mut i: usize = 0;
        while i < s.settled.len()
            invariant
                i <= s.settled.len(),
                b.wf(),
                b@ == (BridgeView {
                    channels: map_of(s.channel_pairs()),
                    allow_list: map_of(s.allow_pairs()),
                    external_tokens: map_of(s.token_pairs()),
                    settled: Set::new(
                        |k: (Seq<char>, u64)|
                            exists|j: int| 0 <= j < i && (#[trigger] s.settled@[j]).id() == k,
                    ),
                    ..BridgeView::initial(s.config.default_timeout, s.admin@)
                }),
            decreases s.settled.len() - i,
        {
            let ghost before = b@.settled;
            let p = &s.settled[i];
            b.mark_settled(p.channel.as_str(), p.sequence);
            proof {
                let after = Set::new(
                    |k: (Seq<char>, u64)|
                        exists|j: int| 0 <= j < i + 1 && (#[trigger] s.settled@[j]).id() == k,
                );
                assert forall|k: (Seq<char>, u64)| after.contains(k) == before.insert(
                    s.settled@[i as int].id(),
                ).contains(k) by {
                    if before.contains(k) {
                        let j = choose|j: int| 0 <= j < i && (#[trigger] s.settled@[j]).id() == k;
                        assert(0 <= j < i + 1 && s.settled@[j].id() == k);
                    }
                    if k == s.settled@[i as int].id() {
                        assert(0 <= i < i + 1 && s.settled@[i as int].id() == k);
                    }
                }
                assert(after =~= before.insert(s.settled@[i as int].id()));
            }
            i += 1;
        }
        proof {
            assert(b@.settled =~= s.settled_set());
        }
        let mut i: usize = 0;
        while i < s.lockups.len()
            invariant
                i <= s.lockups.len(),
                b.wf(),
                b@ == (BridgeView {
                    channels: map_of(s.channel_pairs()),
                    allow_list: map_of(s.allow_pairs()),
                    external_tokens: map_of(s.token_pairs()),
                    settled: s.settled_set(),
                    lockups: map_of(s.lockup_pairs().take(i as int)),
                    ..BridgeView::initial(s.config.default_timeout, s.admin@)
                }),
            decreases s.lockups.len() - i,
        {
            let l = &s.lockups[i];
            b.set_lockup(l.channel.as_str(), l.owner.as_str(), l.address.as_str());
            proof {
                let next = s.lockup_pairs().take(i + 1);
                assert(next.drop_last() =~= s.lockup_pairs().take(i as int));
            }
            i += 1;
        }
        proof {
            assert(s.lockup_pairs().take(i as int) =~= s.lockup_pairs());
        }
        let mut i: usize = 0;
        while i < s.balances.len()
            invariant
                i <= s.balances.len(),
                b.tables_wf(),
                b@ == (BridgeView { balances: map_of(s.balance_pairs().take(i as int)), ..s@ }),
            decreases s.balances.len() - i,
        {
            let row = &s.balances[i];
            b.balances.insert(ChannelDenom::new(row.channel.as_str(), row.denom.as_str()), row.state);
            proof {
                let next = s.balance_pairs().take(i + 1);
                assert(next.drop_last() =~= s.balance_pairs().take(i as int));
            }
            i += 1;
        }
        proof {
            assert(s.balance_pairs().take(i as int) =~= s.balance_pairs());
            assert(b@ == s@);
            b.balances.lemma_rows();
        }
        let mut i: usize = 0;
        while i < b.balances.len()
            invariant
                i <= b.balances.rows().len(),
                b.tables_wf(),
                b@ == s@,
                crate::store::lists(b.balances.rows(), b@.balances),
                forall|j: int|
                    0 <= j < i ==> (#[trigger] b.balances.rows()[j]).1.outstanding
                        <= b.balances.rows()[j].1.total_sent,
            decreases b.balances.rows().len() - i,
        {
            let state = b.balances.value_at(i);
            if state.outstanding > state.total_sent {
                proof {
                    let row = b.balances.rows()[i as int];
                    assert(b@.balances.contains_key(row.0.id()));
                }
                return Err(ContractError::InvalidState);
            }
            i += 1;
        }
        proof {
            assert forall|k: (Seq<char>, Seq<char>)| #[trigger]
                b@.balances.contains_key(k) implies b@.balances[k].outstanding
                <= b@.balances[k].total_sent by {
                let j = row_of(b.balances.rows(), k)->0;
                assert(b.balances.rows()[j].0.id() == k);
            }
        }
        Ok(b)
    }

    /// One page of the admitted cw20 contracts, in ascending order of the
    /// contracts: those behind `start_after`, `limit` of them at most.
    pub fn list_allowed(&self, start_after: Option<&str>, limit: usize) -> (r: Vec<AllowedInfo>)
        requires
            self.wf(),
        ensures
            is_listing(
                self@.allow_list,
                crate::store::cursor_view(start_after),
                limit as nat,
                allowed_rows(r@),
            ),
    {
        let at = self.allow_list.page(start_after, limit);
        let mut out: Vec<AllowedInfo> = Vec::new();
        let mut i: usize = 0;
        proof {
            self.allow_list.lemma_rows();
        }
        while i < at.len()
            invariant
                i <= at@.len(),
                out@.len() == i,
                forall|j: int| 0 <= j < at@.len() ==> (#[trigger] at@[j]) < self.allow_list.rows().len(),
                forall|j: int|
                    0 <= j < i ==> {
                        let row = self.allow_list.rows()[at@[j] as int];
                        (#[trigger] out@[j]).contract@ == row.0@ && out@[j].gas_limit
                            == row.1.gas_limit
                    },
            decreases at@.len() - i,
        {
            out.push(
                AllowedInfo {
                    contract: self.allow_list.key_at(at[i]).clone(),
                    gas_limit: self.allow_list.value_at(at[i]).gas_limit,
                },
            );
            i += 1;
        }
        proof {
            let rows = allowed_rows(out@);
            let keys = Seq::new(rows.len(), |i: int| rows[i].0);
            assert(keys =~= self.allow_list.keys_at(at@));
            assert forall|i: int| 0 <= i < rows.len() implies (#[trigger] rows[i]).1
                == self@.allow_list[rows[i].0] by {
                let row = self.allow_list.rows()[at@[i] as int];
                assert(self.allow_list@.contains_key(row.0.id()));
            }
        }
        out
    }

    /// One page of the admitted external denominations, in ascending order
    /// of the denominations: those behind `start_after`, `limit` of them at
    /// most.
    pub fn list_external_tokens(&self, start_after: Option<&str>, limit: usize) -> (r: Vec<
        AllowedTokenInfo,
    >)
        requires
            self.wf(),
        ensures
            is_listing(
                self@.external_tokens,
                crate::store::cursor_view(start_after),
                limit as nat,
                token_rows(r@),
            ),
    {
        let at = self.external_tokens.page(start_after, limit);
        let mut out: Vec<AllowedTokenInfo> = Vec::new();
        let mut i: usize = 0;
        proof {
            self.external_tokens.lemma_rows();
        }
        while i < at.len()
            invariant
                i <= at@.len(),
                out@.len() == i,
                forall|j: int|
                    0 <= j < at@.len() ==> (#[trigger] at@[j]) < self.external_tokens.rows().len(),
                forall|j: int|
                    0 <= j < i ==> {
                        let row = self.external_tokens.rows()[at@[j] as int];
                        (#[trigger] out@[j]).denom@ == row.0@ && out@[j].contract@ == row.1@
                    },
            decreases at@.len() - i,
        {
            out.push(
                AllowedTokenInfo {
                    denom: self.external_tokens.key_at(at[i]).clone(),
                    contract: self.external_tokens.value_at(at[i]).clone(),
                },
            );
            i += 1;
        }
        proof {
            let rows = token_rows(out@);
            let keys = Seq::new(rows.len(), |i: int| rows[i].0);
            assert(keys =~= self.external_tokens.keys_at(at@));
            assert(is_page(
                self@.external_tokens,
                crate::store::cursor_view(start_after),
                limit as nat,
                keys,
            )) by {
                assert forall|k: Seq<char>| self@.external_tokens.contains_key(k)
                    == self.external_tokens@.contains_key(k) by {}
            }
            assert forall|i: int| 0 <= i < rows.len() implies (#[trigger] rows[i]).1
                == self@.external_tokens[rows[i].0] by {
                let row = self.external_tokens.rows()[at@[i] as int];
                assert(self.external_tokens@.contains_key(row.0.id()));
            }
        }
        out
    }

    /// All channels, in ascending order of their ids.
    pub fn list_channels(&self) -> (r: Vec<ChannelInfo>)
        requires
            self.wf(),
        ensures
            is_listing(self@.channels, None, usize::MAX as nat, channel_rows(r@)),
    {
        let at = self.channels.page(None, usize::MAX);
        let mut out: Vec<ChannelInfo> = Vec::new();
        let mut i: usize = 0;
        proof {
            self.channels.lemma_rows();
        }
        while i < at.len()
            invariant
                i <= at@.len(),
                out@.len() == i,
                forall|j: int| 0 <= j < at@.len() ==> (#[trigger] at@[j]) < self.channels.rows().len(),
                forall|j: int|
                    0 <= j < i ==> (#[trigger] out@[j])@ == self.channels.rows()[at@[j] as int].1@,
            decreases at@.len() - i,
        {
            out.push(self.channels.value_at(at[i]).clone());
            i += 1;
        }
        proof {
            let rows = channel_rows(out@);
            let keys = Seq::new(rows.len(), |i: int| rows[i].0);
            assert forall|i: int| 0 <= i < rows.len() implies (#[trigger] rows[i]).0
                == self.channels.rows()[at@[i] as int].0@ && rows[i].1
                == self@.channels[rows[i].0] by {
                let row = self.channels.rows()[at@[i] as int];
                assert(self.channels@.contains_key(row.0.id()));
            }
            assert(keys =~= self.channels.keys_at(at@));
            assert(is_page(self@.channels, None, usize::MAX as nat, keys)) by {
                assert forall|k: Seq<char>| self@.channels.contains_key(k)
                    == self.channels@.contains_key(k) by {}
            }
        }
        out
    }

    /// The accounts of one channel, in ascending order of the
    /// denominations.
    pub fn list_balances(&self, channel: &str) -> (r: Vec<Balance>)
        requires
            self.wf(),
        ensures
            is_listing(self@.balances_of(channel@), None, usize::MAX as nat, balance_rows(r@)),
            forall|i: int| 0 <= i < r@.len() ==> (#[trigger] r@[i]).channel@ == channel@,
    {
        let mut by_denom: Table<String, ChannelState> = Table::new();
        let mut i: usize = 0;
        proof {
            self.balances.lemma_rows();
        }
        while i < self.balances.len()
            invariant
                i <= self.balances.rows().len(),
                by_denom.wf(),
                crate::store::lists(self.balances.rows(), self.balances@),
                forall|d: Seq<char>| #[trigger]
                    by_denom@.contains_key(d) ==> self.balances@.contains_key((channel@, d))
                        && by_denom@[d] == self.balances@[(channel@, d)],
                forall|j: int|
                    0 <= j < i && (#[trigger] self.balances.rows()[j]).0.channel@ == channel@
                        ==> by_denom@.contains_key(self.balances.rows()[j].0.denom@),
            decreases self.balances.rows().len() - i,
        {
            let key = self.balances.key_at(i);
            proof {
                assert(self.balances@.contains_key(self.balances.rows()[i as int].0.id()));
            }
            if crate::text::str_eq(key.channel.as_str(), channel) {
                by_denom.insert(key.denom.clone(), *self.balances.value_at(i));
            }
            i += 1;
        }
        proof {
            assert(by_denom@ =~= self@.balances_of(channel@)) by {
                assert forall|d: Seq<char>| self@.balances_of(channel@).contains_key(d)
                    implies by_denom@.contains_key(d) by {
                    let j = row_of(self.balances.rows(), (channel@, d))->0;
                    assert(self.balances.rows()[j].0.id() == (channel@, d));
                }
            }
            by_denom.lemma_rows();
        }
        let at = by_denom.page(None, usize::MAX);
        let mut out: Vec<Balance> = Vec::new();
        let mut i: usize = 0;
        while i < at.len()
            invariant
                i <= at@.len(),
                out@.len() == i,
                forall|j: int| 0 <= j < at@.len() ==> (#[trigger] at@[j]) < by_denom.rows().len(),
                forall|j: int|
                    0 <= j < i ==> {
                        let row = by_denom.rows()[at@[j] as int];
                        (#[trigger] out@[j]).denom@ == row.0@ && out@[j].state == row.1
                            && out@[j].channel@ == channel@
                    },
            decreases at@.len() - i,
        {
            out.push(
                Balance {
                    channel: channel.to_string(),
                    denom: by_denom.key_at(at[i]).clone(),
                    state: *by_denom.value_at(at[i]),
                },
            );
            i += 1;
        }
        proof {
            let rows = balance_rows(out@);
            let keys = Seq::new(rows.len(), |i: int| rows[i].0);
            assert(keys =~= by_denom.keys_at(at@));
            assert forall|i: int| 0 <= i < rows.len() implies (#[trigger] rows[i]).1
                == by_denom@[rows[i].0] by {
                let row = by_denom.rows()[at@[i] as int];
                assert(by_denom@.contains_key(row.0.id()));
            }
        }
        out
    }
}

} // verus!
