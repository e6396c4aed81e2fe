//! The questions that the bridge answers from its state. Lists come in
//! ascending order of their keys, a page at a time.

use vstd::prelude::*;
use vstd::string::*;
use crate::amount::{Amount, AmountView};
use crate::error::ContractError;
use crate::msg::{
    AllowedResponse, AllowedTokenResponse, ChannelResponse, ConfigResponse, ListAllowedResponse,
    ListChannelsResponse, ListExternalTokensResponse, LockupResponse,
};
use crate::state::{
    allowed_rows, balance_rows, channel_rows, is_listing, token_rows, Bridge, ChannelState,
};

verus! {

/// How many rows a page has at most: as many as asked for, and all rows
/// where no number is given.
pub open spec fn page_limit(limit: Option<u32>) -> nat {
    match limit {
        Some(n) => n as nat,
        None => usize::MAX as nat,
    }
}

/// What an optional string stands for.
pub open spec fn start_view(start_after: Option<String>) -> Option<Seq<char>> {
    match start_after {
        Some(s) => Some(s@),
        None => None,
    }
}

/// What a list of amounts stands for.
pub open spec fn amounts_view(list: Seq<Amount>) -> Seq<AmountView> {
    Seq::new(list.len(), |i: int| list[i]@)
}

/// What is outstanding in each account of a list.
pub open spec fn outstanding_amounts(rows: Seq<(Seq<char>, ChannelState)>) -> Seq<AmountView> {
    Seq::new(rows.len(), |i: int| AmountView::from_parts(rows[i].0, rows[i].1.outstanding))
}

/// What was ever sent in each account of a list.
pub open spec fn total_sent_amounts(rows: Seq<(Seq<char>, ChannelState)>) -> Seq<AmountView> {
    Seq::new(rows.len(), |i: int| AmountView::from_parts(rows[i].0, rows[i].1.total_sent))
}

fn limit_of(limit: Option<u32>) -> (r: usize)
    ensures
        r as nat == page_limit(limit),
{
    match limit {
        Some(n) => n as usize,
        None => usize::MAX,
    }
}

impl Bridge {
    /// All channels, in ascending order of their ids.
    pub fn query_list_channels(&self) -> (r: ListChannelsResponse)
        requires
            self.wf(),
        ensures
            is_listing(self@.channels, None, usize::MAX as nat, channel_rows(r.channels@)),
    {
        ListChannelsResponse { channels: self.list_channels() }
    }

    /// One channel with its accounts: what is outstanding and what was ever
    /// sent in each denomination, in ascending order of the denominations.
    /// A channel that is not registered is an error.
    pub fn query_channel(&self, id: &str) -> (r: Result<ChannelResponse, ContractError>)
        requires
            self.wf(),
        ensures
            match r {
                Ok(c) => self@.channels.contains_key(id@) && c.info@ == self@.channels[id@]
                    && exists|rows: Seq<(Seq<char>, ChannelState)>|
                    is_listing(self@.balances_of(id@), None, usize::MAX as nat, rows)
                        && amounts_view(c.balances@) == outstanding_amounts(rows) && amounts_view(
                        c.total_sent@,
                    ) == total_sent_amounts(rows),
                Err(e) => !self@.channels.contains_key(id@) && e == ContractError::NoSuchChannel,
            },
    {
        let info = match self.channel(id) {
            Some(info) => info.clone(),
            None => {
                return Err(ContractError::NoSuchChannel);
            },
        };
        let accounts = self.list_balances(id);
        let mut balances: Vec<Amount> = Vec::new();
        let mut total_sent: Vec<Amount> = Vec::new();
        let mut i: usize = 0;
        while i < accounts.len()
            invariant
                i <= accounts@.len(),
                balances@.len() == i,
                total_sent@.len() == i,
                forall|j: int|
                    0 <= j < i ==> (#[trigger] balances@[j])@ == AmountView::from_parts(
                        accounts@[j].denom@,
                        accounts@[j].state.outstanding,
                    ),
                forall|j: int|
                    0 <= j < i ==> (#[trigger] total_sent@[j])@ == AmountView::from_parts(
                        accounts@[j].denom@,
                        accounts@[j].state.total_sent,
                    ),
            decreases accounts@.len() - i,
        {
            let account = &accounts[i];
            balances.push(Amount::from_parts(account.denom.as_str(), account.state.outstanding));
            total_sent.push(Amount::from_parts(account.denom.as_str(), account.state.total_sent));
            i += 1;
        }
        proof {
            let rows = balance_rows(accounts@);
            assert(amounts_view(balances@) =~= outstanding_amounts(rows));
            assert(amounts_view(total_sent@) =~= total_sent_amounts(rows));
        }
        Ok(ChannelResponse { info, balances, total_sent })
    }

    /// The settings, with the governance address.
    pub fn query_config(&self) -> (r: ConfigResponse)
        ensures
            r.default_timeout == self@.default_timeout,
            r.gov_contract@ == self@.admin,
    {
        ConfigResponse {
            default_timeout: self.config().default_timeout,
            gov_contract: self.admin().clone(),
        }
    }

    /// Whether a cw20 contract is admitted, and what it was granted.
    pub fn query_allowed(&self, contract: &str) -> (r: AllowedResponse)
        requires
            self.wf(),
        ensures
            r.is_allowed == self@.allow_list.contains_key(contract@),
            r.is_allowed ==> r.gas_limit == self@.allow_list[contract@].gas_limit,
            !r.is_allowed ==> r.gas_limit is None,
    {
        match self.allowed(contract) {
            Some(a) => AllowedResponse { is_allowed: true, gas_limit: a.gas_limit },
            None => AllowedResponse { is_allowed: false, gas_limit: None },
        }
    }

    /// Whether an external denomination is admitted, and which cw20
    /// contract stands for it.
    pub fn query_external_token(&self, denom: &str) -> (r: AllowedTokenResponse)
        requires
            self.wf(),
        ensures
            r.is_allowed == self@.external_tokens.contains_key(denom@),
            r.is_allowed ==> r.contract is Some && r.contract->0@ == self@.external_tokens[denom@],
            !r.is_allowed ==> r.contract is None,
    {
        match self.external_token(denom) {
            Some(c) => AllowedTokenResponse { is_allowed: true, contract: Some(c.clone()) },
            None => AllowedTokenResponse { is_allowed: false, contract: None },
        }
    }

    /// The lockup account of `owner` on `channel`: its address, empty where
    /// none was opened.
    pub fn query_lockup(&self, channel: &str, owner: &str) -> (r: LockupResponse)
        requires
            self.wf(),
        ensures
            r.owner@ == owner@,
            self@.lockups.contains_key((channel@, owner@)) ==> r.address@ == self@.lockups[(
                channel@,
                owner@,
            )],
            !self@.lockups.contains_key((channel@, owner@)) ==> r.address@ == Seq::<char>::empty(),
    {
        let address = match self.lockup(channel, owner) {
            Some(a) => a.clone(),
            None => String::new(),
        };
        LockupResponse { owner: owner.to_string(), address }
    }

    /// One page of the admitted cw20 contracts, in ascending order: those
    /// behind `start_after`, `limit` of them at most.
    pub fn query_list_allowed(&self, start_after: &Option<String>, limit: Option<u32>) -> (r:
        ListAllowedResponse)
        requires
            self.wf(),
        ensures
            is_listing(
                self@.allow_list,
                start_view(*start_after),
                page_limit(limit),
                allowed_rows(r.allow@),
            ),
    {
        let start = match start_after {
            Some(s) => Some(s.as_str()),
            None => None,
        };
        let allow = self.list_allowed(start, limit_of(limit));
        ListAllowedResponse { allow }
    }

    /// One page of the admitted external denominations, in ascending
    /// order: those behind `start_after`, `limit` of them at most.
    pub fn query_list_external_tokens(&self, start_after: &Option<String>, limit: Option<u32>) -> (r:
        ListExternalTokensResponse)
        requires
            self.wf(),
        ensures
            is_listing(
                self@.external_tokens,
                start_view(*start_after),
                page_limit(limit),
                token_rows(r.tokens@),
            ),
    {
        let start = match start_after {
            Some(s) => Some(s.as_str()),
            None => None,
        };
        let tokens = self.list_external_tokens(start, limit_of(limit));
        ListExternalTokensResponse { tokens }
    }
}

} // verus!
