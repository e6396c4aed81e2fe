//! A transferable unit: a native coin or a cw20 token, reduced to one pair of
//! value and denomination.

use vstd::prelude::*;
use vstd::string::*;
use crate::text::str_eq;

verus! {

/// The marker that opens the denomination of a cw20 token.
pub open spec fn cw20_prefix() -> Seq<char> {
    seq!['c', 'w', '2', '0', ':']
}

/// Whether a denomination names a cw20 token.
pub open spec fn is_cw20_denom(denom: Seq<char>) -> bool {
    denom.len() >= 5 && denom.subrange(0, 5) == cw20_prefix()
}

/// Native coins as they are attached to a call.
#[derive(Clone, Debug, PartialEq)]
pub struct Coin {
    pub denom: String,
    pub amount: u128,
}

impl Coin {
    /// The asset that the coin is.
    pub open spec fn asset(self) -> AmountView {
        AmountView::Native { amount: self.amount, denom: self.denom@ }
    }
}

/// An amount of one asset.
#[derive(Debug, PartialEq)]
pub enum Amount {
    /// A coin of the chain itself, by its denomination.
    Native { amount: u128, denom: String },
    /// A token held by a cw20 contract, by the contract's address.
    Cw20 { amount: u128, address: String },
}

/// What an `Amount` stands for.
pub enum AmountView {
    Native { amount: u128, denom: Seq<char> },
    Cw20 { amount: u128, address: Seq<char> },
}

impl AmountView {
    /// The denomination under which the asset travels.
    pub open spec fn denom(self) -> Seq<char> {
        match self {
            AmountView::Native { denom, .. } => denom,
            AmountView::Cw20 { address, .. } => cw20_prefix() + address,
        }
    }

    /// The number of units.
    pub open spec fn amount(self) -> u128 {
        match self {
            AmountView::Native { amount, .. } => amount,
            AmountView::Cw20 { amount, .. } => amount,
        }
    }

    /// The asset that a denomination and a value name.
    pub open spec fn from_parts(denom: Seq<char>, amount: u128) -> AmountView {
        if is_cw20_denom(denom) {
            AmountView::Cw20 { amount, address: denom.subrange(5, denom.len() as int) }
        } else {
            AmountView::Native { amount, denom }
        }
    }
}

impl View for Amount {
    type V = AmountView;

    open spec fn view(&self) -> AmountView {
        match self {
            Amount::Native { amount, denom } => AmountView::Native { amount: *amount, denom: denom@ },
            Amount::Cw20 { amount, address } => AmountView::Cw20 {
                amount: *amount,
                address: address@,
            },
        }
    }
}

impl Clone for Amount {
    fn clone(&self) -> (r: Amount)
        ensures
            r@ == self@,
    {
        match self {
            Amount::Native { amount, denom } => Amount::Native { amount: *amount, denom: denom.clone() },
            Amount::Cw20 { amount, address } => Amount::Cw20 {
                amount: *amount,
                address: address.clone(),
            },
        }
    }
}

impl Amount {
    /// A native coin.
    pub fn native(amount: u128, denom: &str) -> (r: Amount)
        ensures
            r@ == (AmountView::Native { amount, denom: denom@ }),
    {
        Amount::Native { amount, denom: denom.to_string() }
    }

    /// A cw20 token of the contract at `addr`.
    pub fn cw20(amount: u128, addr: &str) -> (r: Amount)
        ensures
            r@ == (AmountView::Cw20 { amount, address: addr@ }),
    {
        Amount::Cw20 { amount, address: addr.to_string() }
    }

    /// Reads an asset back from the denomination and value of a packet.
    pub fn from_parts(denom: &str, amount: u128) -> (r: Amount)
        ensures
            r@ == AmountView::from_parts(denom@, amount),
    {
        let n = denom.unicode_len();
        proof {
            reveal_strlit("cw20:");
            assert("cw20:"@ =~= cw20_prefix());
        }
        if n >= 5 && str_eq(denom.substring_char(0, 5), "cw20:") {
            Amount::Cw20 { amount, address: denom.substring_char(5, n).to_string() }
        } else {
            Amount::Native { amount, denom: denom.to_string() }
        }
    }

    /// The denomination under which the asset travels: the coin's own, or
    /// the contract's address behind `cw20:`.
    pub fn denom(&self) -> (r: String)
        ensures
            r@ == self@.denom(),
    {
        match self {
            Amount::Native { denom, .. } => denom.clone(),
            Amount::Cw20 { address, .. } => {
                proof {
                    reveal_strlit("cw20:");
                    assert("cw20:"@ =~= cw20_prefix());
                }
                let mut s = "cw20:".to_string();
                s.append(address.as_str());
                s
            },
        }
    }

    /// The number of units.
    pub fn amount(&self) -> (r: u128)
        ensures
            r == self@.amount(),
    {
        match self {
            Amount::Native { amount, .. } => *amount,
            Amount::Cw20 { amount, .. } => *amount,
        }
    }
}

/// A denomination and a value name the asset they were taken from, as long
/// as no native coin is called like a cw20 token.
pub proof fn lemma_amount_parts_round_trip(a: AmountView)
    requires
        a is Native ==> !is_cw20_denom(a->Native_denom),
    ensures
        AmountView::from_parts(a.denom(), a.amount()) == a,
{
    match a {
        AmountView::Native { .. } => {},
        AmountView::Cw20 { amount, address } => {
            let d = cw20_prefix() + address;
            assert(d.subrange(0, 5) =~= cw20_prefix());
            assert(d.subrange(5, d.len() as int) =~= address);
        },
    }
}

} // verus!
