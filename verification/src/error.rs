//! The ways in which a request to the bridge can be refused.

use vstd::prelude::*;
use vstd::string::*;

verus! {

/// Why the bridge refused a call. A refused call leaves the state as it was.
#[derive(Clone, Copy, Debug, PartialEq, Eq, Structural)]
pub enum ContractError {
    /// The channel is not in the registry.
    NoSuchChannel,
    /// A channel with this id is registered already.
    ChannelExists,
    /// The token contract or denomination was not admitted by governance.
    NotOnAllowList,
    /// The amount does not fit the 64 bits that counterparty chains accept.
    AmountOverflow,
    /// Settling the packet would take more than is outstanding on the channel.
    InsufficientFunds,
    /// The caller is not the governance address.
    Unauthorized,
    /// The packet with this sequence number was settled before.
    AlreadySettled,
    /// A counter or a point in time left its range.
    Overflow,
    /// A sending command came without exactly one coin, or a cw20 hook
    /// came with coins.
    Payment,
    /// The bytes are not the wire format of what was to be read.
    Decode,
    /// The stored state has a balance with more outstanding than was ever sent.
    InvalidState,
}

impl ContractError {
    /// A sentence for the caller or the counterparty.
    pub fn message(&self) -> (s: String)
        ensures
            s@ == self.spec_message(),
    {
        match self {
            ContractError::NoSuchChannel => "channel is not registered".to_string(),
            ContractError::ChannelExists => "channel is already registered".to_string(),
            ContractError::NotOnAllowList => "token is not on the allow list".to_string(),
            ContractError::AmountOverflow => "amount larger than 2**64, not supported by ics20 packets".to_string(),
            ContractError::InsufficientFunds => "insufficient funds outstanding on channel".to_string(),
            ContractError::Unauthorized => "unauthorized".to_string(),
            ContractError::AlreadySettled => "packet was already settled".to_string(),
            ContractError::Overflow => "arithmetic overflow".to_string(),
            ContractError::Payment => "exactly one coin must come with a sending command".to_string(),
            ContractError::Decode => "cannot decode the data".to_string(),
            ContractError::InvalidState => "stored balances are inconsistent".to_string(),
        }
    }

    /// The text of `message`.
    pub open spec fn spec_message(&self) -> Seq<char> {
        match self {
            ContractError::NoSuchChannel => "channel is not registered"@,
            ContractError::ChannelExists => "channel is already registered"@,
            ContractError::NotOnAllowList => "token is not on the allow list"@,
            ContractError::AmountOverflow => "amount larger than 2**64, not supported by ics20 packets"@,
            ContractError::InsufficientFunds => "insufficient funds outstanding on channel"@,
            ContractError::Unauthorized => "unauthorized"@,
            ContractError::AlreadySettled => "packet was already settled"@,
            ContractError::Overflow => "arithmetic overflow"@,
            ContractError::Payment => "exactly one coin must come with a sending command"@,
            ContractError::Decode => "cannot decode the data"@,
            ContractError::InvalidState => "stored balances are inconsistent"@,
        }
    }
}

} // verus!
