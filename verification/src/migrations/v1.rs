//! The settings as the first release stored them.

use vstd::prelude::*;

verus! {

/// The settings of the first release.
#[derive(Clone, Copy, Debug, PartialEq, Eq, Structural)]
pub struct Config {
    pub default_timeout: u64,
    pub init_channel: bool,
}

} // verus!
