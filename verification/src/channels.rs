//! The network channels that messages travel on.

use vstd::prelude::*;

verus! {

/// A channel of the connection to the server; messages on one channel arrive in order.
#[derive(Debug, Clone, Copy, PartialEq, Eq)]
pub enum Channel {
    PlayerConnectionEvents,
    PartCommands,
    Missile,
}

impl Channel {
    /// The channel's number on the connection.
    pub open spec fn spec_to_usize(self) -> usize {
        match self {
            Channel::PlayerConnectionEvents => 0,
            Channel::PartCommands => 1,
            Channel::Missile => 2,
        }
    }

    pub fn to_usize(self) -> (n: usize)
        ensures
            n == self.spec_to_usize(),
    {
        match self {
            Channel::PlayerConnectionEvents => 0,
            Channel::PartCommands => 1,
            Channel::Missile => 2,
        }
    }
}

} // verus!
