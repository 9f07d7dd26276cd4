//! Which blocks the listeners of the chain have yet to hear of.

use vstd::prelude::*;

verus! {

/// Keeps the number of the last block that listeners were told of.
#[derive(Clone, Copy, Debug, PartialEq, Eq)]
pub struct Broker {
    last_notified_block: u64,
}

impl View for Broker {
    type V = u64;

    closed spec fn view(&self) -> u64 {
        self.last_notified_block
    }
}

/// The blocks to tell listeners of, first and last, once the best block has
/// the number `latest` and they were told up to `last_notified`: none where
/// nothing is new.
pub open spec fn blocks_to_notify(last_notified: u64, latest: u64) -> Option<(u64, u64)> {
    if latest <= last_notified {
        None
    } else {
        Some(((last_notified + 1) as u64, latest))
    }
}

impl Broker {
    /// A broker whose listeners were told of the genesis block alone.
    pub fn new() -> (r: Broker)
        ensures
            r@ == 0,
    {
        Broker { last_notified_block: 0 }
    }

    /// The number of the last block that listeners were told of.
    pub fn last_notified_block(&self) -> (r: u64)
        ensures
            r == self@,
    {
        self.last_notified_block
    }

    /// Takes note that the best block has the number `latest`, and returns
    /// the first and the last block to tell listeners of. Where nothing is
    /// new it returns `None` and keeps its place.
    pub fn advance(&mut self, latest: u64) -> (r: Option<(u64, u64)>)
        ensures
            r == blocks_to_notify(old(self)@, latest),
            final(self)@ == if latest <= old(self)@ { old(self)@ } else { latest },
    {
        if latest <= self.last_notified_block {
            return None;
        }
        let from = self.last_notified_block + 1;
        self.last_notified_block = latest;
        Some((from, latest))
    }
}

} // verus!
