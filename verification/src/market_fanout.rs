//! Routing of L1 book updates to the simulated exchanges that match limit orders.
use crate::books::OrderBookL1;
use crate::mock::exchange::MarketPriceUpdate;
use crate::text::{decimal_text, u64_text};
use std::collections::HashMap;
use vstd::prelude::*;

verus! {

broadcast use vstd::std_specs::hash::group_hash_axioms;

/// Routes L1 updates of instruments, by index, to the registered senders; each
/// instrument index also has the exchange name its updates carry.
pub struct MarketFanOut<S> {
    channels: HashMap<usize, S>,
    instrument_names: HashMap<usize, String>,
}

/// The name of an instrument index: its registered name, else "unknown-{index}".
pub open spec fn name_of(names: Map<usize, String>, index: usize) -> Seq<char> {
    if names.contains_key(index) {
        names[index]@
    } else {
        "unknown-"@ + decimal_text(index as nat)
    }
}

impl<S> MarketFanOut<S> {
    /// Where the updates of each registered instrument index go.
    pub closed spec fn spec_channels(&self) -> Map<usize, S> {
        self.channels@
    }

    /// The exchange name registered for each instrument index.
    pub closed spec fn spec_names(&self) -> Map<usize, String> {
        self.instrument_names@
    }

    /// A fan-out with nothing registered.
    pub fn new() -> (r: Self)
        ensures
            r.spec_channels() == Map::<usize, S>::empty(),
            r.spec_names() == Map::<usize, String>::empty(),
    {
        MarketFanOut { channels: HashMap::new(), instrument_names: HashMap::new() }
    }

    /// Registers where the updates of instrument `index`, named `name`, go,
    /// replacing any earlier registration of that index.
    pub fn register(&mut self, index: usize, name: String, sender: S)
        ensures
            final(self).spec_channels() == old(self).spec_channels().insert(index, sender),
            final(self).spec_names() == old(self).spec_names().insert(index, name),
    {
        self.channels.insert(index, sender);
        self.instrument_names.insert(index, name);
    }

    /// The name of instrument `index` (see `name_of`).
    pub fn instrument_name(&self, index: usize) -> (r: String)
        ensures
            r@ == name_of(self.spec_names(), index),
    {
        match self.instrument_names.get(&index) {
            Some(name) => name.clone(),
            None => {
                let mut r = String::from_str("unknown-");
                let digits = u64_text(index as u64);
                r.append(digits.as_str());
                r
            },
        }
    }

    /// Where an L1 update of instrument `index` goes, and as what: the market
    /// price update of the instrument's name, sent to its registered sender;
    /// `None` (nothing sent) where the book lacks a side or no sender is
    /// registered for the index.
    pub fn route(&self, index: usize, l1: &OrderBookL1) -> (r: Option<(MarketPriceUpdate, &S)>)
        ensures
            r is Some <==> (self.spec_channels().contains_key(index) && l1.best_bid is Some && l1.best_ask is Some),
            r matches Some((u, s)) ==> u.instrument@ == name_of(self.spec_names(), index)
                && u.best_bid == l1.best_bid->0.price && u.best_ask == l1.best_ask->0.price
                && *s == self.spec_channels()[index],
    {
        let name = self.instrument_name(index);
        let update = match MarketPriceUpdate::from_l1(name, l1) {
            Some(u) => u,
            None => return None,
        };
        match self.channels.get(&index) {
            Some(sender) => Some((update, sender)),
            None => None,
        }
    }
}

} // verus!
