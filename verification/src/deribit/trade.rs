//! The side of a Deribit trade.
use crate::side::Side;
use vstd::prelude::*;

verus! {

/// Deribit trade side ("buy" or "sell").
#[derive(Copy, Clone, Debug, PartialEq, Eq, Structural)]
pub enum DeribitSide {
    Buy,
    Sell,
}

/// The side a Deribit side stands for.
pub open spec fn side_of(side: DeribitSide) -> Side {
    match side {
        DeribitSide::Buy => Side::Buy,
        DeribitSide::Sell => Side::Sell,
    }
}

impl From<DeribitSide> for Side {
    fn from(side: DeribitSide) -> (r: Side) {
        match side {
            DeribitSide::Buy => Side::Buy,
            DeribitSide::Sell => Side::Sell,
        }
    }
}

impl vstd::std_specs::convert::FromSpecImpl<DeribitSide> for Side {
    open spec fn obeys_from_spec() -> bool {
        true
    }

    open spec fn from_spec(side: DeribitSide) -> Side {
        side_of(side)
    }
}

} // verus!
