use vstd::prelude::*;

verus! {

/// Side of a trade or order.
#[derive(Copy, Clone, Debug, PartialEq, Eq, Structural)]
pub enum Side {
    Buy,
    Sell,
}

} // verus!
