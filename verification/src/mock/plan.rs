//! The arithmetic of the mock exchange: what an order costs, and what it leaves.
use super::account::MockPosition;
use super::order::RequestOpen;
use crate::decimal::{
    dec_ge, dec_gt, dec_lt, dec_zero, decimal_abs, decimal_checked_add, decimal_checked_div, decimal_checked_mul,
    decimal_checked_sub, decimal_ge, decimal_gt, decimal_lt, decimal_min, zero,
};
use crate::side::Side;
use rust_decimal::Decimal;
use vstd::prelude::*;

verus! {

/// The assets and terms of a perpetual contract.
#[derive(Clone, Debug, PartialEq)]
pub struct PerpetualContract {
    pub contract_size: Decimal,
    pub settlement_asset: String,
}

/// The base and quote asset of an instrument.
#[derive(Clone, Debug, PartialEq)]
pub struct Underlying {
    pub base: String,
    pub quote: String,
}

/// Kind of an instrument; kinds the mock exchange does not trade carry their description.
#[derive(Clone, Debug, PartialEq)]
pub enum InstrumentKind {
    Spot,
    Perpetual(PerpetualContract),
    Other(String),
}

/// An instrument the mock exchange is configured with.
#[derive(Clone, Debug, PartialEq)]
pub struct Instrument {
    pub name_exchange: String,
    pub underlying: Underlying,
    pub kind: InstrumentKind,
}

impl Instrument {
    /// A copy of the instrument.
    pub fn copy(&self) -> (r: Self)
        ensures
            r == *self,
    {
        let kind = match &self.kind {
            InstrumentKind::Spot => InstrumentKind::Spot,
            InstrumentKind::Perpetual(c) => InstrumentKind::Perpetual(
                PerpetualContract { contract_size: c.contract_size, settlement_asset: c.settlement_asset.clone() },
            ),
            InstrumentKind::Other(d) => InstrumentKind::Other(d.clone()),
        };
        Instrument {
            name_exchange: self.name_exchange.clone(),
            underlying: Underlying { base: self.underlying.base.clone(), quote: self.underlying.quote.clone() },
            kind,
        }
    }
}

/// `a * b`, where `a` may already have failed.
pub open spec fn mul_then(a: Option<Decimal>, b: Decimal) -> Option<Decimal> {
    match a {
        Some(x) => decimal_checked_mul(x, b),
        None => None,
    }
}

/// `a + b`, where either may already have failed.
pub open spec fn add_both(a: Option<Decimal>, b: Option<Decimal>) -> Option<Decimal> {
    match (a, b) {
        (Some(x), Some(y)) => decimal_checked_add(x, y),
        _ => None,
    }
}

/// `a - b`, where either may already have failed.
pub open spec fn sub_both(a: Option<Decimal>, b: Option<Decimal>) -> Option<Decimal> {
    match (a, b) {
        (Some(x), Some(y)) => decimal_checked_sub(x, y),
        _ => None,
    }
}

/// The asset whose balance settles an instrument: the settlement asset of a
/// perpetual, else the quote asset.
pub open spec fn spec_settlement_asset(inst: Instrument) -> Seq<char> {
    match inst.kind {
        InstrumentKind::Perpetual(c) => c.settlement_asset@,
        _ => inst.underlying.quote@,
    }
}

/// The margin a resting limit order freezes: price times quantity for a spot buy,
/// the quantity for a spot sell, price times quantity times contract size for a
/// perpetual, zero otherwise (`None` where the arithmetic overflows).
pub open spec fn spec_order_margin(req: RequestOpen, inst: Instrument) -> Option<Decimal> {
    match inst.kind {
        InstrumentKind::Spot => match req.side {
            Side::Buy => decimal_checked_mul(req.price, req.quantity),
            Side::Sell => Some(req.quantity),
        },
        InstrumentKind::Perpetual(c) => mul_then(decimal_checked_mul(req.price, req.quantity), c.contract_size),
        InstrumentKind::Other(_) => Some(dec_zero()),
    }
}

/// The settlement asset of an instrument.
pub fn settlement_asset(inst: &Instrument) -> (r: String)
    ensures
        r@ == spec_settlement_asset(*inst),
{
    match &inst.kind {
        InstrumentKind::Perpetual(c) => c.settlement_asset.clone(),
        _ => inst.underlying.quote.clone(),
    }
}

/// The margin a resting limit order freezes (`None` on overflow).
pub fn order_margin(req: &RequestOpen, inst: &Instrument) -> (r: Option<Decimal>)
    ensures
        r == spec_order_margin(*req, *inst),
{
    match &inst.kind {
        InstrumentKind::Spot => match req.side {
            Side::Buy => req.price.checked_mul(req.quantity),
            Side::Sell => Some(req.quantity),
        },
        InstrumentKind::Perpetual(c) => match req.price.checked_mul(req.quantity) {
            Some(x) => x.checked_mul(c.contract_size),
            None => None,
        },
        InstrumentKind::Other(_) => Some(zero()),
    }
}

/// How a spot order that trades at once changes the balance it draws on.
#[derive(Copy, Clone, Debug, PartialEq)]
pub enum SpotPlan {
    /// The arithmetic overflowed.
    Overflow,
    /// The balance does not cover `required` (amount plus fees).
    Insufficient { required: Decimal },
    /// The balance becomes `new_free`; the fees, in the quote asset, are `fees_quote`.
    Fill { new_free: Decimal, fees_quote: Decimal },
}

/// The plan of a spot order drawing on a balance with `free` available at `fee` rate.
/// A buy pays `price * |quantity|` plus fees in the quote asset; a sell gives
/// `|quantity|` plus fees in the base asset, its fees being worth `fees * price` in quote.
pub open spec fn spec_spot_plan(req: RequestOpen, free: Decimal, fee: Decimal) -> SpotPlan {
    let value = match req.side {
        Side::Buy => decimal_checked_mul(req.price, decimal_abs(req.quantity)),
        Side::Sell => Some(decimal_abs(req.quantity)),
    };
    let fees = mul_then(value, fee);
    let required = add_both(value, fees);
    match (required, sub_both(Some(free), required)) {
        (Some(required), Some(new_free)) => if decimal_ge(new_free, dec_zero()) {
            let fees_quote = match req.side {
                Side::Buy => fees,
                Side::Sell => mul_then(fees, req.price),
            };
            match fees_quote {
                Some(fq) => SpotPlan::Fill { new_free, fees_quote: fq },
                None => SpotPlan::Overflow,
            }
        } else {
            SpotPlan::Insufficient { required }
        },
        _ => SpotPlan::Overflow,
    }
}

/// The plan of a spot order (see `spec_spot_plan`).
pub fn spot_plan(req: &RequestOpen, free: Decimal, fee: Decimal) -> (r: SpotPlan)
    ensures
        r == spec_spot_plan(*req, free, fee),
{
    let value = match req.side {
        Side::Buy => req.price.checked_mul(req.quantity.abs()),
        Side::Sell => Some(req.quantity.abs()),
    };
    let fees = match value {
        Some(v) => v.checked_mul(fee),
        None => None,
    };
    let required = match (value, fees) {
        (Some(v), Some(f)) => v.checked_add(f),
        _ => None,
    };
    let required = match required {
        Some(r) => r,
        None => return SpotPlan::Overflow,
    };
    let new_free = match free.checked_sub(required) {
        Some(n) => n,
        None => return SpotPlan::Overflow,
    };
    if dec_ge(new_free, zero()) {
        let fees_quote = match req.side {
            Side::Buy => fees,
            Side::Sell => match fees {
                Some(f) => f.checked_mul(req.price),
                None => None,
            },
        };
        match fees_quote {
            Some(fq) => SpotPlan::Fill { new_free, fees_quote: fq },
            None => SpotPlan::Overflow,
        }
    } else {
        SpotPlan::Insufficient { required }
    }
}

/// The position left after a trade of `qty` at `price` on `side`, given the
/// position held before (`None`: flat), as `Some(next)`; `None` on overflow.
/// The same side adds to the position at the volume-weighted entry price; the
/// other side reduces it, closes it when the quantities match, or flips it to the
/// excess at the trade price.
pub open spec fn spec_next_position(
    pos: Option<MockPosition>,
    side: Side,
    qty: Decimal,
    price: Decimal,
) -> Option<Option<MockPosition>> {
    match pos {
        None => Some(Some(MockPosition { side, quantity_abs: qty, entry_price: price })),
        Some(p) => if p.side == side {
            let total_notional = add_both(
                decimal_checked_mul(p.entry_price, p.quantity_abs),
                decimal_checked_mul(price, qty),
            );
            let total_qty = decimal_checked_add(p.quantity_abs, qty);
            match (total_notional, total_qty) {
                (Some(n), Some(q)) => match decimal_checked_div(n, q) {
                    Some(entry) => Some(Some(MockPosition { side: p.side, quantity_abs: q, entry_price: entry })),
                    None => None,
                },
                _ => None,
            }
        } else if decimal_ge(qty, p.quantity_abs) {
            match decimal_checked_sub(qty, p.quantity_abs) {
                Some(remaining) => if decimal_gt(remaining, dec_zero()) {
                    Some(Some(MockPosition { side, quantity_abs: remaining, entry_price: price }))
                } else {
                    Some(None)
                },
                None => None,
            }
        } else {
            match decimal_checked_sub(p.quantity_abs, qty) {
                Some(q) => Some(Some(MockPosition { side: p.side, quantity_abs: q, entry_price: p.entry_price })),
                None => None,
            }
        },
    }
}

/// The position left after a trade (see `spec_next_position`).
pub fn next_position(pos: Option<MockPosition>, side: Side, qty: Decimal, price: Decimal) -> (r: Option<
    Option<MockPosition>,
>)
    ensures
        r == spec_next_position(pos, side, qty, price),
{
    match pos {
        None => Some(Some(MockPosition { side, quantity_abs: qty, entry_price: price })),
        Some(p) => {
            if p.side == side {
                let a = p.entry_price.checked_mul(p.quantity_abs);
                let b = price.checked_mul(qty);
                let total_notional = match (a, b) {
                    (Some(x), Some(y)) => x.checked_add(y),
                    _ => None,
                };
                let total_qty = p.quantity_abs.checked_add(qty);
                match (total_notional, total_qty) {
                    (Some(n), Some(q)) => match n.checked_div(q) {
                        Some(entry) => Some(Some(MockPosition { side: p.side, quantity_abs: q, entry_price: entry })),
                        None => None,
                    },
                    _ => None,
                }
            } else if dec_ge(qty, p.quantity_abs) {
                match qty.checked_sub(p.quantity_abs) {
                    Some(remaining) => {
                        if dec_gt(remaining, zero()) {
                            Some(Some(MockPosition { side, quantity_abs: remaining, entry_price: price }))
                        } else {
                            Some(None)
                        }
                    },
                    None => None,
                }
            } else {
                match p.quantity_abs.checked_sub(qty) {
                    Some(q) => Some(Some(MockPosition { side: p.side, quantity_abs: q, entry_price: p.entry_price })),
                    None => None,
                }
            }
        },
    }
}

/// How a perpetual order changes the settlement balance and the position.
#[derive(Copy, Clone, Debug, PartialEq)]
pub enum PerpPlan {
    /// The arithmetic overflowed.
    Overflow,
    /// The balance does not cover `required` (net cost less returned margin).
    Insufficient { required: Decimal },
    /// The balance becomes `new_free`, fees are `fees`, the position becomes `position`.
    Fill { new_free: Decimal, fees: Decimal, position: Option<MockPosition> },
}

/// Margin needed, profit realised and margin returned by a perpetual order against
/// the position held (`None` on overflow): opening or adding needs the full
/// notional; reducing realises profit on the closed quantity, returns its entry
/// margin, and needs margin only for any excess that flips the position.
pub open spec fn spec_perp_terms(
    req: RequestOpen,
    cs: Decimal,
    pos: Option<MockPosition>,
    notional: Decimal,
) -> Option<(Decimal, Decimal, Decimal)> {
    match pos {
        None => Some((notional, dec_zero(), dec_zero())),
        Some(p) => if p.side == req.side {
            Some((notional, dec_zero(), dec_zero()))
        } else {
            let close_qty = decimal_min(req.quantity, p.quantity_abs);
            let close_notional = mul_then(decimal_checked_mul(p.entry_price, close_qty), cs);
            let current_notional = mul_then(decimal_checked_mul(req.price, close_qty), cs);
            let pnl = match p.side {
                Side::Buy => sub_both(current_notional, close_notional),
                Side::Sell => sub_both(close_notional, current_notional),
            };
            let remaining = decimal_checked_sub(req.quantity, close_qty);
            let new_margin = match remaining {
                Some(rq) => if decimal_gt(rq, dec_zero()) {
                    mul_then(decimal_checked_mul(req.price, rq), cs)
                } else {
                    Some(dec_zero())
                },
                None => None,
            };
            match (new_margin, pnl, close_notional) {
                (Some(m), Some(pl), Some(old)) => Some((m, pl, old)),
                _ => None,
            }
        },
    }
}

/// The plan of a perpetual order with contract size `cs`, against the position
/// `pos` and a settlement balance with `free` available, at `fee` rate: the net
/// cost is margin needed plus fees less profit; the balance becomes
/// `free + returned margin - net cost`, refused when below zero.
pub open spec fn spec_perp_plan(
    req: RequestOpen,
    cs: Decimal,
    pos: Option<MockPosition>,
    free: Decimal,
    fee: Decimal,
) -> PerpPlan {
    let notional = mul_then(decimal_checked_mul(req.price, req.quantity), cs);
    let fees = mul_then(notional, fee);
    match (notional, fees) {
        (Some(notional), Some(fees)) => match spec_perp_terms(req, cs, pos, notional) {
            Some((margin, pnl, old_margin)) => {
                let net_cost = sub_both(decimal_checked_add(margin, fees), Some(pnl));
                match (net_cost, sub_both(decimal_checked_add(free, old_margin), net_cost)) {
                    (Some(net_cost), Some(change)) => if decimal_lt(change, dec_zero()) {
                        match decimal_checked_sub(net_cost, old_margin) {
                            Some(required) => PerpPlan::Insufficient { required },
                            None => PerpPlan::Overflow,
                        }
                    } else {
                        match spec_next_position(pos, req.side, req.quantity, req.price) {
                            Some(position) => PerpPlan::Fill { new_free: change, fees, position },
                            None => PerpPlan::Overflow,
                        }
                    },
                    _ => PerpPlan::Overflow,
                }
            },
            None => PerpPlan::Overflow,
        },
        _ => PerpPlan::Overflow,
    }
}

fn perp_terms(req: &RequestOpen, cs: Decimal, pos: Option<MockPosition>, notional: Decimal) -> (r: Option<
    (Decimal, Decimal, Decimal),
>)
    ensures
        r == spec_perp_terms(*req, cs, pos, notional),
{
    match pos {
        None => Some((notional, zero(), zero())),
        Some(p) => {
            if p.side == req.side {
                Some((notional, zero(), zero()))
            } else {
                let close_qty = req.quantity.min(p.quantity_abs);
                let close_notional = match p.entry_price.checked_mul(close_qty) {
                    Some(x) => x.checked_mul(cs),
                    None => None,
                };
                let current_notional = match req.price.checked_mul(close_qty) {
                    Some(x) => x.checked_mul(cs),
                    None => None,
                };
                let pnl = match p.side {
                    Side::Buy => match (current_notional, close_notional) {
                        (Some(a), Some(b)) => a.checked_sub(b),
                        _ => None,
                    },
                    Side::Sell => match (close_notional, current_notional) {
                        (Some(a), Some(b)) => a.checked_sub(b),
                        _ => None,
                    },
                };
                let remaining = req.quantity.checked_sub(close_qty);
                let new_margin = match remaining {
                    Some(rq) => {
                        if dec_gt(rq, zero()) {
                            match req.price.checked_mul(rq) {
                                Some(x) => x.checked_mul(cs),
                                None => None,
                            }
                        } else {
                            Some(zero())
                        }
                    },
                    None => None,
                };
                match (new_margin, pnl, close_notional) {
                    (Some(m), Some(pl), Some(old)) => Some((m, pl, old)),
                    _ => None,
                }
            }
        },
    }
}

/// The plan of a perpetual order (see `spec_perp_plan`).
pub fn perp_plan(req: &RequestOpen, cs: Decimal, pos: Option<MockPosition>, free: Decimal, fee: Decimal) -> (r:
    PerpPlan)
    ensures
        r == spec_perp_plan(*req, cs, pos, free, fee),
{
    let notional = match req.price.checked_mul(req.quantity) {
        Some(x) => match x.checked_mul(cs) {
            Some(n) => n,
            None => return PerpPlan::Overflow,
        },
        None => return PerpPlan::Overflow,
    };
    let fees = match notional.checked_mul(fee) {
        Some(f) => f,
        None => return PerpPlan::Overflow,
    };
    let (margin, pnl, old_margin) = match perp_terms(req, cs, pos, notional) {
        Some(t) => t,
        None => return PerpPlan::Overflow,
    };
    let net_cost = match margin.checked_add(fees) {
        Some(x) => match x.checked_sub(pnl) {
            Some(n) => n,
            None => return PerpPlan::Overflow,
        },
        None => return PerpPlan::Overflow,
    };
    let change = match free.checked_add(old_margin) {
        Some(x) => match x.checked_sub(net_cost) {
            Some(c) => c,
            None => return PerpPlan::Overflow,
        },
        None => return PerpPlan::Overflow,
    };
    if dec_lt(change, zero()) {
        match net_cost.checked_sub(old_margin) {
            Some(required) => PerpPlan::Insufficient { required },
            None => PerpPlan::Overflow,
        }
    } else {
        match next_position(pos, req.side, req.quantity, req.price) {
            Some(position) => PerpPlan::Fill { new_free: change, fees, position },
            None => PerpPlan::Overflow,
        }
    }
}


/// Law: an order against an open position of the other side realises, on the
/// quantity it closes (the smaller of the two quantities), the profit of the
/// position's direction: a long gains `(order price - entry price) * closed * contract
/// size`, a short gains `(entry price - order price) * closed * contract size`; the
/// margin returned is the entry notional of the closed quantity.
pub proof fn law_reducing_order_realises_directional_pnl(
    req: RequestOpen,
    cs: Decimal,
    p: MockPosition,
    notional: Decimal,
)
    requires
        p.side != req.side,
    ensures
        spec_perp_terms(req, cs, Some(p), notional) matches Some((margin, pnl, returned)) ==> {
            let closed = decimal_min(req.quantity, p.quantity_abs);
            match (decimal_checked_mul(p.entry_price, closed), decimal_checked_mul(req.price, closed)) {
                (Some(entry_qty), Some(price_qty)) => match (
                    decimal_checked_mul(entry_qty, cs),
                    decimal_checked_mul(price_qty, cs),
                ) {
                    (Some(entry_notional), Some(price_notional)) => {
                        &&& returned == entry_notional
                        &&& match p.side {
                            Side::Sell => decimal_checked_sub(entry_notional, price_notional) == Some(pnl),
                            Side::Buy => decimal_checked_sub(price_notional, entry_notional) == Some(pnl),
                        }
                    },
                    _ => false,
                },
                _ => false,
            }
        },
{
}

} // verus!
