//! Orders that trade at once against a spot balance or a perpetual position.
use super::account::{lemma_balance_index, lemma_position_index, PositionEntry};
use super::exchange::{
    has_resting, lemma_price_index, lemma_resting_index, prices_unique, resting_index, resting_unique,
    rest_rel, open_rel, spec_crosses, RestingOrder,
    fills, perp_rel, perp_short_msg, rejects, spot_rel, spot_short_msg, MockExchange, ApiErrorSpec,
    missing_balance_msg, overflow_msg, build_open_order_err_response, spot_asset, position_on,
    positions_after,
};
use super::order::{
    ApiError, AssetBalance, Balance, OpenOrderNotifications, Open, Order, OrderError, OrderKind, OrderRequestOpen,
    Trade,
};
use super::plan::{
    order_margin, perp_plan, settlement_asset, spot_plan, Instrument, InstrumentKind, PerpPlan, PerpetualContract,
    SpotPlan,
};
use crate::decimal::{dec_ge, dec_le, dec_lt, dec_text, zero};
use crate::keyed::{lemma_unique_push, lemma_unique_remove, lemma_unique_update};
use crate::side::Side;
use rust_decimal::Decimal;
use vstd::prelude::*;

verus! {

/// `prefix` followed by `tail`.
pub(crate) fn joined(prefix: &str, tail: &str) -> (r: String)
    ensures
        r@ == prefix@ + tail@,
{
    let mut r = String::from_str(prefix);
    r.append(tail);
    r
}

/// The text "`a``x``b``y`" with `x` and `y` the decimal texts of two values.
pub(crate) fn two_amounts(a: &str, x: Decimal, b: &str, y: Decimal) -> (r: String)
    ensures
        r@ == a@ + crate::decimal::decimal_display(x) + b@ + crate::decimal::decimal_display(y),
{
    let mut r = String::from_str(a);
    let xs = dec_text(x);
    r.append(xs.as_str());
    r.append(b);
    let ys = dec_text(y);
    r.append(ys.as_str());
    r
}

/// The refusal of a request whose settlement asset has no balance.
fn missing_balance(req: &OrderRequestOpen, asset: &String) -> (r: Order<Result<Open, OrderError>>)
    ensures
        super::exchange::echoes(r, *req),
        r.state matches Err(OrderError::Rejected(x)) && super::exchange::error_is(
            x,
            ApiErrorSpec::OrderRejected(missing_balance_msg(asset@)),
        ),
{
    let m = joined("MockExchange has no balance for asset: ", asset.as_str());
    build_open_order_err_response(req, ApiError::OrderRejected(m))
}

/// The refusal of a request whose arithmetic leaves the range of `Decimal`.
fn overflow(req: &OrderRequestOpen) -> (r: Order<Result<Open, OrderError>>)
    ensures
        super::exchange::echoes(r, *req),
        r.state matches Err(OrderError::Rejected(x)) && super::exchange::error_is(
            x,
            ApiErrorSpec::OrderRejected(overflow_msg()),
        ),
{
    build_open_order_err_response(req, ApiError::OrderRejected(String::from_str("MockExchange arithmetic overflow")))
}

impl MockExchange {
    /// Fills a spot order at once at fee rate `fee`: a buy draws price times quantity
    /// plus fees from the quote balance, a sell draws the quantity plus fees from the
    /// base balance (see `spot_rel`), judged on the free balance (funds frozen by
    /// resting orders are not drawn on). Where the balance is missing or short,
    /// the request is refused and nothing changes.
    pub(crate) fn open_order_spot(&mut self, req: OrderRequestOpen, inst: &Instrument, fee: Decimal) -> (r: (
        Order<Result<Open, OrderError>>,
        Option<OpenOrderNotifications>,
    ))
        requires
            old(self).wf(),
            old(self).order_sequence < u64::MAX,
        ensures
            final(self).wf(),
            spot_rel(*old(self), req, *inst, fee, *final(self), r.0, r.1),
    {
        let asset = match req.state.side {
            Side::Buy => inst.underlying.quote.clone(),
            Side::Sell => inst.underlying.base.clone(),
        };
        proof {
            assert(asset@ == spot_asset(req, *inst));
        }
        let i = match self.account.find_balance(&asset) {
            Some(i) => i,
            None => return (missing_balance(&req, &asset), None),
        };
        proof {
            lemma_balance_index(self.account.balances@, asset@, i as int);
        }
        let current = self.account.balances[i].copy();
        match spot_plan(&req.state, current.balance.free, fee) {
            SpotPlan::Overflow => (overflow(&req), None),
            SpotPlan::Insufficient { required } => {
                let m = two_amounts(
                    "Available Balance: ",
                    current.balance.free,
                    ", Required Balance inc. fees: ",
                    required,
                );
                (build_open_order_err_response(&req, ApiError::BalanceInsufficient(asset, m)), None)
            },
            SpotPlan::Fill { new_free, fees_quote } => {
                let time = self.time_exchange_latest;
                let nb = AssetBalance {
                    asset: current.asset,
                    balance: Balance { total: new_free, free: new_free },
                    time_exchange: time,
                };
                proof {
                    lemma_unique_update(self.account.balances@, |b: AssetBalance| b.asset@, i as int, nb);
                }
                self.account.balances.set(i, nb.copy());
                let id = self.order_id_sequence_fetch_add();
                let resp = Order {
                    key: req.key.copy(),
                    side: req.state.side,
                    price: req.state.price,
                    quantity: req.state.quantity,
                    kind: req.state.kind,
                    time_in_force: req.state.time_in_force,
                    state: Ok(Open { id: id.clone(), time_exchange: time, filled_quantity: req.state.quantity }),
                };
                let trade = Trade {
                    id: id.clone(),
                    order_id: id,
                    instrument: req.key.instrument.clone(),
                    strategy: req.key.strategy.clone(),
                    time_exchange: time,
                    side: req.state.side,
                    price: req.state.price,
                    quantity: req.state.quantity,
                    fees: fees_quote,
                };
                (resp, Some(OpenOrderNotifications { balance: nb, trade }))
            },
        }
    }

    /// Fills a perpetual order at once at fee rate `fee` (see `perp_rel`): the
    /// settlement balance pays margin and fees and receives returned margin and
    /// profit; the position on the instrument opens, grows, shrinks, closes or flips.
    pub(crate) fn open_order_perpetual(
        &mut self,
        req: OrderRequestOpen,
        contract: &PerpetualContract,
        fee: Decimal,
    ) -> (r: (Order<Result<Open, OrderError>>, Option<OpenOrderNotifications>))
        requires
            old(self).wf(),
            old(self).order_sequence < u64::MAX,
        ensures
            final(self).wf(),
            perp_rel(*old(self), req, *contract, fee, *final(self), r.0, r.1),
    {
        let asset = contract.settlement_asset.clone();
        let i = match self.account.find_balance(&asset) {
            Some(i) => i,
            None => return (missing_balance(&req, &asset), None),
        };
        proof {
            lemma_balance_index(self.account.balances@, asset@, i as int);
        }
        let current = self.account.balances[i].copy();
        let found = self.account.find_position(&req.key.instrument);
        let pos = match found {
            Some(j) => Some(self.account.positions[j].position),
            None => None,
        };
        proof {
            if let Some(j) = found {
                lemma_position_index(self.account.positions@, req.key.instrument@, j as int);
            }
            assert(pos == position_on(self.account.positions@, req.key.instrument@));
        }
        match perp_plan(&req.state, contract.contract_size, pos, current.balance.free, fee) {
            PerpPlan::Overflow => (overflow(&req), None),
            PerpPlan::Insufficient { required } => {
                let m = two_amounts("Available: ", current.balance.free, ", Required: ", required);
                (build_open_order_err_response(&req, ApiError::BalanceInsufficient(asset, m)), None)
            },
            PerpPlan::Fill { new_free, fees, position } => {
                let time = self.time_exchange_latest;
                let nb = AssetBalance {
                    asset: current.asset,
                    balance: Balance { total: new_free, free: new_free },
                    time_exchange: time,
                };
                proof {
                    lemma_unique_update(self.account.balances@, |b: AssetBalance| b.asset@, i as int, nb);
                }
                self.account.balances.set(i, nb.copy());
                let ghost before = self.account.positions@;
                match found {
                    Some(j) => match position {
                        Some(p) => {
                            let name = self.account.positions[j].instrument.clone();
                            let entry = PositionEntry { instrument: name, position: p };
                            proof {
                                lemma_unique_update(before, |e: PositionEntry| e.instrument@, j as int, entry);
                            }
                            self.account.positions.set(j, entry);
                        },
                        None => {
                            proof {
                                lemma_unique_remove(before, |e: PositionEntry| e.instrument@, j as int);
                            }
                            self.account.positions.remove(j);
                        },
                    },
                    None => match position {
                        Some(p) => {
                            let entry = PositionEntry { instrument: req.key.instrument.clone(), position: p };
                            proof {
                                assert forall|k: int| 0 <= k < before.len() implies (|e: PositionEntry|
                                    e.instrument@)(before[k]) != (|e: PositionEntry| e.instrument@)(entry) by {
                                    if before[k].instrument@ == entry.instrument@ {
                                        assert(super::account::has_position(before, req.key.instrument@));
                                    }
                                }
                                lemma_unique_push(before, |e: PositionEntry| e.instrument@, entry);
                            }
                            self.account.positions.push(entry);
                        },
                        None => {},
                    },
                }
                proof {
                    assert(self.account.positions@ == positions_after(before, req.key.instrument, position));
                }
                let id = self.order_id_sequence_fetch_add();
                let resp = Order {
                    key: req.key.copy(),
                    side: req.state.side,
                    price: req.state.price,
                    quantity: req.state.quantity,
                    kind: req.state.kind,
                    time_in_force: req.state.time_in_force,
                    state: Ok(Open { id: id.clone(), time_exchange: time, filled_quantity: req.state.quantity }),
                };
                let trade = Trade {
                    id: id.clone(),
                    order_id: id,
                    instrument: req.key.instrument.clone(),
                    strategy: req.key.strategy.clone(),
                    time_exchange: time,
                    side: req.state.side,
                    price: req.state.price,
                    quantity: req.state.quantity,
                    fees,
                };
                (resp, Some(OpenOrderNotifications { balance: nb, trade }))
            },
        }
    }

    /// The index of the order resting under `cid`, if any.
    pub(crate) fn find_resting(&self, cid: &String) -> (r: Option<usize>)
        requires
            resting_unique(self.resting_orders@),
        ensures
            r matches Some(k) ==> k < self.resting_orders.len() && self.resting_orders@[k as int].key.cid@ == cid@
                && has_resting(self.resting_orders@, cid@) && resting_index(self.resting_orders@, cid@) == k,
            r is None <==> !has_resting(self.resting_orders@, cid@),
    {
        let mut k: usize = 0;
        while k < self.resting_orders.len()
            invariant
                k <= self.resting_orders.len(),
                resting_unique(self.resting_orders@),
                forall|j: int| 0 <= j < k ==> self.resting_orders@[j].key.cid@ != cid@,
            decreases self.resting_orders.len() - k,
        {
            if self.resting_orders[k].key.cid == *cid {
                proof {
                    lemma_resting_index(self.resting_orders@, cid@, k as int);
                }
                return Some(k);
            }
            k = k + 1;
        }
        None
    }

    /// Whether a limit order crosses the spread of the last prices seen for its
    /// instrument (a buy at or above the best ask, a sell at or below the best bid);
    /// without prices it rests.
    pub fn limit_order_crosses_spread(&self, req: &OrderRequestOpen) -> (r: bool)
        requires
            prices_unique(self.market_prices@),
        ensures
            r == spec_crosses(self.market_prices@, *req),
    {
        let mut k: usize = 0;
        while k < self.market_prices.len()
            invariant
                k <= self.market_prices.len(),
                prices_unique(self.market_prices@),
                forall|j: int| 0 <= j < k ==> self.market_prices@[j].instrument@ != req.key.instrument@,
            decreases self.market_prices.len() - k,
        {
            if self.market_prices[k].instrument == req.key.instrument {
                proof {
                    lemma_price_index(self.market_prices@, req.key.instrument@, k as int);
                }
                let p = &self.market_prices[k];
                return match req.state.side {
                    Side::Buy => dec_ge(req.state.price, p.best_ask),
                    Side::Sell => dec_le(req.state.price, p.best_bid),
                };
            }
            k = k + 1;
        }
        false
    }

    /// Rests a limit order that does not cross the spread (see `rest_limit_order`'s
    /// relation `rest_rel`): its margin is frozen in the settlement balance and it is
    /// acknowledged with nothing filled; an order resting under the same client order
    /// id is replaced.
    pub(crate) fn rest_limit_order(&mut self, req: OrderRequestOpen) -> (r: (
        Order<Result<Open, OrderError>>,
        Option<OpenOrderNotifications>,
    ))
        requires
            old(self).wf(),
            old(self).order_sequence < u64::MAX,
        ensures
            final(self).wf(),
            rest_rel(*old(self), req, *final(self), r.0, r.1),
    {
        let inst = match self.find_instrument_data(&req.key.instrument) {
            Ok(x) => x.copy(),
            Err(e) => return (build_open_order_err_response(&req, e), None),
        };
        let margin = match order_margin(&req.state, &inst) {
            Some(m) => m,
            None => return (overflow(&req), None),
        };
        let asset = settlement_asset(&inst);
        let i = match self.account.find_balance(&asset) {
            Some(i) => i,
            None => return (missing_balance(&req, &asset), None),
        };
        proof {
            lemma_balance_index(self.account.balances@, asset@, i as int);
        }
        let current = self.account.balances[i].copy();
        if dec_lt(current.balance.free, margin) {
            let m = two_amounts("Available: ", current.balance.free, ", Required margin: ", margin);
            return (build_open_order_err_response(&req, ApiError::BalanceInsufficient(asset, m)), None);
        }
        let new_free = match current.balance.free.checked_sub(margin) {
            Some(f) => f,
            None => return (overflow(&req), None),
        };
        let time = self.time_exchange_latest;
        let nb = AssetBalance {
            asset: current.asset,
            balance: Balance { total: current.balance.total, free: new_free },
            time_exchange: time,
        };
        proof {
            lemma_unique_update(self.account.balances@, |b: AssetBalance| b.asset@, i as int, nb);
        }
        self.account.balances.set(i, nb);
        let id = self.order_id_sequence_fetch_add();
        let resting = RestingOrder {
            instrument: req.key.instrument.clone(),
            side: req.state.side,
            price: req.state.price,
            quantity: req.state.quantity,
            kind: req.state.kind,
            time_in_force: req.state.time_in_force,
            strategy_id: req.key.strategy.clone(),
            order_id: id.clone(),
            key: req.key.copy(),
            frozen_margin: margin,
        };
        let ghost before = self.resting_orders@;
        match self.find_resting(&req.key.cid) {
            Some(k) => {
                proof {
                    lemma_unique_update(before, |o: RestingOrder| o.key.cid@, k as int, resting);
                }
                self.resting_orders.set(k, resting);
            },
            None => {
                proof {
                    assert forall|j: int| 0 <= j < before.len() implies (|o: RestingOrder| o.key.cid@)(before[j])
                        != (|o: RestingOrder| o.key.cid@)(resting) by {
                        if before[j].key.cid@ == req.key.cid@ {
                            assert(has_resting(before, req.key.cid@));
                        }
                    }
                    lemma_unique_push(before, |o: RestingOrder| o.key.cid@, resting);
                }
                self.resting_orders.push(resting);
            },
        }
        let resp = Order {
            key: req.key.copy(),
            side: req.state.side,
            price: req.state.price,
            quantity: req.state.quantity,
            kind: req.state.kind,
            time_in_force: req.state.time_in_force,
            state: Ok(Open { id, time_exchange: time, filled_quantity: zero() }),
        };
        (resp, None)
    }

    /// Whether an order kind is supported: both market and limit orders are.
    pub fn validate_order_kind_supported(&self, kind: OrderKind) -> (r: Result<(), OrderError>)
        ensures
            r is Ok,
    {
        let _ = kind;
        Ok(())
    }

    /// Opens an order (see `open_rel`): a limit order that does not cross the spread
    /// rests; any other order trades at once at the taker fee rate on a spot or
    /// perpetual instrument, and is refused on an unknown or unsupported instrument.
    /// The trade is not recorded here: the caller acknowledges it.
    pub fn open_order(&mut self, req: OrderRequestOpen) -> (r: (
        Order<Result<Open, OrderError>>,
        Option<OpenOrderNotifications>,
    ))
        requires
            old(self).wf(),
            old(self).order_sequence < u64::MAX,
        ensures
            final(self).wf(),
            open_rel(*old(self), req, *final(self), r.0, r.1),
    {
        if let Err(OrderError::Rejected(e)) = self.validate_order_kind_supported(req.state.kind) {
            return (build_open_order_err_response(&req, e), None);
        }
        if req.state.kind == OrderKind::Limit && !self.limit_order_crosses_spread(&req) {
            return self.rest_limit_order(req);
        }
        let inst = match self.find_instrument_data(&req.key.instrument) {
            Ok(x) => x.copy(),
            Err(e) => return (build_open_order_err_response(&req, e), None),
        };
        let fee = self.taker_fees_percent;
        match &inst.kind {
            InstrumentKind::Spot => self.open_order_spot(req, &inst, fee),
            InstrumentKind::Perpetual(c) => self.open_order_perpetual(req, c, fee),
            InstrumentKind::Other(d) => {
                let m = joined("MockExchange does not support instrument kind: ", d.as_str());
                (build_open_order_err_response(&req, ApiError::OrderRejected(m)), None)
            },
        }
    }
}

} // verus!
