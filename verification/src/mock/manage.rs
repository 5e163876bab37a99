//! Cancelling resting orders, filling them as the market moves, and the exchange clock.
use super::account::lemma_balance_index;
use super::exchange::{
    crossed, crosses_update, fill_chain, has_price, lemma_price_index, market_rel, price_index, prices_unique,
    somes, uncrossed, MarketPrice, MarketPriceUpdate,
    cancel_rel, fill_rel, filled_as, fills_on_other_kind, instruments_unique, released, request_of, unfrozen, MockExchange,
    RestingOrder,
};
use super::fill::joined;
use super::order::{
    ApiError, AssetBalance, Balance, Cancelled, OpenOrderNotifications, Order, OrderError, OrderKind,
    OrderRequestCancel, OrderRequestOpen, RequestOpen, TimeInForce,
};
use super::plan::{settlement_asset, InstrumentKind};
use crate::decimal::{dec_ge, dec_le, zero};
use crate::keyed::{lemma_unique_filter, lemma_unique_push, lemma_unique_remove, lemma_unique_update};
use crate::side::Side;
use crate::time::Timestamp;
use rust_decimal::Decimal;
use vstd::prelude::*;

verus! {

impl MockExchange {
    /// Returns margin `margin` to the free amount of the balance of `asset`,
    /// stamping it with `stamp` where given (see `unfrozen`); `false`, with nothing
    /// changed, where the sum overflows.
    pub(crate) fn unfreeze(&mut self, asset: &String, margin: Decimal, stamp: Option<Timestamp>) -> (ok: bool)
        requires
            old(self).wf(),
        ensures
            final(self).wf(),
            ok == unfrozen(old(self).account.balances@, asset@, margin, stamp) is Some,
            ok ==> final(self).account.balances@ == unfrozen(old(self).account.balances@, asset@, margin, stamp)->0,
            !ok ==> final(self).account.balances@ == old(self).account.balances@,
            final(self).account.positions == old(self).account.positions,
            final(self).account.trades == old(self).account.trades,
            final(self).account.orders_open == old(self).account.orders_open,
            final(self).account.orders_cancelled == old(self).account.orders_cancelled,
            final(self).instruments == old(self).instruments,
            final(self).resting_orders == old(self).resting_orders,
            final(self).market_prices == old(self).market_prices,
            final(self).order_sequence == old(self).order_sequence,
            final(self).time_exchange_latest == old(self).time_exchange_latest,
            final(self).exchange == old(self).exchange,
            final(self).latency_ms == old(self).latency_ms,
            final(self).taker_fees_percent == old(self).taker_fees_percent,
            final(self).maker_fees_percent == old(self).maker_fees_percent,
    {
        let i = match self.account.find_balance(asset) {
            Some(i) => i,
            None => return true,
        };
        proof {
            lemma_balance_index(self.account.balances@, asset@, i as int);
        }
        let b = self.account.balances[i].copy();
        let f = match b.balance.free.checked_add(margin) {
            Some(f) => f,
            None => return false,
        };
        let t = match stamp {
            Some(t) => t,
            None => b.time_exchange,
        };
        let nb = AssetBalance { asset: b.asset, balance: Balance { total: b.balance.total, free: f }, time_exchange: t };
        proof {
            lemma_unique_update(self.account.balances@, |x: AssetBalance| x.asset@, i as int, nb);
        }
        self.account.balances.set(i, nb);
        true
    }

    /// Releases the margin of a resting order (see `released`); `false`, with
    /// nothing changed, where that overflows.
    pub(crate) fn release(&mut self, o: &RestingOrder, stamp: Option<Timestamp>) -> (ok: bool)
        requires
            old(self).wf(),
        ensures
            final(self).wf(),
            ok == released(*old(self), *o, stamp) is Some,
            ok ==> final(self).account.balances@ == released(*old(self), *o, stamp)->0,
            !ok ==> final(self).account.balances@ == old(self).account.balances@,
            final(self).account.positions == old(self).account.positions,
            final(self).account.trades == old(self).account.trades,
            final(self).account.orders_open == old(self).account.orders_open,
            final(self).account.orders_cancelled == old(self).account.orders_cancelled,
            final(self).instruments == old(self).instruments,
            final(self).resting_orders == old(self).resting_orders,
            final(self).market_prices == old(self).market_prices,
            final(self).order_sequence == old(self).order_sequence,
            final(self).time_exchange_latest == old(self).time_exchange_latest,
            final(self).exchange == old(self).exchange,
            final(self).latency_ms == old(self).latency_ms,
            final(self).taker_fees_percent == old(self).taker_fees_percent,
            final(self).maker_fees_percent == old(self).maker_fees_percent,
    {
        match self.find_instrument_data(&o.instrument) {
            Ok(inst) => {
                let asset = settlement_asset(inst);
                self.unfreeze(&asset, o.frozen_margin, stamp)
            },
            Err(_) => true,
        }
    }

    /// Cancels the order resting under the request's client order id (see `cancel_rel`).
    pub fn cancel_order(&mut self, req: OrderRequestCancel) -> (r: Order<Result<Cancelled, OrderError>>)
        requires
            old(self).wf(),
        ensures
            final(self).wf(),
            cancel_rel(*old(self), req, *final(self), r),
    {
        let time = self.time_exchange_latest;
        let k = match self.find_resting(&req.key.cid) {
            Some(k) => k,
            None => {
                let m = joined("No resting order found with cid: ", req.key.cid.as_str());
                return Order {
                    key: req.key.copy(),
                    side: Side::Buy,
                    price: zero(),
                    quantity: zero(),
                    kind: OrderKind::Limit,
                    time_in_force: TimeInForce::GoodUntilCancelled { post_only: false },
                    state: Err(OrderError::Rejected(ApiError::OrderRejected(m))),
                };
            },
        };
        let o = self.resting_orders[k].copy();
        if !self.release(&o, Some(time)) {
            let m = String::from_str("MockExchange arithmetic overflow");
            return Order {
                key: req.key.copy(),
                side: o.side,
                price: o.price,
                quantity: o.quantity,
                kind: o.kind,
                time_in_force: o.time_in_force,
                state: Err(OrderError::Rejected(ApiError::OrderRejected(m))),
            };
        }
        proof {
            lemma_unique_remove(self.resting_orders@, |x: RestingOrder| x.key.cid@, k as int);
        }
        self.resting_orders.remove(k);
        Order {
            key: req.key.copy(),
            side: o.side,
            price: o.price,
            quantity: o.quantity,
            kind: o.kind,
            time_in_force: o.time_in_force,
            state: Ok(Cancelled { id: o.order_id, time_exchange: time }),
        }
    }

    /// Fills a resting order that the market crossed (see `fill_rel`): its margin is
    /// released and it trades at its limit price at the maker fee rate; the trade, if
    /// any, is recorded and its notifications returned.
    pub(crate) fn fill_resting_order(&mut self, o: RestingOrder) -> (r: Option<OpenOrderNotifications>)
        requires
            old(self).wf(),
            old(self).order_sequence < u64::MAX,
        ensures
            final(self).wf(),
            fill_rel(*old(self), o, *final(self), r),
            final(self).order_sequence <= old(self).order_sequence + 1,
            final(self).instruments@ == old(self).instruments@,
            final(self).resting_orders@ == old(self).resting_orders@,
            final(self).market_prices@ == old(self).market_prices@,
            final(self).time_exchange_latest == old(self).time_exchange_latest,
            final(self).exchange == old(self).exchange,
            final(self).latency_ms == old(self).latency_ms,
            final(self).taker_fees_percent == if fills_on_other_kind(*old(self), o) {
                old(self).maker_fees_percent
            } else {
                old(self).taker_fees_percent
            },
            final(self).maker_fees_percent == old(self).maker_fees_percent,
    {
        let inst = match self.find_instrument_data(&o.instrument) {
            Ok(x) => x.copy(),
            Err(_) => return None,
        };
        let ghost pre = *self;
        if !self.release(&o, None) {
            return None;
        }
        let ghost mid = *self;
        let req = OrderRequestOpen {
            key: o.key.copy(),
            state: RequestOpen {
                side: o.side,
                price: o.price,
                quantity: o.quantity,
                kind: o.kind,
                time_in_force: o.time_in_force,
            },
        };
        proof {
            assert(req == request_of(o));
        }
        let fee = self.maker_fees_percent;
        let (resp, notif) = match &inst.kind {
            InstrumentKind::Spot => self.open_order_spot(req, &inst, fee),
            InstrumentKind::Perpetual(c) => self.open_order_perpetual(req, c, fee),
            InstrumentKind::Other(_) => {
                self.taker_fees_percent = self.maker_fees_percent;
                proof {
                    assert(filled_as(pre, o, mid.account.balances@, mid, mid, arbitrary(), *self, None));
                }
                return None;
            },
        };
        let ghost done = *self;
        let r = match notif {
            Some(n) => {
                self.account.ack_trade(n.trade.copy());
                Some(n)
            },
            None => None,
        };
        proof {
            assert(filled_as(pre, o, mid.account.balances@, mid, done, resp, *self, r));
        }
        r
    }

    /// The index of the prices of `instrument`, if any are known.
    fn find_price(&self, instrument: &String) -> (r: Option<usize>)
        requires
            prices_unique(self.market_prices@),
        ensures
            r matches Some(k) ==> k < self.market_prices.len() && self.market_prices@[k as int].instrument@
                == instrument@ && has_price(self.market_prices@, instrument@) && price_index(
                self.market_prices@,
                instrument@,
            ) == k,
            r is None <==> !has_price(self.market_prices@, instrument@),
    {
        let mut k: usize = 0;
        while k < self.market_prices.len()
            invariant
                k <= self.market_prices.len(),
                prices_unique(self.market_prices@),
                forall|j: int| 0 <= j < k ==> self.market_prices@[j].instrument@ != instrument@,
            decreases self.market_prices.len() - k,
        {
            if self.market_prices[k].instrument == *instrument {
                proof {
                    lemma_price_index(self.market_prices@, instrument@, k as int);
                }
                return Some(k);
            }
            k = k + 1;
        }
        None
    }

    /// Applies a market update (see `market_rel`): the instrument's best bid and ask
    /// are recorded, and the resting orders the update crosses leave the book and
    /// fill, in book order; the notifications of the fills are returned in order.
    pub fn handle_market_update(&mut self, u: MarketPriceUpdate) -> (r: Vec<OpenOrderNotifications>)
        requires
            old(self).wf(),
            old(self).order_sequence + old(self).resting_orders.len() < u64::MAX,
        ensures
            final(self).wf(),
            market_rel(*old(self), u, *final(self), r@),
    {
        let ghost pre = *self;
        match self.find_price(&u.instrument) {
            Some(k) => {
                let name = self.market_prices[k].instrument.clone();
                let p = MarketPrice { instrument: name, best_bid: u.best_bid, best_ask: u.best_ask };
                proof {
                    lemma_unique_update(self.market_prices@, |x: MarketPrice| x.instrument@, k as int, p);
                }
                self.market_prices.set(k, p);
            },
            None => {
                let p = MarketPrice { instrument: u.instrument.clone(), best_bid: u.best_bid, best_ask: u.best_ask };
                proof {
                    let s = self.market_prices@;
                    assert forall|j: int| 0 <= j < s.len() implies (|x: MarketPrice| x.instrument@)(s[j]) != (|
                        x: MarketPrice,
                    | x.instrument@)(p) by {
                        if s[j].instrument@ == p.instrument@ {
                            assert(has_price(s, u.instrument@));
                        }
                    }
                    lemma_unique_push(s, |x: MarketPrice| x.instrument@, p);
                }
                self.market_prices.push(p);
            },
        }
        let mut keep: Vec<RestingOrder> = Vec::new();
        let mut cross: Vec<RestingOrder> = Vec::new();
        let mut i: usize = 0;
        while i < self.resting_orders.len()
            invariant
                i <= self.resting_orders.len(),
                self.resting_orders@ == pre.resting_orders@,
                keep@ == uncrossed(self.resting_orders@.take(i as int), u),
                cross@ == crossed(self.resting_orders@.take(i as int), u),
                keep.len() + cross.len() == i,
            decreases self.resting_orders.len() - i,
        {
            let o = self.resting_orders[i].copy();
            proof {
                reveal_with_fuel(Seq::filter, 1);
                assert(self.resting_orders@.take(i as int + 1).drop_last() =~= self.resting_orders@.take(i as int));
            }
            if crosses(&o, &u) {
                cross.push(o);
            } else {
                keep.push(o);
            }
            i = i + 1;
        }
        proof {
            assert(self.resting_orders@.take(self.resting_orders.len() as int) =~= self.resting_orders@);
            lemma_unique_filter(self.resting_orders@, |x: RestingOrder| x.key.cid@, |o: RestingOrder| !crosses_update(o, u));
        }
        self.resting_orders = keep;
        let ghost s0 = *self;
        let ghost mut states: Seq<MockExchange> = seq![s0];
        let ghost mut outs: Seq<Option<OpenOrderNotifications>> = Seq::empty();
        let mut out: Vec<OpenOrderNotifications> = Vec::new();
        let mut t: usize = 0;
        while t < cross.len()
            invariant
                self.wf(),
                t <= cross.len(),
                cross@ == crossed(pre.resting_orders@, u),
                s0.order_sequence + cross.len() < u64::MAX,
                self.order_sequence <= s0.order_sequence + t,
                states.len() == t + 1,
                outs.len() == t,
                states[0] == s0,
                states[t as int] == *self,
                forall|tt: int| 0 <= tt < t ==> #[trigger] fill_rel(states[tt], cross@[tt], states[tt + 1], outs[tt]),
                out@ == somes(outs),
            decreases cross.len() - t,
        {
            let o = cross[t].copy();
            let n = self.fill_resting_order(o);
            proof {
                let old_states = states;
                let old_outs = outs;
                states = states.push(*self);
                outs = outs.push(n);
                assert(outs.drop_last() =~= old_outs);
                assert forall|tt: int| 0 <= tt < t + 1 implies #[trigger] fill_rel(states[tt], cross@[tt], states[tt + 1], outs[tt]) by {
                    if tt < t {
                        assert(states[tt] == old_states[tt]);
                        assert(states[tt + 1] == old_states[tt + 1]);
                        assert(outs[tt] == old_outs[tt]);
                    }
                }
            }
            match n {
                Some(x) => out.push(x),
                None => {},
            }
            t = t + 1;
        }
        proof {
            assert(fill_chain(states, crossed(pre.resting_orders@, u), outs));
        }
        out
    }
}

/// Whether a market update crosses a resting order (see `crosses_update`).
fn crosses(o: &RestingOrder, u: &MarketPriceUpdate) -> (r: bool)
    ensures
        r == crosses_update(*o, *u),
{
    if o.instrument != u.instrument {
        return false;
    }
    match o.side {
        Side::Buy => dec_le(u.best_ask, o.price),
        Side::Sell => dec_ge(u.best_bid, o.price),
    }
}

/// Law: cancelling a limit order that has just come to rest, under a client
/// order id that had none resting, leaves the book of resting orders as it was
/// before, and answers with the id the order was given.
pub proof fn law_cancel_undoes_rest(
    pre: MockExchange,
    req: super::order::OrderRequestOpen,
    mid: MockExchange,
    resp: Order<Result<super::order::Open, OrderError>>,
    cancel: OrderRequestCancel,
    post: MockExchange,
    answer: Order<Result<Cancelled, OrderError>>,
)
    requires
        mid.wf(),
        !super::exchange::has_resting(pre.resting_orders@, req.key.cid@),
        super::exchange::rest_rel(pre, req, mid, resp, None),
        resp.state is Ok,
        cancel.key == req.key,
        cancel_rel(mid, cancel, post, answer),
        answer.state is Ok,
    ensures
        post.resting_orders@ == pre.resting_orders@,
        answer.state->Ok_0.id@ == resp.state->Ok_0.id@,
{
    let cid = req.key.cid@;
    let n = pre.resting_orders@.len() as int;
    assert(mid.resting_orders@[n].key.cid@ == cid);
    super::exchange::lemma_resting_index(mid.resting_orders@, cid, n);
    assert(mid.resting_orders@.remove(n) =~= pre.resting_orders@);
}

} // verus!
