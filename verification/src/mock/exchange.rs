//! A simulated exchange: it fills market orders at once, rests limit orders until
//! the market crosses them, and keeps balances and perpetual positions.
use super::account::{
    balance_assets_unique, balance_index, has_balance, has_position, position_index, position_instruments_unique,
    AccountState, MockPosition, PositionEntry,
};
use super::order::{
    ApiError, AssetBalance, Balance, Cancelled, OrderRequestCancel, OpenOrderNotifications, Open, Order, OrderError, OrderKey, OrderKind,
    OrderRequestOpen, RequestOpen, TimeInForce, Trade,
};
use super::plan::{
    next_position, order_margin, perp_plan, settlement_asset, spec_next_position,
    spec_order_margin, spec_perp_plan, spec_settlement_asset, spec_spot_plan, spot_plan, Instrument,
    InstrumentKind, PerpPlan, PerpetualContract, SpotPlan,
};
use crate::decimal::{
    dec_ge, dec_le, dec_lt, dec_text, dec_zero, decimal_display, decimal_ge, decimal_le,
    decimal_lt, zero,
};
use crate::exchange_id::ExchangeId;
use crate::keyed::unique_by;
use crate::side::Side;
use crate::text::{decimal_text, u64_text};
use crate::time::Timestamp;
use rust_decimal::Decimal;
use vstd::prelude::*;

verus! {

/// A limit order waiting in the book for the market to cross its price.
#[derive(Clone, Debug, PartialEq)]
pub struct RestingOrder {
    pub instrument: String,
    pub side: Side,
    pub price: Decimal,
    pub quantity: Decimal,
    pub kind: OrderKind,
    pub time_in_force: TimeInForce,
    pub strategy_id: String,
    pub order_id: String,
    pub key: OrderKey,
    pub frozen_margin: Decimal,
}

impl RestingOrder {
    /// A copy of the resting order.
    pub fn copy(&self) -> (r: Self)
        ensures
            r == *self,
    {
        RestingOrder {
            instrument: self.instrument.clone(),
            side: self.side,
            price: self.price,
            quantity: self.quantity,
            kind: self.kind,
            time_in_force: self.time_in_force,
            strategy_id: self.strategy_id.clone(),
            order_id: self.order_id.clone(),
            key: self.key.copy(),
            frozen_margin: self.frozen_margin,
        }
    }
}

/// Best bid and best ask last seen for an instrument.
#[derive(Clone, Debug, PartialEq)]
pub struct MarketPrice {
    pub instrument: String,
    pub best_bid: Decimal,
    pub best_ask: Decimal,
}

/// A new best bid and best ask for an instrument.
#[derive(Clone, Debug, PartialEq)]
pub struct MarketPriceUpdate {
    pub instrument: String,
    pub best_bid: Decimal,
    pub best_ask: Decimal,
}

/// The state of a simulated exchange.
#[derive(Clone, Debug, PartialEq)]
pub struct MockExchange {
    pub exchange: ExchangeId,
    pub latency_ms: u64,
    pub taker_fees_percent: Decimal,
    pub maker_fees_percent: Decimal,
    pub instruments: Vec<Instrument>,
    pub account: AccountState,
    pub order_sequence: u64,
    pub time_exchange_latest: Timestamp,
    pub resting_orders: Vec<RestingOrder>,
    pub market_prices: Vec<MarketPrice>,
}

/// An API error as the contracts describe it, messages as character sequences.
pub enum ApiErrorSpec {
    InstrumentInvalid(Seq<char>, Seq<char>),
    BalanceInsufficient(Seq<char>, Seq<char>),
    OrderRejected(Seq<char>),
}

/// Whether an error is the one described.
pub open spec fn error_is(e: ApiError, s: ApiErrorSpec) -> bool {
    match (e, s) {
        (ApiError::InstrumentInvalid(a, m), ApiErrorSpec::InstrumentInvalid(sa, sm)) => a@ == sa && m@ == sm,
        (ApiError::BalanceInsufficient(a, m), ApiErrorSpec::BalanceInsufficient(sa, sm)) => a@ == sa && m@
            == sm,
        (ApiError::OrderRejected(m), ApiErrorSpec::OrderRejected(sm)) => m@ == sm,
        _ => false,
    }
}

/// Message for an instrument the exchange is not configured with.
pub open spec fn not_setup_msg(name: Seq<char>) -> Seq<char> {
    "MockExchange is not set-up for managing: "@ + name
}

/// Message for a spot balance that cannot pay for an order.
pub open spec fn spot_short_msg(free: Decimal, required: Decimal) -> Seq<char> {
    "Available Balance: "@ + decimal_display(free) + ", Required Balance inc. fees: "@ + decimal_display(
        required,
    )
}

/// Message for a settlement balance that cannot pay for a perpetual order.
pub open spec fn perp_short_msg(free: Decimal, required: Decimal) -> Seq<char> {
    "Available: "@ + decimal_display(free) + ", Required: "@ + decimal_display(required)
}

/// Message for a balance that cannot cover the margin of a resting order.
pub open spec fn rest_short_msg(free: Decimal, margin: Decimal) -> Seq<char> {
    "Available: "@ + decimal_display(free) + ", Required margin: "@ + decimal_display(margin)
}

/// Message for an instrument kind the exchange does not trade.
pub open spec fn unsupported_kind_msg(description: Seq<char>) -> Seq<char> {
    "MockExchange does not support instrument kind: "@ + description
}

/// Message for a cancel request that matches no resting order.
pub open spec fn no_resting_msg(cid: Seq<char>) -> Seq<char> {
    "No resting order found with cid: "@ + cid
}

/// Message for arithmetic that leaves the range of `Decimal`.
pub open spec fn overflow_msg() -> Seq<char> {
    "MockExchange arithmetic overflow"@
}

/// Message for an asset the account holds no balance of.
pub open spec fn missing_balance_msg(asset: Seq<char>) -> Seq<char> {
    "MockExchange has no balance for asset: "@ + asset
}

/// No two instruments share a name.
pub open spec fn instruments_unique(s: Seq<Instrument>) -> bool {
    unique_by(s, |x: Instrument| x.name_exchange@)
}

/// No two resting orders share a client order id.
pub open spec fn resting_unique(s: Seq<RestingOrder>) -> bool {
    unique_by(s, |r: RestingOrder| r.key.cid@)
}

/// No two market prices are for the same instrument.
pub open spec fn prices_unique(s: Seq<MarketPrice>) -> bool {
    unique_by(s, |p: MarketPrice| p.instrument@)
}

/// Where client order ids are unique, the order found under `cid` at `i` is the one `resting_index` names.
pub proof fn lemma_resting_index(s: Seq<RestingOrder>, cid: Seq<char>, i: int)
    requires
        resting_unique(s),
        0 <= i < s.len(),
        s[i].key.cid@ == cid,
    ensures
        has_resting(s, cid),
        resting_index(s, cid) == i,
{
    let c = resting_index(s, cid);
    assert(0 <= c < s.len() && s[c].key.cid@ == cid);
    if c < i {
        assert((|r: RestingOrder| r.key.cid@)(s[c]) != (|r: RestingOrder| r.key.cid@)(s[i]));
    } else if c > i {
        assert((|r: RestingOrder| r.key.cid@)(s[i]) != (|r: RestingOrder| r.key.cid@)(s[c]));
    }
}

/// Where instruments are unique, the prices found under `name` at `i` are the ones `price_index` names.
pub proof fn lemma_price_index(s: Seq<MarketPrice>, name: Seq<char>, i: int)
    requires
        prices_unique(s),
        0 <= i < s.len(),
        s[i].instrument@ == name,
    ensures
        has_price(s, name),
        price_index(s, name) == i,
{
    let c = price_index(s, name);
    assert(0 <= c < s.len() && s[c].instrument@ == name);
    if c < i {
        assert((|p: MarketPrice| p.instrument@)(s[c]) != (|p: MarketPrice| p.instrument@)(s[i]));
    } else if c > i {
        assert((|p: MarketPrice| p.instrument@)(s[i]) != (|p: MarketPrice| p.instrument@)(s[c]));
    }
}

/// Whether an instrument of that name is configured.
pub open spec fn has_instrument(s: Seq<Instrument>, name: Seq<char>) -> bool {
    exists|i: int| 0 <= i < s.len() && s[i].name_exchange@ == name
}

/// The configured instrument of that name (meaningful where `has_instrument`).
pub open spec fn instrument_named(s: Seq<Instrument>, name: Seq<char>) -> Instrument {
    s[choose|i: int| 0 <= i < s.len() && s[i].name_exchange@ == name]
}

/// Whether an order with that client order id rests.
pub open spec fn has_resting(s: Seq<RestingOrder>, cid: Seq<char>) -> bool {
    exists|i: int| 0 <= i < s.len() && s[i].key.cid@ == cid
}

/// The index of the resting order with that client order id (where `has_resting`).
pub open spec fn resting_index(s: Seq<RestingOrder>, cid: Seq<char>) -> int {
    choose|i: int| 0 <= i < s.len() && s[i].key.cid@ == cid
}

/// Whether prices are known for the instrument.
pub open spec fn has_price(s: Seq<MarketPrice>, instrument: Seq<char>) -> bool {
    exists|i: int| 0 <= i < s.len() && s[i].instrument@ == instrument
}

/// The index of the prices of the instrument (where `has_price`).
pub open spec fn price_index(s: Seq<MarketPrice>, instrument: Seq<char>) -> int {
    choose|i: int| 0 <= i < s.len() && s[i].instrument@ == instrument
}

/// Whether a limit order crosses the spread, so that it trades at once: a buy at or
/// above the best ask, a sell at or below the best bid; never without known prices.
pub open spec fn spec_crosses(prices: Seq<MarketPrice>, req: OrderRequestOpen) -> bool {
    if has_price(prices, req.key.instrument@) {
        let p = prices[price_index(prices, req.key.instrument@)];
        match req.state.side {
            Side::Buy => decimal_ge(req.state.price, p.best_ask),
            Side::Sell => decimal_le(req.state.price, p.best_bid),
        }
    } else {
        false
    }
}

/// Whether a response echoes the request's key and terms.
pub open spec fn echoes<S>(resp: Order<S>, req: OrderRequestOpen) -> bool {
    &&& resp.key == req.key
    &&& resp.side == req.state.side
    &&& resp.price == req.state.price
    &&& resp.quantity == req.state.quantity
    &&& resp.kind == req.state.kind
    &&& resp.time_in_force == req.state.time_in_force
}

/// Everything but balances, positions, resting orders and the order sequence agree.
pub open spec fn same_setup(a: MockExchange, b: MockExchange) -> bool {
    &&& a.exchange == b.exchange
    &&& a.latency_ms == b.latency_ms
    &&& a.taker_fees_percent == b.taker_fees_percent
    &&& a.maker_fees_percent == b.maker_fees_percent
    &&& a.instruments@ == b.instruments@
    &&& a.time_exchange_latest == b.time_exchange_latest
    &&& a.market_prices@ == b.market_prices@
    &&& a.account.orders_open@ == b.account.orders_open@
    &&& a.account.orders_cancelled@ == b.account.orders_cancelled@
}

/// The two states agree in every part but the balances.
pub open spec fn same_but_balances(a: MockExchange, b: MockExchange) -> bool {
    &&& same_setup(a, b)
    &&& a.account.positions@ == b.account.positions@
    &&& a.account.trades@ == b.account.trades@
    &&& a.resting_orders@ == b.resting_orders@
    &&& a.order_sequence == b.order_sequence
}

/// The two states agree in every part.
pub open spec fn same_state(a: MockExchange, b: MockExchange) -> bool {
    &&& same_but_balances(a, b)
    &&& a.account.balances@ == b.account.balances@
}

/// The request is refused with error `e` and nothing changes.
pub open spec fn rejects(
    pre: MockExchange,
    post: MockExchange,
    req: OrderRequestOpen,
    resp: Order<Result<Open, OrderError>>,
    notif: Option<OpenOrderNotifications>,
    e: ApiErrorSpec,
) -> bool {
    &&& same_state(pre, post)
    &&& notif is None
    &&& echoes(resp, req)
    &&& resp.state matches Err(OrderError::Rejected(x)) && error_is(x, e)
}

/// The request is accepted as order number `seq` at `time` with `filled` filled.
pub open spec fn accepts(
    resp: Order<Result<Open, OrderError>>,
    req: OrderRequestOpen,
    seq: u64,
    time: Timestamp,
    filled: Decimal,
) -> bool {
    &&& echoes(resp, req)
    &&& resp.state matches Ok(o) && o.id@ == decimal_text(seq as nat) && o.time_exchange == time
        && o.filled_quantity == filled
}

/// The trade of a request filled as order number `seq`, at `time`, with `fees`.
pub open spec fn trade_of(t: Trade, req: OrderRequestOpen, seq: u64, time: Timestamp, fees: Decimal) -> bool {
    &&& t.id@ == decimal_text(seq as nat)
    &&& t.order_id@ == decimal_text(seq as nat)
    &&& t.instrument == req.key.instrument
    &&& t.strategy == req.key.strategy
    &&& t.time_exchange == time
    &&& t.side == req.state.side
    &&& t.price == req.state.price
    &&& t.quantity == req.state.quantity
    &&& t.fees == fees
}

/// The balance at index `i` with free and total both `amount`, stamped `time`.
pub open spec fn settled_balance(s: Seq<AssetBalance>, i: int, amount: Decimal, time: Timestamp) -> AssetBalance {
    AssetBalance { asset: s[i].asset, balance: Balance { total: amount, free: amount }, time_exchange: time }
}

/// The order fills at once: the balance of `asset` becomes `new_free` (free and total),
/// the order takes the next number, and the notifications carry the balance and trade.
pub open spec fn fills(
    pre: MockExchange,
    post: MockExchange,
    req: OrderRequestOpen,
    resp: Order<Result<Open, OrderError>>,
    notif: Option<OpenOrderNotifications>,
    asset: Seq<char>,
    new_free: Decimal,
    fees: Decimal,
) -> bool {
    let bals = pre.account.balances@;
    let i = balance_index(bals, asset);
    let nb = settled_balance(bals, i, new_free, pre.time_exchange_latest);
    &&& same_setup(pre, post)
    &&& post.account.balances@ == bals.update(i, nb)
    &&& post.account.trades@ == pre.account.trades@
    &&& post.resting_orders@ == pre.resting_orders@
    &&& post.order_sequence == pre.order_sequence + 1
    &&& accepts(resp, req, pre.order_sequence, pre.time_exchange_latest, req.state.quantity)
    &&& notif matches Some(n) && n.balance == nb && trade_of(
        n.trade,
        req,
        pre.order_sequence,
        pre.time_exchange_latest,
        fees,
    )
}

/// The asset a spot order draws on: the quote asset to buy, the base asset to sell.
pub open spec fn spot_asset(req: OrderRequestOpen, inst: Instrument) -> Seq<char> {
    match req.state.side {
        Side::Buy => inst.underlying.quote@,
        Side::Sell => inst.underlying.base@,
    }
}

/// What a spot order that trades at once does, at fee rate `fee`.
pub open spec fn spot_rel(
    pre: MockExchange,
    req: OrderRequestOpen,
    inst: Instrument,
    fee: Decimal,
    post: MockExchange,
    resp: Order<Result<Open, OrderError>>,
    notif: Option<OpenOrderNotifications>,
) -> bool {
    let asset = spot_asset(req, inst);
    let bals = pre.account.balances@;
    if !has_balance(bals, asset) {
        rejects(pre, post, req, resp, notif, ApiErrorSpec::OrderRejected(missing_balance_msg(asset)))
    } else {
        let b = bals[balance_index(bals, asset)].balance;
        match spec_spot_plan(req.state, b.free, fee) {
            SpotPlan::Overflow => rejects(pre, post, req, resp, notif, ApiErrorSpec::OrderRejected(overflow_msg())),
            SpotPlan::Insufficient { required } => rejects(
                pre,
                post,
                req,
                resp,
                notif,
                ApiErrorSpec::BalanceInsufficient(asset, spot_short_msg(b.free, required)),
            ),
            SpotPlan::Fill { new_free, fees_quote } => {
                &&& fills(pre, post, req, resp, notif, asset, new_free, fees_quote)
                &&& post.account.positions@ == pre.account.positions@
            },
        }
    }
}

/// The position held on an instrument, if any.
pub open spec fn position_on(s: Seq<PositionEntry>, instrument: Seq<char>) -> Option<MockPosition> {
    if has_position(s, instrument) {
        Some(s[position_index(s, instrument)].position)
    } else {
        None
    }
}

/// The positions after the position on `name` becomes `next` (`None`: closed).
pub open spec fn positions_after(
    s: Seq<PositionEntry>,
    name: String,
    next: Option<MockPosition>,
) -> Seq<PositionEntry> {
    if has_position(s, name@) {
        let i = position_index(s, name@);
        match next {
            Some(p) => s.update(i, PositionEntry { instrument: s[i].instrument, position: p }),
            None => s.remove(i),
        }
    } else {
        match next {
            Some(p) => s.push(PositionEntry { instrument: name, position: p }),
            None => s,
        }
    }
}

/// What a perpetual order that trades at once does, at fee rate `fee`.
pub open spec fn perp_rel(
    pre: MockExchange,
    req: OrderRequestOpen,
    c: PerpetualContract,
    fee: Decimal,
    post: MockExchange,
    resp: Order<Result<Open, OrderError>>,
    notif: Option<OpenOrderNotifications>,
) -> bool {
    let asset = c.settlement_asset@;
    let bals = pre.account.balances@;
    if !has_balance(bals, asset) {
        rejects(pre, post, req, resp, notif, ApiErrorSpec::OrderRejected(missing_balance_msg(asset)))
    } else {
        let b = bals[balance_index(bals, asset)].balance;
        let pos = position_on(pre.account.positions@, req.key.instrument@);
        match spec_perp_plan(req.state, c.contract_size, pos, b.free, fee) {
            PerpPlan::Overflow => rejects(pre, post, req, resp, notif, ApiErrorSpec::OrderRejected(overflow_msg())),
            PerpPlan::Insufficient { required } => rejects(
                pre,
                post,
                req,
                resp,
                notif,
                ApiErrorSpec::BalanceInsufficient(asset, perp_short_msg(b.free, required)),
            ),
            PerpPlan::Fill { new_free, fees, position } => {
                &&& fills(pre, post, req, resp, notif, asset, new_free, fees)
                &&& post.account.positions@ == positions_after(
                    pre.account.positions@,
                    req.key.instrument,
                    position,
                )
            },
        }
    }
}

/// The resting order a limit request becomes, numbered `seq` and freezing `margin`.
pub open spec fn resting_of(r: RestingOrder, req: OrderRequestOpen, seq: u64, margin: Decimal) -> bool {
    &&& r.instrument == req.key.instrument
    &&& r.side == req.state.side
    &&& r.price == req.state.price
    &&& r.quantity == req.state.quantity
    &&& r.kind == req.state.kind
    &&& r.time_in_force == req.state.time_in_force
    &&& r.strategy_id == req.key.strategy
    &&& r.order_id@ == decimal_text(seq as nat)
    &&& r.key == req.key
    &&& r.frozen_margin == margin
}

/// The resting orders after one is placed under a client order id: it replaces any
/// order resting under the same id, else it is appended.
pub open spec fn placed(pre: Seq<RestingOrder>, post: Seq<RestingOrder>, req: OrderRequestOpen, seq: u64, margin: Decimal) -> bool {
    let cid = req.key.cid@;
    let k = if has_resting(pre, cid) { resting_index(pre, cid) } else { pre.len() as int };
    &&& post.len() == (if has_resting(pre, cid) { pre.len() } else { pre.len() + 1 })
    &&& forall|j: int| 0 <= j < pre.len() && j != k ==> post[j] == pre[j]
    &&& resting_of(post[k], req, seq, margin)
}

/// What a limit order that does not cross the spread does: it freezes its margin in
/// the settlement balance and rests, acknowledged with nothing filled.
pub open spec fn rest_rel(
    pre: MockExchange,
    req: OrderRequestOpen,
    post: MockExchange,
    resp: Order<Result<Open, OrderError>>,
    notif: Option<OpenOrderNotifications>,
) -> bool {
    let name = req.key.instrument@;
    if !has_instrument(pre.instruments@, name) {
        rejects(pre, post, req, resp, notif, ApiErrorSpec::InstrumentInvalid(name, not_setup_msg(name)))
    } else {
        let inst = instrument_named(pre.instruments@, name);
        match spec_order_margin(req.state, inst) {
            None => rejects(pre, post, req, resp, notif, ApiErrorSpec::OrderRejected(overflow_msg())),
            Some(margin) => {
                let asset = spec_settlement_asset(inst);
                let bals = pre.account.balances@;
                if !has_balance(bals, asset) {
                    rejects(pre, post, req, resp, notif, ApiErrorSpec::OrderRejected(missing_balance_msg(asset)))
                } else {
                    let i = balance_index(bals, asset);
                    let b = bals[i];
                    if decimal_lt(b.balance.free, margin) {
                        rejects(
                            pre,
                            post,
                            req,
                            resp,
                            notif,
                            ApiErrorSpec::BalanceInsufficient(asset, rest_short_msg(b.balance.free, margin)),
                        )
                    } else {
                        match crate::decimal::decimal_checked_sub(b.balance.free, margin) {
                            None => rejects(
                                pre,
                                post,
                                req,
                                resp,
                                notif,
                                ApiErrorSpec::OrderRejected(overflow_msg()),
                            ),
                            Some(new_free) => {
                                &&& same_setup(pre, post)
                                &&& notif is None
                                &&& accepts(resp, req, pre.order_sequence, pre.time_exchange_latest, dec_zero())
                                &&& post.account.balances@ == bals.update(
                                    i,
                                    AssetBalance {
                                        asset: b.asset,
                                        balance: Balance { total: b.balance.total, free: new_free },
                                        time_exchange: pre.time_exchange_latest,
                                    },
                                )
                                &&& post.account.positions@ == pre.account.positions@
                                &&& post.account.trades@ == pre.account.trades@
                                &&& post.order_sequence == pre.order_sequence + 1
                                &&& placed(
                                    pre.resting_orders@,
                                    post.resting_orders@,
                                    req,
                                    pre.order_sequence,
                                    margin,
                                )
                            },
                        }
                    }
                }
            },
        }
    }
}

/// What a request to open an order does: a limit order that does not cross the
/// spread rests; any other order trades at once on a spot or perpetual instrument
/// at the taker fee rate, and is refused on an unknown or unsupported instrument.
pub open spec fn open_rel(
    pre: MockExchange,
    req: OrderRequestOpen,
    post: MockExchange,
    resp: Order<Result<Open, OrderError>>,
    notif: Option<OpenOrderNotifications>,
) -> bool {
    if req.state.kind == OrderKind::Limit && !spec_crosses(pre.market_prices@, req) {
        rest_rel(pre, req, post, resp, notif)
    } else {
        let name = req.key.instrument@;
        if !has_instrument(pre.instruments@, name) {
            rejects(pre, post, req, resp, notif, ApiErrorSpec::InstrumentInvalid(name, not_setup_msg(name)))
        } else {
            let inst = instrument_named(pre.instruments@, name);
            match inst.kind {
                InstrumentKind::Spot => spot_rel(pre, req, inst, pre.taker_fees_percent, post, resp, notif),
                InstrumentKind::Perpetual(c) => perp_rel(pre, req, c, pre.taker_fees_percent, post, resp, notif),
                InstrumentKind::Other(d) => rejects(
                    pre,
                    post,
                    req,
                    resp,
                    notif,
                    ApiErrorSpec::OrderRejected(unsupported_kind_msg(d@)),
                ),
            }
        }
    }
}

/// The balances after margin `margin` frozen in the balance of `asset` is made free
/// again, that balance being stamped with `stamp` where given: unchanged with no
/// balance of `asset`, `None` where the sum overflows.
pub open spec fn unfrozen(
    bals: Seq<AssetBalance>,
    asset: Seq<char>,
    margin: Decimal,
    stamp: Option<Timestamp>,
) -> Option<Seq<AssetBalance>> {
    if !has_balance(bals, asset) {
        Some(bals)
    } else {
        let i = balance_index(bals, asset);
        let b = bals[i];
        match crate::decimal::decimal_checked_add(b.balance.free, margin) {
            None => None,
            Some(f) => Some(
                bals.update(
                    i,
                    AssetBalance {
                        asset: b.asset,
                        balance: Balance { total: b.balance.total, free: f },
                        time_exchange: match stamp {
                            Some(t) => t,
                            None => b.time_exchange,
                        },
                    },
                ),
            ),
        }
    }
}

/// The balances after the margin of resting order `o` is released: unchanged where
/// its instrument is not configured, else as `unfrozen` on its settlement asset.
pub open spec fn released(pre: MockExchange, o: RestingOrder, stamp: Option<Timestamp>) -> Option<Seq<AssetBalance>> {
    if !has_instrument(pre.instruments@, o.instrument@) {
        Some(pre.account.balances@)
    } else {
        unfrozen(
            pre.account.balances@,
            spec_settlement_asset(instrument_named(pre.instruments@, o.instrument@)),
            o.frozen_margin,
            stamp,
        )
    }
}

/// What cancelling an order does: the order resting under the request's client
/// order id leaves the book, its margin returns to the settlement balance (stamped
/// with the exchange time) and it is answered as cancelled; with no such order, or
/// where returning the margin overflows, the request is refused and nothing changes.
pub open spec fn cancel_rel(
    pre: MockExchange,
    req: OrderRequestCancel,
    post: MockExchange,
    resp: Order<Result<Cancelled, OrderError>>,
) -> bool {
    let cid = req.key.cid@;
    let time = pre.time_exchange_latest;
    if !has_resting(pre.resting_orders@, cid) {
        &&& same_state(pre, post)
        &&& resp.key == req.key
        &&& resp.side == Side::Buy
        &&& resp.price == dec_zero()
        &&& resp.quantity == dec_zero()
        &&& resp.kind == OrderKind::Limit
        &&& resp.time_in_force == (TimeInForce::GoodUntilCancelled { post_only: false })
        &&& resp.state matches Err(OrderError::Rejected(x)) && error_is(
            x,
            ApiErrorSpec::OrderRejected(no_resting_msg(cid)),
        )
    } else {
        let k = resting_index(pre.resting_orders@, cid);
        let o = pre.resting_orders@[k];
        &&& resp.key == req.key
        &&& resp.side == o.side
        &&& resp.price == o.price
        &&& resp.quantity == o.quantity
        &&& resp.kind == o.kind
        &&& resp.time_in_force == o.time_in_force
        &&& match released(pre, o, Some(time)) {
            None => {
                &&& same_state(pre, post)
                &&& resp.state matches Err(OrderError::Rejected(x)) && error_is(
                    x,
                    ApiErrorSpec::OrderRejected(overflow_msg()),
                )
            },
            Some(bals) => {
                &&& same_setup(pre, post)
                &&& post.account.balances@ == bals
                &&& post.account.positions@ == pre.account.positions@
                &&& post.account.trades@ == pre.account.trades@
                &&& post.order_sequence == pre.order_sequence
                &&& post.resting_orders@ == pre.resting_orders@.remove(k)
                &&& resp.state == Ok::<Cancelled, OrderError>(Cancelled { id: o.order_id, time_exchange: time })
            },
        }
    }
}

/// The request a resting order stands for when it fills.
pub open spec fn request_of(o: RestingOrder) -> OrderRequestOpen {
    OrderRequestOpen {
        key: o.key,
        state: RequestOpen {
            side: o.side,
            price: o.price,
            quantity: o.quantity,
            kind: o.kind,
            time_in_force: o.time_in_force,
        },
    }
}

/// `post` is `pre` with the trade of `notif`, if any, recorded.
pub open spec fn recorded(pre: MockExchange, post: MockExchange, notif: Option<OpenOrderNotifications>) -> bool {
    &&& same_setup(pre, post)
    &&& post.account.balances@ == pre.account.balances@
    &&& post.account.positions@ == pre.account.positions@
    &&& post.resting_orders@ == pre.resting_orders@
    &&& post.order_sequence == pre.order_sequence
    &&& post.account.trades@ == match notif {
        Some(n) => pre.account.trades@.push(n.trade),
        None => pre.account.trades@,
    }
}

/// One way a resting order fills: from `pre` its margin is released into `mid`
/// (whose balances are `bals`), the order then trades at once at the maker fee rate
/// from `mid` to `done` as `spot_rel` or `perp_rel` say, and `post` records the trade.
pub open spec fn filled_as(
    pre: MockExchange,
    o: RestingOrder,
    bals: Seq<AssetBalance>,
    mid: MockExchange,
    done: MockExchange,
    resp: Order<Result<Open, OrderError>>,
    post: MockExchange,
    notif: Option<OpenOrderNotifications>,
) -> bool {
    let inst = instrument_named(pre.instruments@, o.instrument@);
    &&& same_but_balances(pre, mid)
    &&& mid.account.balances@ == bals
    &&& match inst.kind {
        InstrumentKind::Spot => spot_rel(mid, request_of(o), inst, pre.maker_fees_percent, done, resp, notif)
            && recorded(done, post, notif),
        InstrumentKind::Perpetual(c) => perp_rel(mid, request_of(o), c, pre.maker_fees_percent, done, resp, notif)
            && recorded(done, post, notif),
        InstrumentKind::Other(_) => maker_rate_left(mid, post) && notif is None,
    }
}

/// The state after a resting order on an instrument of another kind fails to
/// fill: all as before, except that the taker fee rate is left at the maker rate
/// the fill switched to.
pub open spec fn maker_rate_left(pre: MockExchange, post: MockExchange) -> bool {
    &&& post.exchange == pre.exchange
    &&& post.latency_ms == pre.latency_ms
    &&& post.taker_fees_percent == pre.maker_fees_percent
    &&& post.maker_fees_percent == pre.maker_fees_percent
    &&& post.instruments@ == pre.instruments@
    &&& post.time_exchange_latest == pre.time_exchange_latest
    &&& post.market_prices@ == pre.market_prices@
    &&& post.account.orders_open@ == pre.account.orders_open@
    &&& post.account.orders_cancelled@ == pre.account.orders_cancelled@
    &&& post.account.positions@ == pre.account.positions@
    &&& post.account.trades@ == pre.account.trades@
    &&& post.account.balances@ == pre.account.balances@
    &&& post.resting_orders@ == pre.resting_orders@
    &&& post.order_sequence == pre.order_sequence
}

/// Whether filling resting order `o` reaches an instrument that is neither spot
/// nor perpetual (its margin released), where the taker rate is left at the maker rate.
pub open spec fn fills_on_other_kind(pre: MockExchange, o: RestingOrder) -> bool {
    &&& has_instrument(pre.instruments@, o.instrument@)
    &&& released(pre, o, None) is Some
    &&& instrument_named(pre.instruments@, o.instrument@).kind is Other
}

/// What filling a resting order does: nothing where its instrument is not
/// configured or releasing its margin overflows; else its margin is released and it
/// trades at its limit price at the maker fee rate (see `filled_as`).
pub open spec fn fill_rel(pre: MockExchange, o: RestingOrder, post: MockExchange, notif: Option<OpenOrderNotifications>) -> bool {
    if !has_instrument(pre.instruments@, o.instrument@) {
        same_state(pre, post) && notif is None
    } else {
        match released(pre, o, None) {
            None => same_state(pre, post) && notif is None,
            Some(bals) => exists|mid: MockExchange, done: MockExchange, resp: Order<Result<Open, OrderError>>|
                #[trigger] filled_as(pre, o, bals, mid, done, resp, post, notif),
        }
    }
}

/// Whether a market update crosses a resting order: same instrument, and the best
/// ask at or below a buy's price, or the best bid at or above a sell's price.
pub open spec fn crosses_update(o: RestingOrder, u: MarketPriceUpdate) -> bool {
    &&& o.instrument@ == u.instrument@
    &&& match o.side {
        Side::Buy => decimal_le(u.best_ask, o.price),
        Side::Sell => decimal_ge(u.best_bid, o.price),
    }
}

/// The market prices after an update: the instrument's entry replaced, or appended.
pub open spec fn prices_after(s: Seq<MarketPrice>, u: MarketPriceUpdate) -> Seq<MarketPrice> {
    if has_price(s, u.instrument@) {
        let k = price_index(s, u.instrument@);
        s.update(k, MarketPrice { instrument: s[k].instrument, best_bid: u.best_bid, best_ask: u.best_ask })
    } else {
        s.push(MarketPrice { instrument: u.instrument, best_bid: u.best_bid, best_ask: u.best_ask })
    }
}

/// The items of the `Some`s, in order.
pub open spec fn somes<T>(s: Seq<Option<T>>) -> Seq<T>
    decreases s.len(),
{
    if s.len() == 0 {
        Seq::empty()
    } else {
        let r = somes(s.drop_last());
        match s.last() {
            Some(x) => r.push(x),
            None => r,
        }
    }
}

/// `orders` fill one after another: from `states[t]` the order `orders[t]` fills
/// into `states[t + 1]` with notifications `outs[t]`.
pub open spec fn fill_chain(
    states: Seq<MockExchange>,
    orders: Seq<RestingOrder>,
    outs: Seq<Option<OpenOrderNotifications>>,
) -> bool {
    &&& states.len() == orders.len() + 1
    &&& outs.len() == orders.len()
    &&& forall|t: int| 0 <= t < orders.len() ==> #[trigger] fill_rel(states[t], orders[t], states[t + 1], outs[t])
}

/// The resting orders a market update crosses, in book order.
pub open spec fn crossed(s: Seq<RestingOrder>, u: MarketPriceUpdate) -> Seq<RestingOrder> {
    s.filter(|o: RestingOrder| crosses_update(o, u))
}

/// The resting orders a market update leaves in the book, in book order.
pub open spec fn uncrossed(s: Seq<RestingOrder>, u: MarketPriceUpdate) -> Seq<RestingOrder> {
    s.filter(|o: RestingOrder| !crosses_update(o, u))
}

/// The state a market update leaves before any order fills: prices updated, the
/// crossed orders taken out of the book, all else as before.
pub open spec fn repriced(pre: MockExchange, u: MarketPriceUpdate, post: MockExchange) -> bool {
    &&& post.exchange == pre.exchange
    &&& post.latency_ms == pre.latency_ms
    &&& post.taker_fees_percent == pre.taker_fees_percent
    &&& post.maker_fees_percent == pre.maker_fees_percent
    &&& post.instruments@ == pre.instruments@
    &&& post.time_exchange_latest == pre.time_exchange_latest
    &&& post.account.orders_open@ == pre.account.orders_open@
    &&& post.account.orders_cancelled@ == pre.account.orders_cancelled@
    &&& post.account.balances@ == pre.account.balances@
    &&& post.account.positions@ == pre.account.positions@
    &&& post.account.trades@ == pre.account.trades@
    &&& post.order_sequence == pre.order_sequence
    &&& post.market_prices@ == prices_after(pre.market_prices@, u)
    &&& post.resting_orders@ == uncrossed(pre.resting_orders@, u)
}

/// What a market update does: prices are updated, then the resting orders it
/// crosses leave the book and fill one after another in book order, the
/// notifications of those that filled being returned in that order.
pub open spec fn market_rel(
    pre: MockExchange,
    u: MarketPriceUpdate,
    post: MockExchange,
    r: Seq<OpenOrderNotifications>,
) -> bool {
    exists|states: Seq<MockExchange>, outs: Seq<Option<OpenOrderNotifications>>|
        #[trigger] fill_chain(states, crossed(pre.resting_orders@, u), outs)
            && repriced(pre, u, states[0]) && post == states.last() && r == somes(outs)
}

impl MockExchange {
    /// Instruments, balances, positions, resting orders and prices are each keyed uniquely.
    pub open spec fn wf(&self) -> bool {
        &&& self.account.wf()
        &&& instruments_unique(self.instruments@)
        &&& resting_unique(self.resting_orders@)
        &&& prices_unique(self.market_prices@)
    }

    /// The exchange time of the latest request.
    pub fn time_exchange(&self) -> (r: Timestamp)
        ensures
            r == self.time_exchange_latest,
    {
        self.time_exchange_latest
    }

    /// The index of the instrument of that name, if configured.
    fn instrument_position(&self, name: &String) -> (r: Option<usize>)
        requires
            instruments_unique(self.instruments@),
        ensures
            r matches Some(i) ==> i < self.instruments.len() && self.instruments@[i as int].name_exchange@ == name@
                && self.instruments@[i as int] == instrument_named(self.instruments@, name@),
            r is None <==> !has_instrument(self.instruments@, name@),
    {
        let mut i: usize = 0;
        while i < self.instruments.len()
            invariant
                i <= self.instruments.len(),
                instruments_unique(self.instruments@),
                forall|j: int| 0 <= j < i ==> self.instruments@[j].name_exchange@ != name@,
            decreases self.instruments.len() - i,
        {
            if self.instruments[i].name_exchange == *name {
                proof {
                    let s = self.instruments@;
                    let c = choose|k: int| 0 <= k < s.len() && s[k].name_exchange@ == name@;
                    assert(0 <= c < s.len() && s[c].name_exchange@ == name@);
                    if c < i as int {
                        assert((|x: Instrument| x.name_exchange@)(s[c]) != (|x: Instrument| x.name_exchange@)(s[i as int]));
                    } else if c > i as int {
                        assert((|x: Instrument| x.name_exchange@)(s[i as int]) != (|x: Instrument| x.name_exchange@)(s[c]));
                    }
                }
                return Some(i);
            }
            i = i + 1;
        }
        None
    }

    /// The configured instrument of that name, or `InstrumentInvalid` naming it.
    pub fn find_instrument_data(&self, name: &String) -> (r: Result<&Instrument, ApiError>)
        requires
            instruments_unique(self.instruments@),
        ensures
            r matches Ok(inst) ==> has_instrument(self.instruments@, name@) && *inst == instrument_named(
                self.instruments@,
                name@,
            ),
            r matches Err(e) ==> !has_instrument(self.instruments@, name@) && error_is(
                e,
                ApiErrorSpec::InstrumentInvalid(name@, not_setup_msg(name@)),
            ),
    {
        match self.instrument_position(name) {
            Some(i) => Ok(&self.instruments[i]),
            None => {
                proof {
                    reveal_strlit("MockExchange is not set-up for managing: ");
                }
                let mut msg = String::from_str("MockExchange is not set-up for managing: ");
                msg.append(name.as_str());
                Err(ApiError::InstrumentInvalid(name.clone(), msg))
            },
        }
    }

    /// Takes the next order number and returns its text.
    pub(crate) fn order_id_sequence_fetch_add(&mut self) -> (r: String)
        requires
            old(self).order_sequence < u64::MAX,
        ensures
            r@ == decimal_text(old(self).order_sequence as nat),
            final(self).order_sequence == old(self).order_sequence + 1,
            final(self).account == old(self).account,
            final(self).instruments == old(self).instruments,
            final(self).resting_orders == old(self).resting_orders,
            final(self).market_prices == old(self).market_prices,
            final(self).time_exchange_latest == old(self).time_exchange_latest,
            final(self).exchange == old(self).exchange,
            final(self).latency_ms == old(self).latency_ms,
            final(self).taker_fees_percent == old(self).taker_fees_percent,
            final(self).maker_fees_percent == old(self).maker_fees_percent,
    {
        let sequence = self.order_sequence;
        self.order_sequence = sequence + 1;
        u64_text(sequence)
    }
}

/// The refusal of a request with `error`, echoing the request.
pub fn build_open_order_err_response(req: &OrderRequestOpen, error: ApiError) -> (r: Order<Result<Open, OrderError>>)
    ensures
        echoes(r, *req),
        r.state == Err::<Open, OrderError>(OrderError::Rejected(error)),
{
    Order {
        key: req.key.copy(),
        side: req.state.side,
        price: req.state.price,
        quantity: req.state.quantity,
        kind: req.state.kind,
        time_in_force: req.state.time_in_force,
        state: Err(OrderError::Rejected(error)),
    }
}


/// Law: a market update crosses exactly the resting orders of its own instrument
/// whose limit it reaches: a buy when the best ask is at or below its price, a sell
/// when the best bid is at or above its price. Those leave the book to fill; every
/// other order (another instrument, or a limit not reached) stays in it.
pub proof fn law_update_crosses_orders_its_prices_reach(s: Seq<RestingOrder>, u: MarketPriceUpdate, i: int)
    requires
        0 <= i < s.len(),
    ensures
        ({
            let o = s[i];
            let reached = o.instrument@ == u.instrument@ && match o.side {
                Side::Buy => decimal_le(u.best_ask, o.price),
                Side::Sell => decimal_ge(u.best_bid, o.price),
            };
            &&& crossed(s, u).contains(o) <==> reached
            &&& uncrossed(s, u).contains(o) <==> !reached
        }),
{
    broadcast use vstd::seq_lib::group_filter_ensures;
    let o = s[i];
    assert(s.contains(o));
    let p = |x: RestingOrder| crosses_update(x, u);
    let q = |x: RestingOrder| !crosses_update(x, u);
    if crosses_update(o, u) {
        assert(p(o));
        assert(s.filter(p).contains(o));
        if s.filter(q).contains(o) {
            s.lemma_filter_contains_rev(q, o);
        }
    } else {
        assert(q(o));
        assert(s.filter(q).contains(o));
        if s.filter(p).contains(o) {
            s.lemma_filter_contains_rev(p, o);
        }
    }
}

} // verus!
