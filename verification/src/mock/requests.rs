//! Building a mock exchange, its clock, and the requests it answers.
use super::account::{
    balance_assets_unique, balances_at_time, cancelled_orders_at_time, open_orders_at_time, AccountState,
};
use super::exchange::{
    cancel_rel, instruments_unique, open_rel, recorded, MarketPriceUpdate, MockExchange,
};
use super::order::{
    AssetBalance, Cancelled, Open, OpenOrderNotifications, Order, OrderError, OrderRequestCancel, OrderRequestOpen,
    Trade,
};
use super::plan::Instrument;
use super::snapshot::{snapshot_of, AccountSnapshot};
use super::account::trades_since_spec;
use crate::books::OrderBookL1;
use crate::exchange_id::ExchangeId;
use crate::keyed::unique_by;
use crate::time::{checked_plus_millis, time_plus_millis, Timestamp};
use rust_decimal::Decimal;
use vstd::prelude::*;

verus! {

/// How a mock exchange is set up: which exchange it stands for, the account it
/// starts with, its latency and its fee rates.
#[derive(Clone, Debug, PartialEq)]
pub struct MockExecutionConfig {
    pub mocked_exchange: ExchangeId,
    pub initial_state: AccountState,
    pub latency_ms: u64,
    pub taker_fees_percent: Decimal,
    pub maker_fees_percent: Decimal,
}

impl MockExecutionConfig {
    /// The configuration of the given parts.
    pub fn new(
        mocked_exchange: ExchangeId,
        initial_state: AccountState,
        latency_ms: u64,
        taker_fees_percent: Decimal,
        maker_fees_percent: Decimal,
    ) -> (r: Self)
        ensures
            r == (MockExecutionConfig {
                mocked_exchange,
                initial_state,
                latency_ms,
                taker_fees_percent,
                maker_fees_percent,
            }),
    {
        MockExecutionConfig { mocked_exchange, initial_state, latency_ms, taker_fees_percent, maker_fees_percent }
    }
}

/// The exchange time of a request sent at `time_request`: half the round-trip
/// latency later, or `time_request` itself where that cannot be represented.
pub open spec fn exchange_time(latency_ms: u64, time_request: Timestamp) -> Timestamp {
    match time_plus_millis(time_request.secs, time_request.nanos, (latency_ms / 2) as i64) {
        Some(t) => t,
        None => time_request,
    }
}

/// Whether a text is among the texts of `s`.
pub open spec fn text_in(s: Seq<String>, t: Seq<char>) -> bool {
    exists|k: int| 0 <= k < s.len() && s[k]@ == t
}

/// Whether `t` is among the texts of `s`.
fn contains_text(s: &Vec<String>, t: &String) -> (r: bool)
    ensures
        r == text_in(s@, t@),
{
    let mut k: usize = 0;
    while k < s.len()
        invariant
            k <= s.len(),
            forall|j: int| 0 <= j < k ==> s@[j]@ != t@,
        decreases s.len() - k,
    {
        if s[k] == *t {
            return true;
        }
        k = k + 1;
    }
    false
}

/// A request to a mock exchange, its reply channel aside.
#[derive(Clone, Debug, PartialEq)]
pub enum MockExchangeRequestKind {
    FetchAccountSnapshot,
    FetchBalances { assets: Vec<String> },
    FetchOrdersOpen { instruments: Vec<String> },
    FetchTrades { time_since: Timestamp },
    CancelOrder { request: OrderRequestCancel },
    OpenOrder { request: OrderRequestOpen },
}

/// The answer of a mock exchange to a request.
#[derive(Clone, Debug, PartialEq)]
pub enum MockExchangeResponse {
    AccountSnapshot(AccountSnapshot),
    Balances(Vec<AssetBalance>),
    OrdersOpen(Vec<Order<Open>>),
    Trades(Vec<Trade>),
    CancelOrder(Order<Result<Cancelled, OrderError>>),
    OpenOrder(Order<Result<Open, OrderError>>, Option<OpenOrderNotifications>),
}

/// The balances of the listed assets, in account order.
pub open spec fn balances_of(s: Seq<AssetBalance>, assets: Seq<String>) -> Seq<AssetBalance> {
    s.filter(|b: AssetBalance| text_in(assets, b.asset@))
}

/// The open orders on the listed instruments, in account order.
pub open spec fn orders_open_of(s: Seq<Order<Open>>, instruments: Seq<String>) -> Seq<Order<Open>> {
    s.filter(|o: Order<Open>| text_in(instruments, o.key.instrument@))
}

/// The state is unchanged.
pub open spec fn unchanged(a: MockExchange, b: MockExchange) -> bool {
    super::exchange::same_state(a, b)
}

/// What answering a request does (see `MockExchange::handle_request`).
pub open spec fn request_rel(
    pre: MockExchange,
    kind: MockExchangeRequestKind,
    post: MockExchange,
    r: MockExchangeResponse,
) -> bool {
    match kind {
        MockExchangeRequestKind::FetchAccountSnapshot => unchanged(pre, post)
            && (r matches MockExchangeResponse::AccountSnapshot(s) && snapshot_of(pre, s)),
        MockExchangeRequestKind::FetchBalances { assets } => unchanged(pre, post)
            && (r matches MockExchangeResponse::Balances(b) && b@ == balances_of(pre.account.balances@, assets@)),
        MockExchangeRequestKind::FetchOrdersOpen { instruments } => unchanged(pre, post)
            && (r matches MockExchangeResponse::OrdersOpen(o) && o@ == orders_open_of(
            pre.account.orders_open@,
            instruments@,
        )),
        MockExchangeRequestKind::FetchTrades { time_since } => unchanged(pre, post)
            && (r matches MockExchangeResponse::Trades(t) && t@ == trades_since_spec(pre.account.trades@, time_since)),
        MockExchangeRequestKind::CancelOrder { request } => r matches MockExchangeResponse::CancelOrder(c)
            && cancel_rel(pre, request, post, c),
        MockExchangeRequestKind::OpenOrder { request } => r matches MockExchangeResponse::OpenOrder(resp, notif)
            && exists|mid: MockExchange| #[trigger] open_rel(pre, request, mid, resp, notif) && recorded(mid, post, notif),
    }
}

impl MockExchange {
    /// A mock exchange with the given configuration and instruments, keyed by
    /// their exchange names: no order taken yet, the clock at the Unix epoch, no
    /// resting orders and no market prices.
    pub fn new(config: MockExecutionConfig, instruments: Vec<Instrument>) -> (r: Self)
        requires
            config.initial_state.wf(),
            instruments_unique(instruments@),
        ensures
            r.wf(),
            r.exchange == config.mocked_exchange,
            r.latency_ms == config.latency_ms,
            r.taker_fees_percent == config.taker_fees_percent,
            r.maker_fees_percent == config.maker_fees_percent,
            r.instruments == instruments,
            r.account == config.initial_state,
            r.order_sequence == 0,
            r.time_exchange_latest == (Timestamp { secs: 0, nanos: 0 }),
            r.resting_orders@.len() == 0,
            r.market_prices@.len() == 0,
    {
        MockExchange {
            exchange: config.mocked_exchange,
            latency_ms: config.latency_ms,
            taker_fees_percent: config.taker_fees_percent,
            maker_fees_percent: config.maker_fees_percent,
            instruments,
            account: config.initial_state,
            order_sequence: 0,
            time_exchange_latest: Timestamp::epoch(),
            resting_orders: Vec::new(),
            market_prices: Vec::new(),
        }
    }

    /// Sets the exchange clock for a request sent at `time_request` (see
    /// `exchange_time`) and stamps every balance and order with it.
    pub fn update_time_exchange(&mut self, time_request: Timestamp)
        requires
            old(self).wf(),
        ensures
            final(self).wf(),
            final(self).time_exchange_latest == exchange_time(old(self).latency_ms, time_request),
            final(self).account.balances@ == balances_at_time(
                old(self).account.balances@,
                final(self).time_exchange_latest,
            ),
            final(self).account.orders_open@ == open_orders_at_time(
                old(self).account.orders_open@,
                final(self).time_exchange_latest,
            ),
            final(self).account.orders_cancelled@ == cancelled_orders_at_time(
                old(self).account.orders_cancelled@,
                final(self).time_exchange_latest,
            ),
            final(self).account.positions == old(self).account.positions,
            final(self).account.trades == old(self).account.trades,
            final(self).instruments == old(self).instruments,
            final(self).resting_orders == old(self).resting_orders,
            final(self).market_prices == old(self).market_prices,
            final(self).order_sequence == old(self).order_sequence,
            final(self).exchange == old(self).exchange,
            final(self).latency_ms == old(self).latency_ms,
            final(self).taker_fees_percent == old(self).taker_fees_percent,
            final(self).maker_fees_percent == old(self).maker_fees_percent,
    {
        let half: u64 = self.latency_ms / 2;
        let ms: i64 = half as i64;
        let t = match checked_plus_millis(time_request, ms) {
            Some(t) => t,
            None => time_request,
        };
        self.time_exchange_latest = t;
        let ghost before = self.account.balances@;
        self.account.update_time_exchange(t);
        proof {
            let after = self.account.balances@;
            assert forall|a: int, b: int| 0 <= a < b < after.len() implies (|x: AssetBalance| x.asset@)(after[a])
                != (|x: AssetBalance| x.asset@)(after[b]) by {
                assert(after[a].asset == before[a].asset);
                assert(after[b].asset == before[b].asset);
                assert((|x: AssetBalance| x.asset@)(before[a]) != (|x: AssetBalance| x.asset@)(before[b]));
            }
        }
    }

    /// The balances of the listed assets, in account order.
    pub fn fetch_balances(&self, assets: &Vec<String>) -> (r: Vec<AssetBalance>)
        ensures
            r@ == balances_of(self.account.balances@, assets@),
    {
        let s = &self.account.balances;
        let mut r: Vec<AssetBalance> = Vec::new();
        let mut i: usize = 0;
        while i < s.len()
            invariant
                i <= s.len(),
                r@ == balances_of(s@.take(i as int), assets@),
            decreases s.len() - i,
        {
            proof {
                reveal_with_fuel(Seq::filter, 1);
                assert(s@.take(i as int + 1).drop_last() =~= s@.take(i as int));
            }
            if contains_text(assets, &s[i].asset) {
                r.push(s[i].copy());
            }
            i = i + 1;
        }
        proof {
            assert(s@.take(s.len() as int) =~= s@);
        }
        r
    }

    /// The open orders on the listed instruments, in account order.
    pub fn fetch_orders_open(&self, instruments: &Vec<String>) -> (r: Vec<Order<Open>>)
        ensures
            r@ == orders_open_of(self.account.orders_open@, instruments@),
    {
        let s = &self.account.orders_open;
        let mut r: Vec<Order<Open>> = Vec::new();
        let mut i: usize = 0;
        while i < s.len()
            invariant
                i <= s.len(),
                r@ == orders_open_of(s@.take(i as int), instruments@),
            decreases s.len() - i,
        {
            proof {
                reveal_with_fuel(Seq::filter, 1);
                assert(s@.take(i as int + 1).drop_last() =~= s@.take(i as int));
            }
            if contains_text(instruments, &s[i].key.instrument) {
                r.push(s[i].copy());
            }
            i = i + 1;
        }
        proof {
            assert(s@.take(s.len() as int) =~= s@);
        }
        r
    }

    /// Answers a request (see `request_rel`): fetches read the account, a cancel
    /// goes through `cancel_order`, and an open goes through `open_order`, the trade
    /// of an order that filled being recorded in the account.
    pub fn handle_request(&mut self, kind: MockExchangeRequestKind) -> (r: MockExchangeResponse)
        requires
            old(self).wf(),
            old(self).order_sequence < u64::MAX,
        ensures
            final(self).wf(),
            request_rel(*old(self), kind, *final(self), r),
    {
        match kind {
            MockExchangeRequestKind::FetchAccountSnapshot => MockExchangeResponse::AccountSnapshot(
                self.account_snapshot(),
            ),
            MockExchangeRequestKind::FetchBalances { assets } => MockExchangeResponse::Balances(
                self.fetch_balances(&assets),
            ),
            MockExchangeRequestKind::FetchOrdersOpen { instruments } => MockExchangeResponse::OrdersOpen(
                self.fetch_orders_open(&instruments),
            ),
            MockExchangeRequestKind::FetchTrades { time_since } => MockExchangeResponse::Trades(
                self.account.trades_since(&time_since),
            ),
            MockExchangeRequestKind::CancelOrder { request } => MockExchangeResponse::CancelOrder(
                self.cancel_order(request),
            ),
            MockExchangeRequestKind::OpenOrder { request } => {
                let ghost req = request;
                let (resp, notif) = self.open_order(request);
                let ghost mid = *self;
                match &notif {
                    Some(n) => self.account.ack_trade(n.trade.copy()),
                    None => {},
                }
                proof {
                    assert(open_rel(*old(self), req, mid, resp, notif) && recorded(mid, *self, notif));
                }
                MockExchangeResponse::OpenOrder(resp, notif)
            },
        }
    }
}

impl MarketPriceUpdate {
    /// The best bid and ask of an L1 book as a market update for `instrument`;
    /// `None` unless both sides are present.
    pub fn from_l1(instrument: String, l1: &OrderBookL1) -> (r: Option<Self>)
        ensures
            r is Some <==> (l1.best_bid is Some && l1.best_ask is Some),
            r matches Some(u) ==> u.instrument == instrument && u.best_bid == l1.best_bid->0.price && u.best_ask
                == l1.best_ask->0.price,
    {
        let best_bid = match l1.best_bid {
            Some(b) => b.price,
            None => return None,
        };
        let best_ask = match l1.best_ask {
            Some(a) => a.price,
            None => return None,
        };
        Some(MarketPriceUpdate { instrument, best_bid, best_ask })
    }
}

} // verus!
