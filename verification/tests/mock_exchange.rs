use barter::books::{Level, OrderBookL1};
use barter::exchange_id::ExchangeId;
use barter::mock::account::AccountState;
use barter::mock::exchange::{MarketPriceUpdate, MockExchange};
use barter::mock::order::{
    ApiError, AssetBalance, Balance, Order, OrderError, OrderKey, OrderKind, OrderRequestCancel, OrderRequestOpen,
    RequestOpen, TimeInForce,
};
use barter::mock::plan::{Instrument, InstrumentKind, PerpetualContract, Underlying};
use barter::mock::requests::{MockExchangeRequestKind, MockExchangeResponse, MockExecutionConfig};
use barter::mock::snapshot::OrderState;
use barter::side::Side;
use barter::time::Timestamp;
use rust_decimal::Decimal;

fn ts(secs: i64) -> Timestamp {
    Timestamp { secs, nanos: 0 }
}

fn balance(asset: &str, amount: Decimal) -> AssetBalance {
    AssetBalance { asset: asset.to_string(), balance: Balance { total: amount, free: amount }, time_exchange: ts(1) }
}

fn mock_spot_instrument() -> Instrument {
    Instrument {
        name_exchange: "BTC-USD".to_string(),
        underlying: Underlying { base: "btc".to_string(), quote: "usd".to_string() },
        kind: InstrumentKind::Spot,
    }
}

fn mock_perpetual_instrument() -> Instrument {
    Instrument {
        name_exchange: "BTC-PERPETUAL".to_string(),
        underlying: Underlying { base: "btc".to_string(), quote: "usd".to_string() },
        kind: InstrumentKind::Perpetual(PerpetualContract {
            contract_size: Decimal::ONE,
            settlement_asset: "usd".to_string(),
        }),
    }
}

fn config(balances: Vec<AssetBalance>) -> MockExecutionConfig {
    MockExecutionConfig::new(
        ExchangeId::Deribit,
        AccountState::from_balances(balances),
        10,
        Decimal::from(1) / Decimal::from(1000),
        Decimal::from(5) / Decimal::from(10000),
    )
}

fn make_mock_exchange_spot(btc_balance: Decimal, usd_balance: Decimal) -> MockExchange {
    MockExchange::new(
        config(vec![balance("btc", btc_balance), balance("usd", usd_balance)]),
        vec![mock_spot_instrument()],
    )
}

fn make_mock_exchange_perpetual(usd_balance: Decimal) -> MockExchange {
    MockExchange::new(config(vec![balance("usd", usd_balance)]), vec![mock_perpetual_instrument()])
}

fn make_open_request_for_instrument(
    instrument: &str,
    cid: &str,
    side: Side,
    price: Decimal,
    quantity: Decimal,
) -> OrderRequestOpen {
    OrderRequestOpen {
        key: OrderKey {
            exchange: ExchangeId::Deribit,
            instrument: instrument.to_string(),
            strategy: "test".to_string(),
            cid: cid.to_string(),
        },
        state: RequestOpen { side, price, quantity, kind: OrderKind::Market, time_in_force: TimeInForce::ImmediateOrCancel },
    }
}

fn make_open_request(cid: &str, side: Side, price: Decimal, quantity: Decimal) -> OrderRequestOpen {
    make_open_request_for_instrument("BTC-USD", cid, side, price, quantity)
}

fn limit(mut request: OrderRequestOpen) -> OrderRequestOpen {
    request.state.kind = OrderKind::Limit;
    request.state.time_in_force = TimeInForce::GoodUntilCancelled { post_only: true };
    request
}

fn free_of(exchange: &MockExchange, asset: &str) -> Decimal {
    let i = exchange.account.find_balance(&asset.to_string()).unwrap();
    exchange.account.balances[i].balance.free
}

fn position_of(exchange: &MockExchange, instrument: &str) -> Option<barter::mock::account::MockPosition> {
    exchange.account.find_position(&instrument.to_string()).map(|i| exchange.account.positions[i].position)
}

fn prices(exchange: &mut MockExchange, bid: i64, ask: i64) {
    exchange.handle_market_update(MarketPriceUpdate {
        instrument: "BTC-PERPETUAL".to_string(),
        best_bid: Decimal::from(bid),
        best_ask: Decimal::from(ask),
    });
}

fn cancel(cid: &str) -> OrderRequestCancel {
    OrderRequestCancel {
        key: OrderKey {
            exchange: ExchangeId::Deribit,
            instrument: "BTC-PERPETUAL".to_string(),
            strategy: "test".to_string(),
            cid: cid.to_string(),
        },
        id: None,
    }
}

#[test]
fn spot_sell_deducts_from_base_balance_not_quote() {
    let mut exchange = make_mock_exchange_spot(Decimal::from(1), Decimal::from(0));
    let request = make_open_request("c1", Side::Sell, Decimal::from(50000), Decimal::from(5) / Decimal::from(10));

    let (response, notifications) = exchange.open_order(request);

    assert!(response.state.is_ok(), "sell should succeed when base balance is sufficient");
    assert!(notifications.is_some(), "should produce trade notifications");
    assert!(free_of(&exchange, "btc") < Decimal::from(1), "BTC balance should have decreased");
}

#[test]
fn spot_sell_fails_when_base_balance_insufficient() {
    let mut exchange = make_mock_exchange_spot(Decimal::from(0), Decimal::from(100000));
    let request = make_open_request("c1", Side::Sell, Decimal::from(50000), Decimal::from(5) / Decimal::from(10));

    let (response, notifications) = exchange.open_order(request);

    assert!(response.state.is_err(), "sell should fail when base balance is insufficient");
    assert!(notifications.is_none());
}

#[test]
fn spot_buy_exact_amounts() {
    let mut exchange = make_mock_exchange_spot(Decimal::from(0), Decimal::from(100000));
    let (response, notifications) =
        exchange.open_order(make_open_request("c1", Side::Buy, Decimal::from(50000), Decimal::from(1)));
    let open = response.state.unwrap();
    assert_eq!(open.id, "0");
    assert_eq!(open.filled_quantity, Decimal::from(1));
    // 100000 - 50000 - 50 fees
    assert_eq!(free_of(&exchange, "usd"), Decimal::from(49950));
    let n = notifications.unwrap();
    assert_eq!(n.balance.balance.total, Decimal::from(49950));
    assert_eq!(n.trade.fees, Decimal::from(50));
    assert_eq!(n.trade.id, "0");
    assert_eq!(exchange.order_sequence, 1);
}

#[test]
fn spot_buy_insufficient_message() {
    let mut exchange = make_mock_exchange_spot(Decimal::from(0), Decimal::from(100));
    let (response, _) = exchange.open_order(make_open_request("c1", Side::Buy, Decimal::from(50000), Decimal::from(1)));
    match response.state {
        Err(OrderError::Rejected(ApiError::BalanceInsufficient(asset, message))) => {
            assert_eq!(asset, "usd");
            assert_eq!(message, "Available Balance: 100, Required Balance inc. fees: 50050.000");
        }
        other => panic!("unexpected {other:?}"),
    }
    assert_eq!(free_of(&exchange, "usd"), Decimal::from(100));
    assert_eq!(exchange.order_sequence, 0);
}

#[test]
fn unknown_instrument_is_refused() {
    let mut exchange = make_mock_exchange_spot(Decimal::from(1), Decimal::from(1));
    let (response, _) =
        exchange.open_order(make_open_request_for_instrument("ETH-USD", "c1", Side::Buy, Decimal::from(1), Decimal::from(1)));
    match response.state {
        Err(OrderError::Rejected(ApiError::InstrumentInvalid(name, message))) => {
            assert_eq!(name, "ETH-USD");
            assert_eq!(message, "MockExchange is not set-up for managing: ETH-USD");
        }
        other => panic!("unexpected {other:?}"),
    }
}

#[test]
fn unsupported_instrument_kind_is_refused() {
    let inst = Instrument {
        name_exchange: "BTC-OPT".to_string(),
        underlying: Underlying { base: "btc".to_string(), quote: "usd".to_string() },
        kind: InstrumentKind::Other("Option".to_string()),
    };
    let mut exchange = MockExchange::new(config(vec![balance("usd", Decimal::from(10))]), vec![inst]);
    let (response, _) =
        exchange.open_order(make_open_request_for_instrument("BTC-OPT", "c1", Side::Buy, Decimal::from(1), Decimal::from(1)));
    match response.state {
        Err(OrderError::Rejected(ApiError::OrderRejected(message))) => {
            assert_eq!(message, "MockExchange does not support instrument kind: Option");
        }
        other => panic!("unexpected {other:?}"),
    }
}

#[test]
fn market_price_update_from_l1_with_both_sides() {
    let l1 = OrderBookL1::new(
        ts(1),
        Some(Level::new(Decimal::from(49000), Decimal::from(1))),
        Some(Level::new(Decimal::from(51000), Decimal::from(1))),
    );

    let update = MarketPriceUpdate::from_l1("BTC-PERPETUAL".to_string(), &l1);

    assert!(update.is_some());
    let update = update.unwrap();
    assert_eq!(update.best_bid, Decimal::from(49000));
    assert_eq!(update.best_ask, Decimal::from(51000));
}

#[test]
fn market_price_update_from_l1_missing_side_returns_none() {
    let l1 = OrderBookL1::new(ts(1), Some(Level::new(Decimal::from(49000), Decimal::from(1))), None);

    let update = MarketPriceUpdate::from_l1("BTC-PERPETUAL".to_string(), &l1);

    assert!(update.is_none());
}

#[test]
fn perpetual_buy_opens_long_position_and_deducts_margin() {
    let mut exchange = make_mock_exchange_perpetual(Decimal::from(100000));
    let request = make_open_request_for_instrument("BTC-PERPETUAL", "c1", Side::Buy, Decimal::from(50000), Decimal::from(1));

    let (response, notifications) = exchange.open_order(request);

    assert!(response.state.is_ok(), "buy perpetual should succeed with sufficient margin");
    assert!(notifications.is_some());
    assert!(free_of(&exchange, "usd") < Decimal::from(100000), "USD balance should decrease for margin");

    let pos = position_of(&exchange, "BTC-PERPETUAL").expect("should have a position");
    assert_eq!(pos.side, Side::Buy);
    assert_eq!(pos.quantity_abs, Decimal::from(1));
    assert_eq!(pos.entry_price, Decimal::from(50000));
}

#[test]
fn perpetual_sell_to_close_long_credits_pnl() {
    let mut exchange = make_mock_exchange_perpetual(Decimal::from(100000));

    let buy_request = make_open_request_for_instrument("BTC-PERPETUAL", "c1", Side::Buy, Decimal::from(50000), Decimal::from(1));
    let (buy_resp, _) = exchange.open_order(buy_request);
    assert!(buy_resp.state.is_ok());

    let balance_after_open = free_of(&exchange, "usd");

    let sell_request = make_open_request_for_instrument("BTC-PERPETUAL", "c2", Side::Sell, Decimal::from(51000), Decimal::from(1));
    let (sell_resp, _) = exchange.open_order(sell_request);
    assert!(sell_resp.state.is_ok());

    assert!(position_of(&exchange, "BTC-PERPETUAL").is_none(), "position should be closed after offsetting trade");

    let balance_after_close = free_of(&exchange, "usd");
    assert!(balance_after_close > balance_after_open, "should have profit after closing at higher price");
}

#[test]
fn perpetual_round_trip_exact_balance() {
    let mut exchange = make_mock_exchange_perpetual(Decimal::from(100000));
    exchange.open_order(make_open_request_for_instrument("BTC-PERPETUAL", "c1", Side::Buy, Decimal::from(50000), Decimal::from(1)));
    // margin 50000 + fees 50
    assert_eq!(free_of(&exchange, "usd"), Decimal::from(49950));
    exchange.open_order(make_open_request_for_instrument("BTC-PERPETUAL", "c2", Side::Sell, Decimal::from(51000), Decimal::from(1)));
    // + returned margin 50000 + pnl 1000 - fees 51
    assert_eq!(free_of(&exchange, "usd"), Decimal::from(100899));
}

#[test]
fn perpetual_flip_and_partial_close() {
    let mut exchange = make_mock_exchange_perpetual(Decimal::from(1000000));
    exchange.open_order(make_open_request_for_instrument("BTC-PERPETUAL", "c1", Side::Buy, Decimal::from(100), Decimal::from(4)));
    exchange.open_order(make_open_request_for_instrument("BTC-PERPETUAL", "c2", Side::Buy, Decimal::from(200), Decimal::from(4)));
    let pos = position_of(&exchange, "BTC-PERPETUAL").unwrap();
    assert_eq!(pos.quantity_abs, Decimal::from(8));
    assert_eq!(pos.entry_price, Decimal::from(150));
    exchange.open_order(make_open_request_for_instrument("BTC-PERPETUAL", "c3", Side::Sell, Decimal::from(150), Decimal::from(3)));
    let pos = position_of(&exchange, "BTC-PERPETUAL").unwrap();
    assert_eq!(pos.side, Side::Buy);
    assert_eq!(pos.quantity_abs, Decimal::from(5));
    assert_eq!(pos.entry_price, Decimal::from(150));
    exchange.open_order(make_open_request_for_instrument("BTC-PERPETUAL", "c4", Side::Sell, Decimal::from(160), Decimal::from(7)));
    let pos = position_of(&exchange, "BTC-PERPETUAL").unwrap();
    assert_eq!(pos.side, Side::Sell);
    assert_eq!(pos.quantity_abs, Decimal::from(2));
    assert_eq!(pos.entry_price, Decimal::from(160));
}

#[test]
fn limit_order_rests_when_not_crossing_spread() {
    let mut exchange = make_mock_exchange_perpetual(Decimal::from(100000));
    prices(&mut exchange, 49000, 51000);

    let request = limit(make_open_request_for_instrument("BTC-PERPETUAL", "c1", Side::Buy, Decimal::from(49500), Decimal::from(1)));
    let (response, notifications) = exchange.open_order(request);

    let open = response.state.unwrap();
    assert_eq!(open.filled_quantity, Decimal::ZERO, "limit order should rest, not fill");
    assert!(notifications.is_none(), "resting order should not produce trade notifications");
    assert_eq!(exchange.resting_orders.len(), 1);
}

#[test]
fn limit_order_without_prices_rests() {
    let mut exchange = make_mock_exchange_perpetual(Decimal::from(100000));
    let request = limit(make_open_request_for_instrument("BTC-PERPETUAL", "c1", Side::Sell, Decimal::from(1), Decimal::from(1)));
    let (response, _) = exchange.open_order(request);
    assert_eq!(response.state.unwrap().filled_quantity, Decimal::ZERO);
    assert_eq!(exchange.resting_orders.len(), 1);
    assert_eq!(exchange.resting_orders[0].frozen_margin, Decimal::from(1));
    assert_eq!(free_of(&exchange, "usd"), Decimal::from(99999));
}

#[test]
fn limit_order_fills_when_market_price_crosses() {
    let mut exchange = make_mock_exchange_perpetual(Decimal::from(100000));
    prices(&mut exchange, 49000, 51000);

    let request = limit(make_open_request_for_instrument("BTC-PERPETUAL", "c1", Side::Buy, Decimal::from(49500), Decimal::from(1)));
    let (response, _) = exchange.open_order(request);
    assert_eq!(response.state.unwrap().filled_quantity, Decimal::ZERO);

    let notifications = exchange.handle_market_update(MarketPriceUpdate {
        instrument: "BTC-PERPETUAL".to_string(),
        best_bid: Decimal::from(49300),
        best_ask: Decimal::from(49400),
    });
    assert_eq!(notifications.len(), 1);
    assert_eq!(exchange.account.trades.len(), 1);

    assert_eq!(exchange.resting_orders.len(), 0, "order should be filled and removed");

    let pos = position_of(&exchange, "BTC-PERPETUAL").expect("should have position after fill");
    assert_eq!(pos.side, Side::Buy);
    assert_eq!(pos.quantity_abs, Decimal::from(1));
    assert_eq!(pos.entry_price, Decimal::from(49500), "should fill at limit price, not market price");
    // maker fee: 49500 * 0.0005
    assert_eq!(notifications[0].trade.fees, Decimal::from_str_exact("24.75").unwrap());
}

#[test]
fn limit_order_crosses_spread_fills_immediately() {
    let mut exchange = make_mock_exchange_perpetual(Decimal::from(100000));
    prices(&mut exchange, 49000, 50000);

    let request = limit(make_open_request_for_instrument("BTC-PERPETUAL", "c1", Side::Buy, Decimal::from(50500), Decimal::from(1)));
    let (response, notifications) = exchange.open_order(request);

    let open = response.state.unwrap();
    assert_eq!(open.filled_quantity, Decimal::from(1), "crossing limit should fill immediately");
    assert!(notifications.is_some(), "immediate fill should produce trade notifications");
    assert_eq!(exchange.resting_orders.len(), 0, "should not rest after immediate fill");
}

#[test]
fn cancel_resting_order_succeeds() {
    let mut exchange = make_mock_exchange_perpetual(Decimal::from(100000));
    prices(&mut exchange, 49000, 51000);

    let request = limit(make_open_request_for_instrument("BTC-PERPETUAL", "c1", Side::Buy, Decimal::from(49500), Decimal::from(1)));
    let (response, _) = exchange.open_order(request);
    assert!(response.state.is_ok());
    assert_eq!(exchange.resting_orders.len(), 1);

    let balance_after_order = free_of(&exchange, "usd");

    let cancel_response = exchange.cancel_order(cancel("c1"));

    assert!(cancel_response.state.is_ok(), "cancel should succeed for resting order");
    assert_eq!(exchange.resting_orders.len(), 0);

    let balance_after_cancel = free_of(&exchange, "usd");
    assert!(balance_after_cancel > balance_after_order, "margin should be returned");
    assert_eq!(balance_after_cancel, Decimal::from(100000));
}

#[test]
fn cancel_nonexistent_order_returns_error() {
    let mut exchange = make_mock_exchange_perpetual(Decimal::from(100000));

    let cancel_response = exchange.cancel_order(cancel("missing"));

    assert!(cancel_response.state.is_err(), "cancel should fail for nonexistent order");
    match cancel_response.state {
        Err(OrderError::Rejected(ApiError::OrderRejected(m))) => assert_eq!(m, "No resting order found with cid: missing"),
        other => panic!("unexpected {other:?}"),
    }
}

#[test]
fn full_lifecycle_rest_fill_close_cancel() {
    let mut exchange = make_mock_exchange_perpetual(Decimal::from(100000));
    let initial_balance = Decimal::from(100000);

    prices(&mut exchange, 49000, 51000);

    let buy = limit(make_open_request_for_instrument("BTC-PERPETUAL", "buy", Side::Buy, Decimal::from(49500), Decimal::from(5) / Decimal::from(10)));
    let (buy_resp, _) = exchange.open_order(buy);
    assert!(buy_resp.state.is_ok());
    assert_eq!(exchange.resting_orders.len(), 1);
    assert!(free_of(&exchange, "usd") < initial_balance, "margin should be frozen for buy order");

    prices(&mut exchange, 49300, 49400);
    assert_eq!(exchange.resting_orders.len(), 0);
    let pos = position_of(&exchange, "BTC-PERPETUAL");
    assert!(pos.is_some());
    assert_eq!(pos.unwrap().side, Side::Buy);

    let sell = limit(make_open_request_for_instrument("BTC-PERPETUAL", "sell", Side::Sell, Decimal::from(50500), Decimal::from(5) / Decimal::from(10)));
    let (sell_resp, _) = exchange.open_order(sell);
    assert!(sell_resp.state.is_ok());
    assert_eq!(exchange.resting_orders.len(), 1);

    let cancel_resp = exchange.cancel_order(cancel("sell"));
    assert!(cancel_resp.state.is_ok());
    assert_eq!(exchange.resting_orders.len(), 0);
    assert!(position_of(&exchange, "BTC-PERPETUAL").is_some(), "position should still be open after cancel");

    let sell2 = limit(make_open_request_for_instrument("BTC-PERPETUAL", "sell2", Side::Sell, Decimal::from(51500), Decimal::from(5) / Decimal::from(10)));
    let (sell2_resp, _) = exchange.open_order(sell2);
    assert!(sell2_resp.state.is_ok());

    prices(&mut exchange, 51600, 51700);

    assert!(position_of(&exchange, "BTC-PERPETUAL").is_none(), "position should be closed after sell fill");
    assert_eq!(exchange.resting_orders.len(), 0);

    let final_balance = free_of(&exchange, "usd");
    assert!(final_balance > initial_balance - Decimal::from(500), "should have profit after full round trip");
}

#[test]
fn resting_under_same_cid_replaces() {
    let mut exchange = make_mock_exchange_perpetual(Decimal::from(100000));
    let a = limit(make_open_request_for_instrument("BTC-PERPETUAL", "same", Side::Buy, Decimal::from(10), Decimal::from(1)));
    let b = limit(make_open_request_for_instrument("BTC-PERPETUAL", "same", Side::Buy, Decimal::from(20), Decimal::from(1)));
    exchange.open_order(a);
    exchange.open_order(b);
    assert_eq!(exchange.resting_orders.len(), 1);
    assert_eq!(exchange.resting_orders[0].price, Decimal::from(20));
    assert_eq!(exchange.resting_orders[0].order_id, "1");
}

#[test]
fn clock_and_requests() {
    let mut exchange = make_mock_exchange_spot(Decimal::from(2), Decimal::from(100000));
    exchange.update_time_exchange(Timestamp { secs: 100, nanos: 0 });
    // half of the 10 ms latency
    assert_eq!(exchange.time_exchange(), Timestamp { secs: 100, nanos: 5_000_000 });
    assert!(exchange.account.balances.iter().all(|b| b.time_exchange == exchange.time_exchange()));

    match exchange.handle_request(MockExchangeRequestKind::OpenOrder {
        request: make_open_request("c1", Side::Sell, Decimal::from(50000), Decimal::from(1)),
    }) {
        MockExchangeResponse::OpenOrder(resp, Some(_)) => assert!(resp.state.is_ok()),
        other => panic!("unexpected {other:?}"),
    }
    assert_eq!(exchange.account.trades.len(), 1);

    match exchange.handle_request(MockExchangeRequestKind::FetchBalances { assets: vec!["usd".to_string()] }) {
        MockExchangeResponse::Balances(b) => {
            assert_eq!(b.len(), 1);
            assert_eq!(b[0].asset, "usd");
        }
        other => panic!("unexpected {other:?}"),
    }
    match exchange.handle_request(MockExchangeRequestKind::FetchTrades { time_since: Timestamp { secs: 100, nanos: 0 } }) {
        MockExchangeResponse::Trades(t) => assert_eq!(t.len(), 1),
        other => panic!("unexpected {other:?}"),
    }
    match exchange.handle_request(MockExchangeRequestKind::FetchTrades { time_since: Timestamp { secs: 101, nanos: 0 } }) {
        MockExchangeResponse::Trades(t) => assert!(t.is_empty()),
        other => panic!("unexpected {other:?}"),
    }
}

#[test]
fn account_snapshot_groups_orders_by_instrument() {
    let mut exchange = make_mock_exchange_spot(Decimal::from(2), Decimal::from(100000));
    let order = |instrument: &str, id: &str| Order {
        key: OrderKey {
            exchange: ExchangeId::Deribit,
            instrument: instrument.to_string(),
            strategy: "s".to_string(),
            cid: id.to_string(),
        },
        side: Side::Buy,
        price: Decimal::ONE,
        quantity: Decimal::ONE,
        kind: OrderKind::Limit,
        time_in_force: TimeInForce::GoodUntilEndOfDay,
        state: barter::mock::order::Open { id: id.to_string(), time_exchange: ts(1), filled_quantity: Decimal::ZERO },
    };
    exchange.account.orders_open.push(order("ETH-USD", "1"));
    exchange.account.orders_open.push(order("BTC-USD", "2"));
    exchange.account.orders_open.push(order("ETH-USD", "3"));
    let snapshot = exchange.account_snapshot();
    assert_eq!(snapshot.exchange, ExchangeId::Deribit);
    assert_eq!(snapshot.balances.len(), 2);
    let names: Vec<&str> = snapshot.instruments.iter().map(|i| i.instrument.as_str()).collect();
    assert_eq!(names, vec!["BTC-USD", "ETH-USD"]);
    assert_eq!(snapshot.instruments[1].orders.len(), 2);
    assert!(matches!(&snapshot.instruments[1].orders[0].state, OrderState::Open(o) if o.id == "1"));
}

#[test]
fn from_balances_later_wins() {
    let account = AccountState::from_balances(vec![
        balance("usd", Decimal::from(1)),
        balance("btc", Decimal::from(2)),
        balance("usd", Decimal::from(3)),
    ]);
    assert_eq!(account.balances.len(), 2);
    assert_eq!(account.balances[0].asset, "usd");
    assert_eq!(account.balances[0].balance.free, Decimal::from(3));
}

#[test]
fn spot_market_order_beside_resting_limit_fills_on_free_balance() {
    let mut exchange = make_mock_exchange_spot(Decimal::from(0), Decimal::from(100000));
    let (rested, _) = exchange.open_order(limit(make_open_request("c1", Side::Buy, Decimal::from(40000), Decimal::from(1))));
    assert_eq!(rested.state.unwrap().filled_quantity, Decimal::ZERO);
    assert_eq!(free_of(&exchange, "usd"), Decimal::from(60000));

    let (response, notifications) =
        exchange.open_order(make_open_request("c2", Side::Buy, Decimal::from(50000), Decimal::from(1)));
    assert_eq!(response.state.unwrap().filled_quantity, Decimal::from(1));
    assert_eq!(free_of(&exchange, "usd"), Decimal::from(9950));
    assert_eq!(notifications.unwrap().balance.balance.free, Decimal::from(9950));
}

#[test]
fn spot_market_order_beside_resting_limit_is_short_on_free_balance() {
    let mut exchange = make_mock_exchange_spot(Decimal::from(0), Decimal::from(100000));
    exchange.open_order(limit(make_open_request("c1", Side::Buy, Decimal::from(60000), Decimal::from(1))));
    assert_eq!(free_of(&exchange, "usd"), Decimal::from(40000));

    let (response, notifications) =
        exchange.open_order(make_open_request("c2", Side::Buy, Decimal::from(50000), Decimal::from(1)));
    match response.state {
        Err(OrderError::Rejected(ApiError::BalanceInsufficient(asset, message))) => {
            assert_eq!(asset, "usd");
            assert_eq!(message, "Available Balance: 40000, Required Balance inc. fees: 50050.000");
        }
        other => panic!("unexpected {other:?}"),
    }
    assert!(notifications.is_none());
    assert_eq!(free_of(&exchange, "usd"), Decimal::from(40000));
}

#[test]
fn resting_order_on_other_instrument_kind_leaves_maker_rate() {
    let other = Instrument {
        name_exchange: "BTC-OTHER".to_string(),
        underlying: Underlying { base: "btc".to_string(), quote: "usd".to_string() },
        kind: InstrumentKind::Other("option".to_string()),
    };
    let mut exchange = MockExchange::new(config(vec![balance("usd", Decimal::from(1000))]), vec![other]);
    let (rested, _) =
        exchange.open_order(limit(make_open_request_for_instrument("BTC-OTHER", "c1", Side::Buy, Decimal::from(100), Decimal::from(1))));
    assert_eq!(rested.state.unwrap().filled_quantity, Decimal::ZERO);
    assert_eq!(exchange.resting_orders.len(), 1);

    let notifications = exchange.handle_market_update(MarketPriceUpdate {
        instrument: "BTC-OTHER".to_string(),
        best_bid: Decimal::from(90),
        best_ask: Decimal::from(95),
    });
    assert!(notifications.is_empty());
    assert_eq!(exchange.resting_orders.len(), 0);
    assert_eq!(exchange.taker_fees_percent, Decimal::from(5) / Decimal::from(10000));
    assert_eq!(exchange.maker_fees_percent, Decimal::from(5) / Decimal::from(10000));
}
