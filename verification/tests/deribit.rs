use barter::books::OrderBookEvent;
use barter::deribit::book::{
    book_event, parse_action, parse_book_level, parse_book_levels, parse_decimal, ticker_event, DeribitBookAction,
    DeribitBookLevel, DeribitBookUpdateData, DeribitTickerData, JsonScalar,
};
use barter::deribit::channel::{subscription_name, DeribitChannel, DeribitInterval};
use barter::deribit::connector::{
    auth_frame_step, auth_verdict, check_auth_reply, AuthStart, AuthFrame, AuthFrameStep, Deribit, DeribitAuth, DeribitCredentials,
};
use barter::deribit::market::{deribit_market, MarketDataInstrument, MarketDataInstrumentKind, OptionKind};
use barter::deribit::message::{
    is_rpc_response, parse_deribit_channel, subscription_text, text_contains, DeribitMessage, DeribitParser,
};
use barter::deribit::subscription::{i64_text, DeribitError, DeribitSubResponse, DeribitSubResult};
use barter::deribit::trade::DeribitSide;
use barter::error::{SocketError, SubKind};
use barter::exchange_id::ExchangeId;
use barter::sequencer::Identifier;
use barter::side::Side;
use barter::time::Timestamp;
use barter_integration::subscription::SubscriptionId;
use rust_decimal::Decimal;
use std::str::FromStr;

fn dec(s: &str) -> Decimal {
    Decimal::from_str(s).unwrap()
}

fn ts(secs: i64) -> Timestamp {
    Timestamp { secs, nanos: 0 }
}

#[test]
fn test_deribit_channel_as_ref() {
    assert_eq!(DeribitChannel::trades_100ms().as_ref(), "trades");
    assert_eq!(DeribitChannel::ticker_100ms().as_ref(), "ticker");
    assert_eq!(DeribitChannel::book_100ms().as_ref(), "book");
}

#[test]
fn test_deribit_interval_as_ref() {
    assert_eq!(DeribitInterval::Raw.as_ref(), "raw");
    assert_eq!(DeribitInterval::HundredMs.as_ref(), "100ms");
    assert_eq!(DeribitInterval::Agg2.as_ref(), "agg2");
}

#[test]
fn test_deribit_channel_interval() {
    let channel = DeribitChannel::trades(DeribitInterval::Raw);
    assert_eq!(channel.interval(), DeribitInterval::Raw);
    assert_eq!(channel.as_ref(), "trades");

    let channel = DeribitChannel::book(DeribitInterval::HundredMs);
    assert_eq!(channel.interval(), DeribitInterval::HundredMs);
    assert_eq!(channel.as_ref(), "book");
}

#[test]
fn test_default_interval() {
    assert_eq!(DeribitInterval::default(), DeribitInterval::HundredMs);
}

#[test]
fn test_subscription_id_matches_parse_deribit_channel() {
    // The subscription name the subscriber builds from channel and market ...
    let sub_name = subscription_name(&DeribitChannel::trades(DeribitInterval::HundredMs), "BTC-PERPETUAL");
    assert_eq!(sub_name, "trades.BTC-PERPETUAL.100ms");
    let sub_id = SubscriptionId::from(format!("{}|{}", DeribitChannel::trades_100ms().as_ref(), "BTC-PERPETUAL"));
    // ... must match what parsing an incoming channel gives.
    let parsed_id = parse_deribit_channel("trades.BTC-PERPETUAL.100ms").unwrap();
    assert_eq!(sub_id, parsed_id, "ExchangeSub ID must match parsed channel ID");

    let sub_id_raw = SubscriptionId::from(format!("{}|{}", DeribitChannel::book(DeribitInterval::Raw).as_ref(), "ETH-PERPETUAL"));
    let parsed_id_raw = parse_deribit_channel("book.ETH-PERPETUAL.raw").unwrap();
    assert_eq!(sub_id_raw, parsed_id_raw);
}

#[test]
fn test_deribit_default() {
    let deribit = Deribit::default();
    assert_eq!(deribit.default_interval, DeribitInterval::HundredMs);
    assert!(deribit.credentials.is_none());
}

#[test]
fn test_deribit_with_interval() {
    let deribit = Deribit::with_interval(DeribitInterval::Raw);
    assert_eq!(deribit.default_interval, DeribitInterval::Raw);
    assert!(deribit.credentials.is_none());
}

#[test]
fn test_deribit_raw() {
    let creds = DeribitCredentials::new("test_id", "test_secret");
    let deribit = Deribit::raw(creds.clone());
    assert_eq!(deribit.default_interval, DeribitInterval::Raw);
    assert!(deribit.credentials == Some(creds));
}

#[test]
fn test_deribit_builder_pattern() {
    let deribit =
        Deribit::with_interval(DeribitInterval::Agg2).with_credentials(DeribitCredentials::new("id", "secret"));

    assert_eq!(deribit.default_interval, DeribitInterval::Agg2);
    assert!(deribit.credentials.is_some());
}

#[test]
fn test_deribit_requests_uses_interval() {
    let name = subscription_name(&DeribitChannel::trades(DeribitInterval::HundredMs), "BTC-PERPETUAL");
    assert!(name.contains("trades.BTC-PERPETUAL.100ms"));
    let name = subscription_name(&DeribitChannel::book(DeribitInterval::Raw), "ETH-PERPETUAL");
    assert!(name.contains("book.ETH-PERPETUAL.raw"));
}

#[test]
fn test_deribit_credentials_debug() {
    let creds = DeribitCredentials::new("my_id", "my_secret");
    let debug_str = creds.debug_text();
    assert!(debug_str.contains("my_id"));
    assert!(debug_str.contains("<masked>"));
    assert!(!debug_str.contains("my_secret"));
}

#[test]
fn test_deribit_display() {
    let deribit = Deribit::default();
    assert_eq!(deribit.display_text(), "Deribit");
}

#[test]
fn credentials_debug_text_exact() {
    let creds = DeribitCredentials::new("my_id", "my_secret");
    assert_eq!(creds.debug_text(), "DeribitCredentials { client_id: \"my_id\", client_secret: \"<masked>\" }");
    let other = DeribitCredentials::new("my_id", "another_secret");
    assert_eq!(creds.debug_text(), other.debug_text());
}

#[test]
fn test_deribit_auth_backward_compat() {
    let auth = DeribitAuth::new("test_id", "test_secret");
    assert_eq!(auth.default_interval, DeribitInterval::Raw);
    assert!(auth.credentials.is_some());
    let creds = auth.credentials.unwrap();
    assert_eq!(creds.client_id, "test_id");
    assert_eq!(creds.client_secret, "test_secret");
}

#[test]
fn auth_with_url_ignores_url() {
    let auth = DeribitAuth::with_url("id", "secret", "wss://test.deribit.com/ws/api/v2/");
    assert_eq!(auth.default_interval, DeribitInterval::Raw);
    let creds = auth.credentials.unwrap();
    assert_eq!(creds.client_id, "id");
    assert_eq!(creds.client_secret, "secret");
}

#[test]
fn auth_request_only_with_credentials() {
    assert!(Deribit::default().auth_request().is_none());
    let req = Deribit::raw(DeribitCredentials::new("a", "b")).auth_request().unwrap();
    assert_eq!(req.client_id, "a");
    assert_eq!(req.client_secret, "b");
}

#[test]
fn auth_frames_decide_the_reply() {
    assert_eq!(auth_frame_step(AuthFrame::Text("{}".to_string())), AuthFrameStep::Reply("{}".to_string()));
    assert_eq!(auth_frame_step(AuthFrame::Binary(b"{\"a\":1}".to_vec())), AuthFrameStep::Reply("{\"a\":1}".to_string()));
    assert_eq!(auth_frame_step(AuthFrame::Binary(vec![0xff, 0xfe])), AuthFrameStep::Reply(String::new()));
    assert_eq!(auth_frame_step(AuthFrame::Other), AuthFrameStep::Skip);
    assert_eq!(
        auth_frame_step(AuthFrame::Ended),
        AuthFrameStep::Fail(SocketError::Subscribe("WebSocket stream terminated during auth".to_string()))
    );
    assert_eq!(
        auth_frame_step(AuthFrame::Failed("reset".to_string())),
        AuthFrameStep::Fail(SocketError::WebSocket("reset".to_string()))
    );
}

#[test]
fn auth_verdict_outcomes() {
    assert_eq!(auth_verdict("{}".to_string(), Ok(None)), Ok(()));
    assert_eq!(
        auth_verdict("{}".to_string(), Ok(Some("{\"code\":13004}".to_string()))),
        Err(SocketError::Subscribe("Deribit authentication failed: {\"code\":13004}".to_string()))
    );
    assert_eq!(
        auth_verdict("not json".to_string(), Err("expected value".to_string())),
        Err(SocketError::Deserialise { error: "expected value".to_string(), payload: "not json".to_string() })
    );
}

#[test]
fn test_is_rpc_response_ping_reply() {
    let ping_reply = r#"{"jsonrpc":"2.0","id":9999,"result":{"version":"1.2.26"}}"#;
    assert!(is_rpc_response(ping_reply));
}

#[test]
fn test_is_rpc_response_subscription() {
    let subscription = r#"{"jsonrpc":"2.0","method":"subscription","params":{"channel":"trades.BTC-PERPETUAL.raw","data":[{"value":123}]}}"#;
    assert!(!is_rpc_response(subscription));
}

#[test]
fn test_is_rpc_response_subscription_response() {
    let sub_response = r#"{"jsonrpc":"2.0","id":1,"result":["trades.BTC-PERPETUAL.raw"]}"#;
    assert!(is_rpc_response(sub_response));
}

#[test]
fn rpc_response_edge_cases() {
    assert!(!is_rpc_response(""));
    assert!(!is_rpc_response("result"));
    assert!(is_rpc_response("\"result\""));
    assert!(!is_rpc_response("\"result\"\"params\""));
    assert!(DeribitParser::skips_text(r#"{"id":1,"result":[]}"#));
    assert!(!DeribitParser::skips_text(r#"{"params":{}}"#));
}

#[test]
fn text_contains_matches_str_contains() {
    for (h, n) in [("abc", "bc"), ("abc", "cd"), ("", ""), ("a", ""), ("", "a"), ("ééa", "éa"), ("aaab", "aab")] {
        assert_eq!(text_contains(h, n), h.contains(n), "{h} / {n}");
    }
}

#[test]
fn test_parse_channel_valid() {
    let id = parse_deribit_channel("trades.BTC-PERPETUAL.100ms").unwrap();
    assert_eq!(id, SubscriptionId::from("trades|BTC-PERPETUAL"));
}

#[test]
fn test_parse_channel_invalid() {
    let result = parse_deribit_channel("invalid");
    assert!(result.is_err());
}

#[test]
fn parse_channel_shapes() {
    assert_eq!(parse_deribit_channel("invalid").unwrap_err(), "Invalid Deribit channel format: invalid");
    assert_eq!(subscription_text("ticker.BTC-PERPETUAL").unwrap(), "ticker|BTC-PERPETUAL");
    assert_eq!(subscription_text("a..b").unwrap(), "a|");
    assert_eq!(subscription_text("ab.").unwrap(), "ab|");
    assert_eq!(subscription_text("book.ETH-PERPETUAL.raw.extra").unwrap(), "book|ETH-PERPETUAL");
    assert!(subscription_text("").is_none());
}

#[test]
fn message_from_channel() {
    let m = DeribitMessage::from_channel("book.BTC-PERPETUAL.100ms", 7u32).unwrap();
    assert_eq!(m.subscription_id, SubscriptionId::from("book|BTC-PERPETUAL"));
    assert_eq!(m.data, 7);
    assert!(DeribitMessage::from_channel("book", 7u32).is_err());
}

#[test]
fn test_validate_deribit_sub_response_success() {
    let response = DeribitSubResponse {
        jsonrpc: "2.0".to_string(),
        id: 1,
        result: DeribitSubResult::Success { result: vec!["trades.BTC-PERPETUAL.raw".to_string()] },
    };

    assert!(response.validate().is_ok());
}

#[test]
fn test_validate_deribit_sub_response_error() {
    let response = DeribitSubResponse {
        jsonrpc: "2.0".to_string(),
        id: 1,
        result: DeribitSubResult::Error { error: DeribitError { code: 10004, message: "Invalid channel".to_string() } },
    };

    assert!(response.validate().is_err());
}

#[test]
fn sub_response_error_message() {
    let response = DeribitSubResponse {
        jsonrpc: "2.0".to_string(),
        id: 1,
        result: DeribitSubResult::Error { error: DeribitError { code: -32602, message: "Invalid params".to_string() } },
    };
    assert_eq!(
        response.validate(),
        Err(SocketError::Subscribe(
            "received failure subscription response code: -32602 with message: Invalid params".to_string()
        ))
    );
    assert_eq!(i64_text(i64::MIN), i64::MIN.to_string());
    assert_eq!(i64_text(0), "0");
    assert_eq!(i64_text(10004), "10004");
}

fn instrument(base: &str, kind: MarketDataInstrumentKind) -> MarketDataInstrument {
    MarketDataInstrument { base: base.to_string(), quote: "usd".to_string(), kind }
}

#[test]
fn test_deribit_market_perpetual() {
    let market = deribit_market(&instrument("btc", MarketDataInstrumentKind::Perpetual)).unwrap();
    assert_eq!(market.as_ref(), "BTC-PERPETUAL");
}

#[test]
fn test_deribit_market_future() {
    // 2024-09-27 08:00:00 UTC
    let expiry = Timestamp { secs: 1727424000, nanos: 0 };
    let market = deribit_market(&instrument("btc", MarketDataInstrumentKind::Future { expiry })).unwrap();
    assert_eq!(market.as_ref(), "BTC-27SEP24");
}

#[test]
fn test_deribit_market_option_call() {
    // 2024-05-27 08:00:00 UTC
    let expiry = Timestamp { secs: 1716796800, nanos: 0 };
    let market = deribit_market(&instrument(
        "btc",
        MarketDataInstrumentKind::Option { expiry, strike: Decimal::from(9000), kind: OptionKind::Call },
    ))
    .unwrap();
    assert_eq!(market.as_ref(), "BTC-27MAY24-9000-C");
}

#[test]
fn test_deribit_market_option_put() {
    let expiry = Timestamp { secs: 1716796800, nanos: 0 };
    let market = deribit_market(&instrument(
        "btc",
        MarketDataInstrumentKind::Option { expiry, strike: Decimal::from(9000), kind: OptionKind::Put },
    ))
    .unwrap();
    assert_eq!(market.as_ref(), "BTC-27MAY24-9000-P");
}

#[test]
fn test_deribit_market_spot_fallback() {
    let market = deribit_market(&instrument("btc", MarketDataInstrumentKind::Spot)).unwrap();
    assert_eq!(market.as_ref(), "BTC-PERPETUAL");
}

#[test]
fn market_with_unrepresentable_expiry() {
    let expiry = Timestamp { secs: i64::MAX, nanos: 0 };
    assert!(deribit_market(&instrument("btc", MarketDataInstrumentKind::Future { expiry })).is_none());
}

#[test]
fn test_deribit_side_into_side() {
    assert_eq!(Side::from(DeribitSide::Buy), Side::Buy);
    assert_eq!(Side::from(DeribitSide::Sell), Side::Sell);
}

fn ticker(bid: &str, bid_amount: &str, ask: &str, ask_amount: &str) -> DeribitTickerData {
    DeribitTickerData {
        time: ts(1623059681),
        best_bid_price: dec(bid),
        best_bid_amount: dec(bid_amount),
        best_ask_price: dec(ask),
        best_ask_amount: dec(ask_amount),
    }
}

#[test]
fn test_from_deribit_ticker_to_market_iter() {
    let data = ticker("36289.5", "4600", "36290", "53040");
    let event = ticker_event(ExchangeId::Deribit, "BTC-PERPETUAL".to_string(), &data, ts(1623059682));
    assert_eq!(event.exchange, ExchangeId::Deribit);
    assert_eq!(event.instrument, "BTC-PERPETUAL");
    assert_eq!(event.time_exchange, data.time);
    assert_eq!(event.kind.last_update_time, data.time);
    let bid = event.kind.best_bid.unwrap();
    assert_eq!(bid.price, dec("36289.5"));
    assert_eq!(bid.amount, dec("4600"));
    let ask = event.kind.best_ask.unwrap();
    assert_eq!(ask.price, dec("36290"));
    assert_eq!(ask.amount, dec("53040"));
}

#[test]
fn test_from_deribit_ticker_with_zero_prices() {
    let data = ticker("0", "0", "0", "0");
    let event = ticker_event(ExchangeId::Deribit, "BTC-PERPETUAL".to_string(), &data, ts(0));
    assert!(event.kind.best_bid.is_none());
    assert!(event.kind.best_ask.is_none());
}

fn level(action: DeribitBookAction, price: &str, amount: &str) -> DeribitBookLevel {
    DeribitBookLevel { action, price: dec(price), amount: dec(amount) }
}

#[test]
fn test_from_deribit_book_to_market_iter() {
    let data = DeribitBookUpdateData {
        time: ts(1535098298),
        change_id: 123457,
        prev_change_id: Some(123456),
        bids: vec![level(DeribitBookAction::Change, "36289.5", "4700"), level(DeribitBookAction::Delete, "36288.0", "0")],
        asks: vec![level(DeribitBookAction::New, "36290.5", "1000")],
    };
    let event = book_event(ExchangeId::Deribit, "BTC-PERPETUAL".to_string(), &data, ts(1535098299));
    assert_eq!(event.exchange, ExchangeId::Deribit);
    assert_eq!(event.instrument, "BTC-PERPETUAL");
    assert!(matches!(&event.kind, OrderBookEvent::Update(_)), "Expected Update event since prev_change_id is Some");
}

#[test]
fn test_from_deribit_book_snapshot_to_market_iter() {
    let data = DeribitBookUpdateData {
        time: ts(1535098298),
        change_id: 123456,
        prev_change_id: None,
        bids: vec![level(DeribitBookAction::New, "36289.5", "4600")],
        asks: vec![level(DeribitBookAction::New, "36290.5", "53040")],
    };
    let event = book_event(ExchangeId::Deribit, "BTC-PERPETUAL".to_string(), &data, ts(1535098299));
    assert!(matches!(&event.kind, OrderBookEvent::Snapshot(_)), "Expected Snapshot event since prev_change_id is None");
    if let OrderBookEvent::Snapshot(book) = &event.kind {
        assert_eq!(book.sequence, 123456);
        assert_eq!(book.time_engine, Some(data.time));
        assert_eq!(book.bids.len(), 1);
        assert_eq!(book.asks[0].amount, dec("53040"));
    }
}

#[test]
fn test_deribit_book_level_delete_sets_zero_amount() {
    let data = DeribitBookUpdateData {
        time: ts(1535098298),
        change_id: 123457,
        prev_change_id: Some(123456),
        bids: vec![level(DeribitBookAction::Delete, "36288.0", "5000")],
        asks: vec![],
    };
    let event = book_event(ExchangeId::Deribit, "BTC-PERPETUAL".to_string(), &data, ts(0));
    if let OrderBookEvent::Update(orderbook) = &event.kind {
        assert_eq!(orderbook.bids.len(), 1);
        assert_eq!(orderbook.bids[0].price, dec("36288.0"));
        assert_eq!(orderbook.bids[0].amount, Decimal::ZERO);
    } else {
        panic!("Expected Update event");
    }
}

#[test]
fn test_is_snapshot() {
    let snapshot =
        DeribitBookUpdateData { time: ts(0), change_id: 123456, prev_change_id: None, bids: vec![], asks: vec![] };
    assert!(snapshot.prev_change_id.is_none());
    let update =
        DeribitBookUpdateData { time: ts(0), change_id: 123457, prev_change_id: Some(123456), bids: vec![], asks: vec![] };
    assert!(update.prev_change_id.is_some());
}

#[test]
fn test_deribit_book_action_deserialization() {
    assert!(matches!(parse_action("new").unwrap(), DeribitBookAction::New));
    assert!(matches!(parse_action("change").unwrap(), DeribitBookAction::Change));
    assert!(matches!(parse_action("delete").unwrap(), DeribitBookAction::Delete));
    assert_eq!(parse_action("modify").unwrap_err(), "unknown action: modify");
}

#[test]
fn test_deribit_book_with_string_values() {
    let levels = parse_book_levels(&vec![
        ("new".to_string(), JsonScalar::Text("2000.5".to_string()), JsonScalar::Text("100.5".to_string())),
        ("new".to_string(), JsonScalar::Text("2000.0".to_string()), JsonScalar::Text("200".to_string())),
    ])
    .unwrap();
    assert_eq!(levels[0].price, dec("2000.5"));
    assert_eq!(levels[0].amount, dec("100.5"));
}

#[test]
fn test_deribit_book_snapshot() {
    let levels = parse_book_levels(&vec![
        ("new".to_string(), JsonScalar::Number("36289.5".to_string()), JsonScalar::Number("4600".to_string())),
        ("new".to_string(), JsonScalar::Number("36288.0".to_string()), JsonScalar::Number("5000".to_string())),
        ("new".to_string(), JsonScalar::Number("36287.0".to_string()), JsonScalar::Number("3000".to_string())),
    ])
    .unwrap();
    assert_eq!(levels.len(), 3);
    assert!(matches!(levels[0].action, DeribitBookAction::New));
    assert_eq!(levels[0].price, dec("36289.5"));
    assert_eq!(levels[0].amount, dec("4600"));
}

#[test]
fn test_deribit_book_empty() {
    assert!(parse_book_levels(&vec![]).unwrap().is_empty());
}

#[test]
fn book_level_errors() {
    assert_eq!(
        parse_book_level("new", &JsonScalar::Other, &JsonScalar::Number("1".to_string())).unwrap_err(),
        "invalid price: expected string or number"
    );
    assert!(parse_book_level("new", &JsonScalar::Number("1".to_string()), &JsonScalar::Text("x".to_string()))
        .unwrap_err()
        .starts_with("invalid amount: "));
    assert_eq!(
        parse_book_levels(&vec![
            ("new".to_string(), JsonScalar::Number("1".to_string()), JsonScalar::Number("1".to_string())),
            ("bad".to_string(), JsonScalar::Other, JsonScalar::Other),
            ("worse".to_string(), JsonScalar::Other, JsonScalar::Other),
        ])
        .unwrap_err(),
        "unknown action: bad"
    );
    assert_eq!(parse_decimal(&JsonScalar::Number("1.50".to_string())).unwrap(), dec("1.50"));
}

#[test]
fn deribit_message_is_identified_by_its_channel() {
    let message = DeribitMessage::from_channel("book.ETH-PERPETUAL.100ms", 7u8).unwrap();
    assert_eq!(message.id(), Some(SubscriptionId::from("book|ETH-PERPETUAL")));
}

#[test]
fn auth_reply_checked_as_json() {
    assert_eq!(check_auth_reply(r#"{"jsonrpc":"2.0","id":0,"result":{"access_token":"t"}}"#.to_string()), Ok(()));
    assert_eq!(check_auth_reply(r#"{"jsonrpc":"2.0","id":0,"error":null}"#.to_string()), Ok(()));
    assert_eq!(
        check_auth_reply(r#"{"jsonrpc":"2.0","id":0,"error":{"code":13004,"message":"invalid_credentials"}}"#.to_string()),
        Err(SocketError::Subscribe(
            r#"Deribit authentication failed: {"code":13004,"message":"invalid_credentials"}"#.to_string()
        ))
    );
    match check_auth_reply("not json".to_string()) {
        Err(SocketError::Deserialise { error, payload }) => {
            assert!(!error.is_empty());
            assert_eq!(payload, "not json");
        }
        other => panic!("expected a deserialisation error, got {other:?}"),
    }
}

#[test]
fn test_identifier() {
    let update = DeribitMessage {
        subscription_id: SubscriptionId::from("book|BTC-PERPETUAL"),
        data: DeribitBookUpdateData {
            time: Timestamp { secs: 1_700_000_000, nanos: 0 },
            change_id: 123456,
            prev_change_id: None,
            bids: vec![],
            asks: vec![],
        },
    };

    let id = update.id();
    assert_eq!(id, Some(SubscriptionId::from("book|BTC-PERPETUAL")));
}

#[test]
fn subscription_kinds_identify_channels_at_the_default_interval() {
    let raw = Deribit::raw(DeribitCredentials::new("id", "secret"));
    assert_eq!(raw.channel(SubKind::PublicTrades), Some(DeribitChannel::trades(DeribitInterval::Raw)));
    assert_eq!(raw.channel(SubKind::OrderBooksL1), Some(DeribitChannel::ticker(DeribitInterval::Raw)));
    assert_eq!(raw.channel(SubKind::OrderBooksL2), Some(DeribitChannel::book(DeribitInterval::Raw)));
    let public = Deribit::default();
    assert_eq!(public.channel(SubKind::OrderBooksL2), Some(DeribitChannel::book_100ms()));
    assert_eq!(public.channel(SubKind::Candles), None);
    assert_eq!(public.channel(SubKind::Liquidations), None);
}

#[test]
fn authentication_starts_only_with_credentials() {
    assert!(Deribit::default().auth_start() == AuthStart::Done);
    match Deribit::raw(DeribitCredentials::new("id", "secret")).auth_start() {
        AuthStart::Send(credentials) => {
            assert_eq!(credentials.client_id, "id");
            assert_eq!(credentials.client_secret, "secret");
        }
        AuthStart::Done => panic!("expected the auth request to be sent"),
    }
}
