use barter::connector_factory::{ConnectorFactory, ExchangeConnector};
use barter::connector_meta::{connector_meta, ConnectorOpts, StreamConnectorMeta};
use barter::connectors::{BinanceSpot, Coinbase, Kraken, Okx};
use barter::deribit::channel::DeribitInterval;
use barter::deribit::connector::Deribit;
use barter::exchange_id::ExchangeId;

#[test]
fn test_connector_factory_empty() {
    let factory = ConnectorFactory::new();
    assert!(factory.is_empty());
    assert_eq!(factory.len(), 0);
    assert!(factory.get(ExchangeId::Deribit).is_none());
    assert!(factory.get(ExchangeId::Coinbase).is_none());
}

#[test]
fn test_connector_factory_default() {
    let factory: ConnectorFactory = Default::default();
    assert!(factory.is_empty());
}

#[test]
fn test_connector_factory_with_deribit() {
    let deribit = Deribit::with_interval(DeribitInterval::Raw);
    let factory = ConnectorFactory::new().with_connector(ExchangeConnector::Deribit(deribit));

    assert!(!factory.is_empty());
    assert_eq!(factory.len(), 1);

    match factory.get(ExchangeId::Deribit) {
        Some(ExchangeConnector::Deribit(conn)) => {
            assert_eq!(conn.default_interval, DeribitInterval::Raw);
        }
        _ => panic!("Expected Deribit connector"),
    }
}

#[test]
fn test_connector_factory_exchange_id() {
    let conn = ExchangeConnector::Deribit(Deribit::default());
    assert_eq!(conn.exchange_id(), ExchangeId::Deribit);

    let coinbase = ExchangeConnector::Coinbase(Coinbase);
    assert_eq!(coinbase.exchange_id(), ExchangeId::Coinbase);
}

#[test]
fn test_connector_factory_multiple() {
    let factory = ConnectorFactory::new()
        .with_connector(ExchangeConnector::Deribit(Deribit::default()))
        .with_connector(ExchangeConnector::Coinbase(Coinbase));

    assert_eq!(factory.len(), 2);
    assert!(factory.get(ExchangeId::Deribit).is_some());
    assert!(factory.get(ExchangeId::Coinbase).is_some());
    assert!(factory.get(ExchangeId::BinanceSpot).is_none());
}

#[test]
fn test_connector_factory_duplicate_replaces() {
    let factory = ConnectorFactory::new()
        .with_connector(ExchangeConnector::Deribit(Deribit::with_interval(DeribitInterval::Raw)))
        .with_connector(ExchangeConnector::Deribit(Deribit::with_interval(DeribitInterval::Agg2)));

    assert_eq!(factory.len(), 1);

    match factory.get(ExchangeId::Deribit) {
        Some(ExchangeConnector::Deribit(conn)) => {
            assert_eq!(conn.default_interval, DeribitInterval::Agg2);
        }
        _ => panic!("Expected Agg2 interval Deribit connector"),
    }
}

#[test]
fn test_exchange_connector_as_methods() {
    let deribit = ExchangeConnector::Deribit(Deribit::default());
    assert!(deribit.as_deribit().is_some());
    assert!(deribit.as_coinbase().is_none());

    let coinbase = ExchangeConnector::Coinbase(Coinbase);
    assert!(coinbase.as_coinbase().is_some());
    assert!(coinbase.as_deribit().is_none());
}

#[test]
fn test_connector_factory_remove() {
    let mut factory = ConnectorFactory::new().with_connector(ExchangeConnector::Deribit(Deribit::default()));

    assert_eq!(factory.len(), 1);
    assert!(factory.remove(ExchangeId::Deribit));
    assert!(factory.is_empty());
    assert!(!factory.remove(ExchangeId::Deribit));
}

#[test]
fn test_connector_factory_clear() {
    let mut factory = ConnectorFactory::new()
        .with_connector(ExchangeConnector::Deribit(Deribit::default()))
        .with_connector(ExchangeConnector::Coinbase(Coinbase));

    assert_eq!(factory.len(), 2);
    factory.clear();
    assert!(factory.is_empty());
}

#[test]
fn test_connector_factory_from_iterator() {
    let connectors = vec![ExchangeConnector::Deribit(Deribit::default()), ExchangeConnector::Coinbase(Coinbase)];

    let factory = ConnectorFactory::from_connectors(connectors);
    assert_eq!(factory.len(), 2);
}

#[test]
fn test_connector_factory_extend() {
    let mut factory = ConnectorFactory::new().with_connector(ExchangeConnector::Deribit(Deribit::default()));

    let more = vec![ExchangeConnector::Coinbase(Coinbase), ExchangeConnector::Kraken(Kraken)];

    factory.extend(more);
    assert_eq!(factory.len(), 3);
}

#[test]
fn test_into_iterator() {
    let factory = ConnectorFactory::new()
        .with_connector(ExchangeConnector::Deribit(Deribit::default()))
        .with_connector(ExchangeConnector::Coinbase(Coinbase));

    let count = factory.iter().count();
    assert_eq!(count, 2);

    let count = factory.into_connectors().into_iter().count();
    assert_eq!(count, 2);
}

#[test]
fn factory_extend_replaces_and_keeps_order() {
    let mut factory = ConnectorFactory::new()
        .with_connector(ExchangeConnector::Deribit(Deribit::with_interval(DeribitInterval::Raw)))
        .with_connector(ExchangeConnector::Okx(Okx));
    factory.extend(vec![
        ExchangeConnector::Deribit(Deribit::with_interval(DeribitInterval::Agg2)),
        ExchangeConnector::BinanceSpot(BinanceSpot),
    ]);
    let ids: Vec<ExchangeId> = factory.iter().map(|c| c.exchange_id()).collect();
    assert_eq!(ids, vec![ExchangeId::Okx, ExchangeId::Deribit, ExchangeId::BinanceSpot]);
    match factory.get(ExchangeId::Deribit) {
        Some(ExchangeConnector::Deribit(conn)) => assert_eq!(conn.default_interval, DeribitInterval::Agg2),
        _ => panic!("Expected Deribit connector"),
    }
}

#[test]
fn factory_get_finds_first_of_duplicates() {
    let factory = ConnectorFactory::from_connectors(vec![
        ExchangeConnector::Deribit(Deribit::with_interval(DeribitInterval::Raw)),
        ExchangeConnector::Deribit(Deribit::with_interval(DeribitInterval::Agg2)),
    ]);
    assert_eq!(factory.len(), 2);
    match factory.get(ExchangeId::Deribit) {
        Some(ExchangeConnector::Deribit(conn)) => assert_eq!(conn.default_interval, DeribitInterval::Raw),
        _ => panic!("Expected Deribit connector"),
    }
}

#[test]
fn connector_meta_of_deribit() {
    let meta = connector_meta(ConnectorOpts { exchange: "deribit".to_string(), sub_module: None, market: None, channel: None });
    assert_eq!(meta.exchange_root, <Deribit as StreamConnectorMeta>::EXCHANGE_ROOT);
    assert_eq!(meta.sub_module.as_deref(), <Deribit as StreamConnectorMeta>::SUB_MODULE);
    assert_eq!(meta.market_type, <Deribit as StreamConnectorMeta>::MARKET_TYPE);
    assert_eq!(meta.channel_type, <Deribit as StreamConnectorMeta>::CHANNEL_TYPE);
}

#[test]
fn connector_meta_custom_names_and_sub_module() {
    let meta = connector_meta(ConnectorOpts {
        exchange: "binance".to_string(),
        sub_module: Some("spot".to_string()),
        market: Some("CustomMarket".to_string()),
        channel: None,
    });
    assert_eq!(meta.exchange_root, "binance");
    assert_eq!(meta.sub_module, Some("spot".to_string()));
    assert_eq!(meta.market_type, "CustomMarket");
    assert_eq!(meta.channel_type, "BinanceChannel");
}

#[test]
fn with_connector_keeps_others_and_counts() {
    let factory = ConnectorFactory::new()
        .with_connector(ExchangeConnector::Kraken(Kraken))
        .with_connector(ExchangeConnector::Deribit(Deribit::with_interval(DeribitInterval::Raw)));
    assert_eq!(factory.len(), 2);
    // Replacing Deribit's connector keeps the count and Kraken's connector.
    let factory = factory.with_connector(ExchangeConnector::Deribit(Deribit::with_interval(DeribitInterval::Agg2)));
    assert_eq!(factory.len(), 2);
    assert!(matches!(factory.get(ExchangeId::Kraken), Some(ExchangeConnector::Kraken(_))));
    // A new exchange adds one.
    let mut factory = factory.with_connector(ExchangeConnector::Okx(Okx));
    assert_eq!(factory.len(), 3);
    // Removing counts down by one exactly where there was a connector.
    assert!(factory.remove(ExchangeId::Kraken));
    assert_eq!(factory.len(), 2);
    assert!(!factory.remove(ExchangeId::Kraken));
    assert_eq!(factory.len(), 2);
}
