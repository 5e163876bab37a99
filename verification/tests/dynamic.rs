use barter::dynamic::{group_by_exchange_kind, stream_connector, stream_starts, validate_batches, ChannelPlan};
use barter::error::{DataError, SocketError, SubKind};
use barter::exchange_id::ExchangeId;

#[test]
fn test_channels_validation_passes_for_created_channels() {
    let subscriptions = vec![vec![(ExchangeId::BinanceSpot, SubKind::PublicTrades)]];
    let channels = ChannelPlan::try_from(&subscriptions);
    assert!(channels.is_ok(), "Expected channel creation to succeed, got: {:?}", channels.err());
    let channels = channels.unwrap();
    assert!(channels.contains(ExchangeId::BinanceSpot, SubKind::PublicTrades));
}

#[test]
fn test_channels_validation_passes_for_multiple_exchanges() {
    let subscriptions = vec![vec![
        (ExchangeId::BinanceSpot, SubKind::PublicTrades),
        (ExchangeId::Coinbase, SubKind::PublicTrades),
        (ExchangeId::BinanceSpot, SubKind::OrderBooksL1),
    ]];
    let channels = ChannelPlan::try_from(&subscriptions);
    assert!(channels.is_ok(), "Expected channel creation to succeed, got: {:?}", channels.err());
    let channels = channels.unwrap();
    assert!(channels.contains(ExchangeId::BinanceSpot, SubKind::PublicTrades));
    assert!(channels.contains(ExchangeId::Coinbase, SubKind::PublicTrades));
    assert!(channels.contains(ExchangeId::BinanceSpot, SubKind::OrderBooksL1));
}

#[test]
fn test_channels_validation_deduplicates_subscriptions() {
    let subscriptions = vec![vec![
        (ExchangeId::BinanceSpot, SubKind::PublicTrades),
        (ExchangeId::BinanceSpot, SubKind::PublicTrades),
    ]];
    let channels = ChannelPlan::try_from(&subscriptions);
    assert!(channels.is_ok(), "Expected channel creation to succeed, got: {:?}", channels.err());
    let channels = channels.unwrap();
    assert_eq!(channels.trades.len(), 1);
    assert!(channels.contains(ExchangeId::BinanceSpot, SubKind::PublicTrades));
}

#[test]
fn test_channels_validation_with_all_sub_kinds() {
    let subscriptions = vec![vec![
        (ExchangeId::BinanceSpot, SubKind::PublicTrades),
        (ExchangeId::BinanceSpot, SubKind::OrderBooksL1),
        (ExchangeId::BinanceSpot, SubKind::OrderBooksL2),
        (ExchangeId::BinanceFuturesUsd, SubKind::Liquidations),
    ]];
    let channels = ChannelPlan::try_from(&subscriptions);
    assert!(channels.is_ok(), "Expected channel creation to succeed, got: {:?}", channels.err());
    let channels = channels.unwrap();
    assert!(channels.contains(ExchangeId::BinanceSpot, SubKind::PublicTrades));
    assert!(channels.contains(ExchangeId::BinanceSpot, SubKind::OrderBooksL1));
    assert!(channels.contains(ExchangeId::BinanceSpot, SubKind::OrderBooksL2));
    assert!(channels.contains(ExchangeId::BinanceFuturesUsd, SubKind::Liquidations));
    assert!(!channels.contains(ExchangeId::BinanceFuturesUsd, SubKind::PublicTrades));
}

#[test]
fn channels_across_batches_in_first_seen_order() {
    let subscriptions = vec![
        vec![(ExchangeId::Okx, SubKind::PublicTrades)],
        vec![(ExchangeId::Kraken, SubKind::PublicTrades), (ExchangeId::Okx, SubKind::PublicTrades)],
    ];
    let plan = ChannelPlan::try_from(&subscriptions).unwrap();
    assert_eq!(plan.trades, vec![ExchangeId::Okx, ExchangeId::Kraken]);
    assert!(plan.l1s.is_empty());
}

#[test]
fn connectors_for_streams() {
    assert_eq!(stream_connector(ExchangeId::BinanceSpot, SubKind::OrderBooksL2), Ok(ExchangeId::BinanceSpot));
    assert_eq!(stream_connector(ExchangeId::BybitPerpetualsUsd, SubKind::OrderBooksL1), Ok(ExchangeId::BybitPerpetualsUsd));
    assert_eq!(stream_connector(ExchangeId::BybitPerpetualsUsd, SubKind::OrderBooksL2), Ok(ExchangeId::BybitPerpetualsUsd));
    assert_eq!(stream_connector(ExchangeId::BybitPerpetualsUsd, SubKind::PublicTrades), Ok(ExchangeId::BybitPerpetualsUsd));
    assert_eq!(
        stream_connector(ExchangeId::Deribit, SubKind::PublicTrades),
        Err(DataError::Unsupported { exchange: ExchangeId::Deribit, sub_kind: SubKind::PublicTrades })
    );
    assert_eq!(
        stream_connector(ExchangeId::Kraken, SubKind::OrderBooksL2),
        Err(DataError::Unsupported { exchange: ExchangeId::Kraken, sub_kind: SubKind::OrderBooksL2 })
    );
}

#[test]
fn groups_sorted_by_exchange_then_kind() {
    let keys = vec![
        (ExchangeId::Okx, SubKind::PublicTrades),
        (ExchangeId::BinanceSpot, SubKind::OrderBooksL1),
        (ExchangeId::BinanceSpot, SubKind::PublicTrades),
        (ExchangeId::Okx, SubKind::PublicTrades),
    ];
    let groups = group_by_exchange_kind(&keys);
    let summary: Vec<(ExchangeId, SubKind, Vec<usize>)> =
        groups.into_iter().map(|g| (g.exchange, g.kind, g.positions)).collect();
    assert_eq!(
        summary,
        vec![
            (ExchangeId::BinanceSpot, SubKind::PublicTrades, vec![2]),
            (ExchangeId::BinanceSpot, SubKind::OrderBooksL1, vec![1]),
            (ExchangeId::Okx, SubKind::PublicTrades, vec![0, 3]),
        ]
    );
}

#[test]
fn stream_starts_pairs_each_group_with_its_connector() {
    let batches = vec![
        vec![
            (ExchangeId::BybitPerpetualsUsd, SubKind::OrderBooksL1),
            (ExchangeId::BinanceSpot, SubKind::PublicTrades),
            (ExchangeId::BybitPerpetualsUsd, SubKind::OrderBooksL1),
        ],
        vec![(ExchangeId::Kraken, SubKind::OrderBooksL1)],
    ];
    let starts = stream_starts(&batches).unwrap();
    assert_eq!(starts.len(), 2);
    assert_eq!(starts[0].len(), 2);
    assert_eq!((starts[0][0].0.exchange, starts[0][0].0.kind), (ExchangeId::BinanceSpot, SubKind::PublicTrades));
    assert_eq!(starts[0][0].0.positions, vec![1]);
    assert_eq!(starts[0][0].1, ExchangeId::BinanceSpot);
    assert_eq!((starts[0][1].0.exchange, starts[0][1].0.kind), (ExchangeId::BybitPerpetualsUsd, SubKind::OrderBooksL1));
    assert_eq!(starts[0][1].0.positions, vec![0, 2]);
    assert_eq!(starts[0][1].1, ExchangeId::BybitPerpetualsUsd);
    assert_eq!(starts[1][0].1, ExchangeId::Kraken);
}

#[test]
fn stream_starts_fails_on_the_least_unsupported_subscription_of_the_first_failing_batch() {
    let batches = vec![
        vec![(ExchangeId::Okx, SubKind::PublicTrades)],
        vec![
            (ExchangeId::Okx, SubKind::Candles),
            (ExchangeId::BinanceSpot, SubKind::Liquidations),
            (ExchangeId::BinanceSpot, SubKind::PublicTrades),
        ],
        vec![(ExchangeId::Coinbase, SubKind::OrderBooksL3)],
    ];
    assert_eq!(
        stream_starts(&batches),
        Err(DataError::Unsupported { exchange: ExchangeId::BinanceSpot, sub_kind: SubKind::Liquidations })
    );
}

#[test]
fn validate_batches_sorts_and_drops_duplicates() {
    let batches: Vec<Vec<Result<(ExchangeId, u64, SubKind), SocketError>>> = vec![
        vec![
            Ok((ExchangeId::Okx, 2, SubKind::PublicTrades)),
            Ok((ExchangeId::Kraken, 5, SubKind::OrderBooksL1)),
            Ok((ExchangeId::Okx, 1, SubKind::PublicTrades)),
            Ok((ExchangeId::Okx, 2, SubKind::PublicTrades)),
            Ok((ExchangeId::Kraken, 5, SubKind::PublicTrades)),
        ],
        vec![],
        vec![Ok((ExchangeId::Deribit, 0, SubKind::OrderBooksL2)), Ok((ExchangeId::Deribit, 0, SubKind::OrderBooksL2))],
    ];
    assert_eq!(
        validate_batches(batches),
        Ok(vec![
            vec![
                (ExchangeId::Kraken, 5, SubKind::PublicTrades),
                (ExchangeId::Kraken, 5, SubKind::OrderBooksL1),
                (ExchangeId::Okx, 1, SubKind::PublicTrades),
                (ExchangeId::Okx, 2, SubKind::PublicTrades),
            ],
            vec![],
            vec![(ExchangeId::Deribit, 0, SubKind::OrderBooksL2)],
        ])
    );
}

#[test]
fn validate_batches_refuses_the_first_invalid_subscription() {
    let batches: Vec<Vec<Result<(ExchangeId, u64, SubKind), SocketError>>> = vec![
        vec![Ok((ExchangeId::Okx, 0, SubKind::PublicTrades))],
        vec![
            Ok((ExchangeId::Kraken, 0, SubKind::OrderBooksL1)),
            Err(SocketError::Subscribe("first".to_string())),
            Err(SocketError::Subscribe("second".to_string())),
        ],
        vec![Err(SocketError::Subscribe("third".to_string()))],
    ];
    assert_eq!(validate_batches(batches), Err(DataError::Socket(SocketError::Subscribe("first".to_string()))));
}
