use barter::books::{OrderBook, OrderBookEvent};
use barter::deribit::book::MarketEvent;
use barter::error::DataError;
use barter::exchange_id::ExchangeId;
use barter::sequencer::{BybitOrderBookL2Sequencer, Identifier, OrderBookL2Sequencer};
use barter::time::Timestamp;
use barter::transformer::SequencedOrderBookL2Transformer;
use barter_integration::subscription::SubscriptionId;

#[derive(Debug)]
struct MockSequencer {
    last_id: Option<u64>,
    sub_id: SubscriptionId,
}

#[derive(Debug, Clone, PartialEq)]
struct MockUpdate {
    id: u64,
    subscription_id: SubscriptionId,
}

impl Identifier<Option<SubscriptionId>> for MockUpdate {
    fn spec_id(&self) -> Option<SubscriptionId> {
        self.id()
    }

    fn id(&self) -> Option<SubscriptionId> {
        Some(self.subscription_id.clone())
    }
}

impl OrderBookL2Sequencer for MockSequencer {
    type Update = MockUpdate;

    fn spec_new(snapshot: Option<OrderBookEvent>, sub_id: SubscriptionId) -> Result<Self, DataError> {
        Self::new(snapshot.as_ref(), sub_id)
    }

    fn spec_validate(mut self, update: MockUpdate) -> (Self, Result<Option<MockUpdate>, DataError>) {
        let result = self.validate(update);
        (self, result)
    }

    fn new(snapshot: Option<&OrderBookEvent>, sub_id: SubscriptionId) -> Result<Self, DataError> {
        if let Some(OrderBookEvent::Update(_)) = snapshot {
            return Err(DataError::InitialSnapshotInvalid("expected Snapshot, got Update".to_string()));
        }
        let last_id = snapshot.and_then(|event| match event {
            OrderBookEvent::Snapshot(book) => Some(book.sequence),
            _ => None,
        });
        Ok(Self { last_id, sub_id })
    }

    fn validate(&mut self, update: Self::Update) -> Result<Option<Self::Update>, DataError> {
        match self.last_id {
            None => {
                self.last_id = Some(update.id);
                Ok(Some(update))
            }
            Some(last_id) => {
                if update.id == last_id + 1 {
                    self.last_id = Some(update.id);
                    Ok(Some(update))
                } else if update.id <= last_id {
                    Ok(None)
                } else {
                    Err(DataError::InvalidSequence { prev_last_update_id: last_id, first_update_id: update.id })
                }
            }
        }
    }
}

fn book(sequence: u64) -> OrderBook {
    OrderBook { sequence, time_engine: None, bids: vec![], asks: vec![] }
}

fn event(instrument: u32, kind: OrderBookEvent) -> MarketEvent<u32, OrderBookEvent> {
    let time = Timestamp { secs: 1_700_000_000, nanos: 0 };
    MarketEvent { time_exchange: time, time_received: time, exchange: ExchangeId::BybitSpot, instrument, kind }
}

#[test]
fn test_sequencer_new_with_valid_snapshot() {
    let snapshot = OrderBookEvent::Snapshot(book(100));
    let sub_id = SubscriptionId::from("test");

    let sequencer = MockSequencer::new(Some(&snapshot), sub_id.clone());
    assert!(sequencer.is_ok());

    let sequencer = sequencer.unwrap();
    assert_eq!(sequencer.last_id, Some(100));
    assert_eq!(sequencer.sub_id, sub_id);
}

#[test]
fn test_sequencer_new_with_update_instead_of_snapshot_errors() {
    let update = OrderBookEvent::Update(book(100));
    let sub_id = SubscriptionId::from("test");

    let result = MockSequencer::new(Some(&update), sub_id);
    assert!(result.is_err());

    match result {
        Err(DataError::InitialSnapshotInvalid(_)) => {}
        _ => panic!("Expected InitialSnapshotInvalid error"),
    }
}

#[test]
fn test_sequencer_new_without_snapshot() {
    let sub_id = SubscriptionId::from("test");
    let sequencer = MockSequencer::new(None, sub_id.clone());

    assert!(sequencer.is_ok());
    let sequencer = sequencer.unwrap();
    assert_eq!(sequencer.last_id, None);
}

#[test]
fn test_sequencer_validate_returns_valid_update() {
    let mut sequencer = MockSequencer::new(None, SubscriptionId::from("test")).unwrap();

    let update = MockUpdate { id: 1, subscription_id: SubscriptionId::from("test") };

    let result = sequencer.validate(update.clone());
    assert!(result.is_ok());
    assert_eq!(result.unwrap(), Some(update));
    assert_eq!(sequencer.last_id, Some(1));
}

#[test]
fn test_sequencer_validate_returns_none_for_stale() {
    let snapshot = OrderBookEvent::Snapshot(book(100));
    let mut sequencer = MockSequencer::new(Some(&snapshot), SubscriptionId::from("test")).unwrap();

    let stale_update = MockUpdate { id: 100, subscription_id: SubscriptionId::from("test") };

    let result = sequencer.validate(stale_update);
    assert!(result.is_ok());
    assert_eq!(result.unwrap(), None);
}

#[test]
fn test_sequencer_validate_returns_error_for_gap() {
    let snapshot = OrderBookEvent::Snapshot(book(100));
    let mut sequencer = MockSequencer::new(Some(&snapshot), SubscriptionId::from("test")).unwrap();

    let update_with_gap = MockUpdate { id: 105, subscription_id: SubscriptionId::from("test") };

    let result = sequencer.validate(update_with_gap);
    assert!(result.is_err());

    match result {
        Err(DataError::InvalidSequence { prev_last_update_id, first_update_id }) => {
            assert_eq!(prev_last_update_id, 100);
            assert_eq!(first_update_id, 105);
        }
        _ => panic!("Expected InvalidSequence error"),
    }
}

#[test]
fn test_sequencer_validate_sequential_updates() {
    let mut sequencer = MockSequencer::new(None, SubscriptionId::from("test")).unwrap();

    for id in 1..=5 {
        let update = MockUpdate { id, subscription_id: SubscriptionId::from("test") };

        let result = sequencer.validate(update.clone());
        assert!(result.is_ok());
        assert_eq!(result.unwrap(), Some(update));
        assert_eq!(sequencer.last_id, Some(id));
    }
}

#[test]
fn transformer_init_without_snapshots_routes_each_subscription() {
    let map = vec![(SubscriptionId::from("a"), 1u32), (SubscriptionId::from("b"), 2u32)];
    let transformer =
        SequencedOrderBookL2Transformer::<u32, MockSequencer>::init(ExchangeId::BybitSpot, map, &[]).unwrap();
    assert_eq!(transformer.find(&SubscriptionId::from("a")), Some(0));
    assert_eq!(transformer.find(&SubscriptionId::from("b")), Some(1));
    assert_eq!(transformer.find(&SubscriptionId::from("c")), None);
}

#[test]
fn transformer_init_takes_the_first_event_of_each_instrument() {
    let map = vec![(SubscriptionId::from("a"), 1u32), (SubscriptionId::from("b"), 2u32)];
    let snapshots = vec![
        event(2, OrderBookEvent::Snapshot(book(7))),
        event(1, OrderBookEvent::Snapshot(book(3))),
        event(1, OrderBookEvent::Update(book(4))),
    ];
    let result = SequencedOrderBookL2Transformer::<u32, MockSequencer>::init(ExchangeId::BybitSpot, map, &snapshots);
    assert!(result.is_ok());
}

#[test]
fn transformer_init_rejects_an_update_as_initial_snapshot() {
    let map = vec![(SubscriptionId::from("a"), 1u32), (SubscriptionId::from("b"), 2u32)];
    let snapshots = vec![event(2, OrderBookEvent::Update(book(7))), event(2, OrderBookEvent::Snapshot(book(8)))];
    let result = SequencedOrderBookL2Transformer::<u32, MockSequencer>::init(ExchangeId::BybitSpot, map, &snapshots);
    match result {
        Err(DataError::InitialSnapshotInvalid(message)) => {
            assert_eq!(message, "expected OrderBookEvent::Snapshot but found OrderBookEvent::Update");
        }
        _ => panic!("Expected InitialSnapshotInvalid error"),
    }
}

#[test]
fn transformer_init_with_bybit_sequencers() {
    let map = vec![(SubscriptionId::from("orderbook.50|BTCUSDT"), 0u32)];
    let transformer =
        SequencedOrderBookL2Transformer::<u32, BybitOrderBookL2Sequencer>::init(ExchangeId::BybitSpot, map, &[])
            .unwrap();
    assert_eq!(transformer.find(&SubscriptionId::from("orderbook.50|BTCUSDT")), Some(0));
    assert_eq!(transformer.find(&SubscriptionId::from("orderbook.50|ETHUSDT")), None);
}
