use barter::books::{OrderBook, OrderBookEvent};
use barter::error::DataError;
use barter::sequencer::{
    BinanceSequenceValidator,
    BybitLevel, BybitOrderBookInner, BybitOrderBookL2Sequencer, BybitOrderBookMessage, BybitPayloadKind,
};
use barter::time::Timestamp;
use barter_integration::subscription::SubscriptionId;
use rust_decimal::Decimal;
use std::str::FromStr;

fn dec(s: &str) -> Decimal {
    Decimal::from_str(s).unwrap()
}

fn message(kind: BybitPayloadKind, update_id: u64, seq: u64, bid_amount: &str, asks: Vec<BybitLevel>) -> BybitOrderBookMessage {
    BybitOrderBookMessage {
        subscription_id: SubscriptionId::from("orderbook.50|BTCUSDT"),
        kind,
        time: Timestamp { secs: 1672304486, nanos: 868_000_000 },
        data: BybitOrderBookInner {
            bids: vec![BybitLevel { price: dec("16493.50"), amount: dec(bid_amount) }],
            asks,
            update_id,
            sequence: seq,
        },
    }
}

fn make_snapshot(update_id: u64, seq: u64) -> BybitOrderBookMessage {
    message(
        BybitPayloadKind::Snapshot,
        update_id,
        seq,
        "0.006",
        vec![BybitLevel { price: dec("16494.00"), amount: dec("0.010") }],
    )
}

fn make_delta(update_id: u64, seq: u64) -> BybitOrderBookMessage {
    message(BybitPayloadKind::Delta, update_id, seq, "0.007", vec![])
}

fn new_sequencer() -> BybitOrderBookL2Sequencer {
    BybitOrderBookL2Sequencer::new(None, SubscriptionId::from("test")).unwrap()
}

#[test]
fn test_bybit_sequencer_new_without_snapshot() {
    let seq = BybitOrderBookL2Sequencer::new(None, SubscriptionId::from("test"));
    assert!(seq.is_ok());
    assert_eq!(seq.unwrap().last_update_id(), None);
}

#[test]
fn test_bybit_sequencer_new_with_snapshot() {
    let snapshot = OrderBookEvent::Snapshot(OrderBook { sequence: 100, time_engine: None, bids: vec![], asks: vec![] });
    let seq = BybitOrderBookL2Sequencer::new(Some(&snapshot), SubscriptionId::from("test"));
    assert!(seq.is_ok());
}

#[test]
fn test_bybit_sequencer_validate_snapshot() {
    let mut seq = new_sequencer();
    let snapshot = make_snapshot(100, 1);
    let result = seq.validate(snapshot.clone());
    assert!(result.is_ok());
    assert_eq!(result.unwrap(), Some(snapshot));
    assert_eq!(seq.last_update_id(), Some(100));
}

#[test]
fn test_bybit_sequencer_validate_delta_after_snapshot() {
    let mut seq = new_sequencer();
    seq.validate(make_snapshot(100, 1)).unwrap();
    let delta = make_delta(101, 2);
    let result = seq.validate(delta.clone());
    assert!(result.is_ok());
    assert_eq!(result.unwrap(), Some(delta));
    assert_eq!(seq.last_update_id(), Some(101));
}

#[test]
fn test_bybit_sequencer_validate_delta_before_snapshot_returns_none() {
    let mut seq = new_sequencer();
    let result = seq.validate(make_delta(101, 2));
    assert!(result.is_ok());
    assert_eq!(result.unwrap(), None);
    assert_eq!(seq.last_update_id(), None);
}

#[test]
fn test_bybit_sequencer_validate_sequence_gap_returns_error() {
    let mut seq = new_sequencer();
    seq.validate(make_snapshot(100, 1)).unwrap();
    let result = seq.validate(make_delta(105, 2));
    assert!(result.is_err());
    match result {
        Err(DataError::InvalidSequence { prev_last_update_id, first_update_id }) => {
            assert_eq!(prev_last_update_id, 100);
            assert_eq!(first_update_id, 105);
        }
        _ => panic!("Expected InvalidSequence error"),
    }
    assert_eq!(seq.last_update_id(), Some(100));
}

#[test]
fn test_bybit_sequencer_validate_sequential_deltas() {
    let mut seq = new_sequencer();
    seq.validate(make_snapshot(100, 1)).unwrap();
    for update_id in 101..=105 {
        let delta = make_delta(update_id, update_id);
        let result = seq.validate(delta.clone());
        assert!(result.is_ok());
        assert_eq!(result.unwrap(), Some(delta));
        assert_eq!(seq.last_update_id(), Some(update_id));
    }
}

#[test]
fn test_bybit_sequencer_validate_snapshot_resets_sequence() {
    let mut seq = new_sequencer();
    seq.validate(make_snapshot(100, 1)).unwrap();
    seq.validate(make_delta(101, 2)).unwrap();
    let snapshot2 = make_snapshot(200, 10);
    let result = seq.validate(snapshot2.clone());
    assert!(result.is_ok());
    assert_eq!(result.unwrap(), Some(snapshot2));
    assert_eq!(seq.last_update_id(), Some(200));
    let delta2 = make_delta(201, 11);
    let result = seq.validate(delta2.clone());
    assert!(result.is_ok());
    assert_eq!(result.unwrap(), Some(delta2));
}

#[test]
fn bybit_delta_after_max_id_is_a_gap() {
    let mut seq = new_sequencer();
    seq.validate(make_snapshot(u64::MAX, 1)).unwrap();
    assert!(matches!(seq.validate(make_delta(0, 2)), Err(DataError::InvalidSequence { .. })));
}

#[derive(Debug, Clone, PartialEq)]
struct SpotUpdate {
    first_update_id: u64,
    last_update_id: u64,
}

#[derive(Debug, Clone)]
struct SpotValidator {
    updates_processed: u64,
    last_update_id: u64,
}

impl BinanceSequenceValidator for SpotValidator {
    type Update = SpotUpdate;

    fn spec_is_first(&self) -> bool {
        self.is_first_update()
    }

    fn spec_is_outdated(&self, update: SpotUpdate) -> bool {
        self.is_outdated(&update)
    }

    fn spec_first_check(&self, update: SpotUpdate) -> Result<(), DataError> {
        self.validate_first_update(&update)
    }

    fn spec_next_check(&self, update: SpotUpdate) -> Result<(), DataError> {
        self.validate_next_update(&update)
    }

    fn spec_applied(&self, update: SpotUpdate) -> Self {
        let mut next = self.clone();
        next.apply_update(&update);
        next
    }

    fn is_first_update(&self) -> bool {
        self.updates_processed == 0
    }

    fn is_outdated(&self, update: &SpotUpdate) -> bool {
        update.last_update_id <= self.last_update_id
    }

    fn validate_first_update(&self, update: &SpotUpdate) -> Result<(), DataError> {
        let expected = self.last_update_id + 1;
        if update.first_update_id <= expected && update.last_update_id >= expected {
            Ok(())
        } else {
            Err(DataError::InvalidSequence {
                prev_last_update_id: self.last_update_id,
                first_update_id: update.first_update_id,
            })
        }
    }

    fn validate_next_update(&self, update: &SpotUpdate) -> Result<(), DataError> {
        if update.first_update_id == self.last_update_id + 1 {
            Ok(())
        } else {
            Err(DataError::InvalidSequence {
                prev_last_update_id: self.last_update_id,
                first_update_id: update.first_update_id,
            })
        }
    }

    fn apply_update(&mut self, update: &SpotUpdate) {
        self.updates_processed += 1;
        self.last_update_id = update.last_update_id;
    }
}

#[test]
fn binance_validate_sequence_drops_checks_and_applies() {
    let mut validator = SpotValidator { updates_processed: 0, last_update_id: 100 };

    // Outdated: dropped, nothing recorded.
    let stale = SpotUpdate { first_update_id: 95, last_update_id: 100 };
    assert_eq!(validator.validate_sequence(stale), Ok(None));
    assert_eq!(validator.updates_processed, 0);

    // The first update must straddle the snapshot.
    let first = SpotUpdate { first_update_id: 99, last_update_id: 105 };
    assert_eq!(validator.validate_sequence(first.clone()), Ok(Some(first)));
    assert_eq!(validator.last_update_id, 105);

    // Following updates must continue the sequence.
    let next = SpotUpdate { first_update_id: 106, last_update_id: 110 };
    assert_eq!(validator.validate_sequence(next.clone()), Ok(Some(next)));
    assert_eq!(validator.last_update_id, 110);

    // A gap is an error, and leaves the state as it was.
    let gap = SpotUpdate { first_update_id: 112, last_update_id: 115 };
    assert_eq!(
        validator.validate_sequence(gap),
        Err(DataError::InvalidSequence { prev_last_update_id: 110, first_update_id: 112 })
    );
    assert_eq!(validator.last_update_id, 110);
    assert_eq!(validator.updates_processed, 2);
}

#[test]
fn binance_first_update_that_misses_the_snapshot_is_a_gap() {
    let mut validator = SpotValidator { updates_processed: 0, last_update_id: 100 };
    let late = SpotUpdate { first_update_id: 103, last_update_id: 108 };
    assert_eq!(
        validator.validate_sequence(late),
        Err(DataError::InvalidSequence { prev_last_update_id: 100, first_update_id: 103 })
    );
    assert_eq!(validator.updates_processed, 0);
}
