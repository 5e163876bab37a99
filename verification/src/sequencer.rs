//! Sequencing of order book L2 updates: which to apply, which to drop as stale,
//! and which reveal a gap.
use crate::books::OrderBookEvent;
use crate::error::DataError;
use crate::time::Timestamp;
use barter_integration::subscription::SubscriptionId;
use rust_decimal::Decimal;
use vstd::prelude::*;

verus! {

/// The validation flow shared by the Binance order book sequencers: drop outdated
/// updates, check the first or a following update, then record it.
pub trait BinanceSequenceValidator: Sized {
    /// The exchange-specific update type.
    type Update;

    /// Whether the next update is the first one processed.
    spec fn spec_is_first(&self) -> bool;

    /// Whether an update is outdated and to be dropped.
    spec fn spec_is_outdated(&self, update: Self::Update) -> bool;

    /// The check of the first update after the snapshot.
    spec fn spec_first_check(&self, update: Self::Update) -> Result<(), DataError>;

    /// The check that a following update continues the sequence.
    spec fn spec_next_check(&self, update: Self::Update) -> Result<(), DataError>;

    /// The state after an update is recorded.
    spec fn spec_applied(&self, update: Self::Update) -> Self;

    /// Whether the next update is the first one processed.
    fn is_first_update(&self) -> (r: bool)
        ensures
            r == self.spec_is_first(),
    ;

    /// Whether an update is outdated.
    fn is_outdated(&self, update: &Self::Update) -> (r: bool)
        ensures
            r == self.spec_is_outdated(*update),
    ;

    /// Checks the first update after the snapshot.
    fn validate_first_update(&self, update: &Self::Update) -> (r: Result<(), DataError>)
        ensures
            r == self.spec_first_check(*update),
    ;

    /// Checks that a following update continues the sequence.
    fn validate_next_update(&self, update: &Self::Update) -> (r: Result<(), DataError>)
        ensures
            r == self.spec_next_check(*update),
    ;

    /// Records an accepted update.
    fn apply_update(&mut self, update: &Self::Update)
        ensures
            *final(self) == old(self).spec_applied(*update),
    ;

    /// Validates an update: an outdated one is dropped (`Ok(None)`, nothing
    /// recorded); otherwise the first or following check decides, and on success
    /// the update is recorded and returned.
    fn validate_sequence(&mut self, update: Self::Update) -> (r: Result<Option<Self::Update>, DataError>)
        ensures
            old(self).spec_is_outdated(update) ==> r == Ok::<Option<Self::Update>, DataError>(None)
                && *final(self) == *old(self),
            !old(self).spec_is_outdated(update) ==> {
                let check = if old(self).spec_is_first() {
                    old(self).spec_first_check(update)
                } else {
                    old(self).spec_next_check(update)
                };
                match check {
                    Err(e) => r == Err::<Option<Self::Update>, DataError>(e) && *final(self) == *old(self),
                    Ok(()) => r == Ok::<Option<Self::Update>, DataError>(Some(update))
                        && *final(self) == old(self).spec_applied(update),
                }
            },
    {
        if self.is_outdated(&update) {
            return Ok(None);
        }
        if self.is_first_update() {
            if let Err(e) = self.validate_first_update(&update) {
                return Err(e);
            }
        } else {
            if let Err(e) = self.validate_next_update(&update) {
                return Err(e);
            }
        }
        self.apply_update(&update);
        Ok(Some(update))
    }
}

/// What identifies the subscription a message belongs to.
pub trait Identifier<T> {
    /// The identifier of `self`.
    spec fn spec_id(&self) -> T;

    /// The identifier of `self`.
    fn id(&self) -> (r: T)
        ensures
            r == self.spec_id(),
    ;
}

/// The value behind an optional reference.
pub open spec fn opt_value<T>(o: Option<&T>) -> Option<T> {
    match o {
        Some(v) => Some(*v),
        None => None,
    }
}

/// The sequencing of an exchange's order book L2 updates, implemented per exchange.
pub trait OrderBookL2Sequencer: Sized {
    /// The exchange's update type.
    type Update: Identifier<Option<SubscriptionId>>;

    /// The sequencer (or the error) that `new` gives for a snapshot and a subscription.
    spec fn spec_new(snapshot: Option<OrderBookEvent>, sub_id: SubscriptionId) -> Result<Self, DataError>;

    /// What `validate` does with `update`: the next state of the sequencer, and
    /// the result (`Ok(Some(update))` to apply it, `Ok(None)` to drop it, `Err` on a gap).
    spec fn spec_validate(self, update: Self::Update) -> (Self, Result<Option<Self::Update>, DataError>);

    /// A sequencer starting from an optional initial snapshot.
    fn new(snapshot: Option<&OrderBookEvent>, sub_id: SubscriptionId) -> (r: Result<Self, DataError>)
        ensures
            r == Self::spec_new(opt_value(snapshot), sub_id),
    ;

    /// `Ok(Some(update))` to apply an update, `Ok(None)` to drop it, `Err` on a gap.
    fn validate(&mut self, update: Self::Update) -> (r: Result<Option<Self::Update>, DataError>)
        ensures
            (*final(self), r) == old(self).spec_validate(update),
    ;
}

/// An instrument key together with the sequencer of its updates.
pub struct SequencedInstrument<InstrumentKey, Sequencer> {
    pub key: InstrumentKey,
    pub sequencer: Sequencer,
}

/// Whether a Bybit order book message is a snapshot or a delta.
#[derive(Copy, Clone, Debug, PartialEq, Eq, Structural)]
pub enum BybitPayloadKind {
    Snapshot,
    Delta,
}

/// A price level of a Bybit order book message.
#[derive(Copy, Clone, Debug, PartialEq)]
pub struct BybitLevel {
    pub price: Decimal,
    pub amount: Decimal,
}

/// The book of a Bybit order book message: levels, update id and sequence.
#[derive(Clone, Debug, PartialEq)]
pub struct BybitOrderBookInner {
    pub bids: Vec<BybitLevel>,
    pub asks: Vec<BybitLevel>,
    pub update_id: u64,
    pub sequence: u64,
}

/// A Bybit order book message.
#[derive(Clone, Debug, PartialEq)]
pub struct BybitOrderBookMessage {
    pub subscription_id: SubscriptionId,
    pub kind: BybitPayloadKind,
    pub time: Timestamp,
    pub data: BybitOrderBookInner,
}

/// The sequencer of Bybit order book updates: it starts from the first snapshot
/// the stream sends and then expects update ids to follow one by one.
#[derive(Debug)]
pub struct BybitOrderBookL2Sequencer {
    last_update_id: Option<u64>,
}

/// What validating a Bybit update with update id `id` gives, from the last update
/// id applied: the result (`None`: dropped; `Some(Err)`: a gap) and the new last id.
/// A snapshot always applies; a delta applies where it follows the last id by one,
/// is a gap where it does not, and is dropped before any snapshot.
pub open spec fn bybit_step(last: Option<u64>, snapshot: bool, id: u64) -> (Option<Result<(), DataError>>, Option<u64>) {
    if snapshot {
        (Some(Ok(())), Some(id))
    } else {
        match last {
            None => (None, None),
            Some(l) => if id as int == l as int + 1 {
                (Some(Ok(())), Some(id))
            } else {
                (Some(Err(DataError::InvalidSequence { prev_last_update_id: l, first_update_id: id })), Some(l))
            },
        }
    }
}

impl BybitOrderBookL2Sequencer {
    /// The last update id applied, if any.
    pub closed spec fn spec_last(&self) -> Option<u64> {
        self.last_update_id
    }

    /// A sequencer awaiting its first snapshot; Bybit needs no initial snapshot,
    /// so one given is not used.
    pub fn new(snapshot: Option<&OrderBookEvent>, sub_id: SubscriptionId) -> (r: Result<Self, DataError>)
        ensures
            r matches Ok(s) && s.spec_last() is None,
    {
        let _ = snapshot;
        let _ = sub_id;
        Ok(BybitOrderBookL2Sequencer { last_update_id: None })
    }

    /// The last update id applied, if any.
    pub fn last_update_id(&self) -> (r: Option<u64>)
        ensures
            r == self.spec_last(),
    {
        self.last_update_id
    }

    /// Validates an update (see `bybit_step`): `Ok(Some(update))` to apply it,
    /// `Ok(None)` to drop it, `Err` on a gap.
    pub fn validate(&mut self, update: BybitOrderBookMessage) -> (r: Result<Option<BybitOrderBookMessage>, DataError>)
        ensures
            final(self).spec_last() == bybit_step(old(self).spec_last(), update.kind == BybitPayloadKind::Snapshot, update.data.update_id).1,
            match bybit_step(old(self).spec_last(), update.kind == BybitPayloadKind::Snapshot, update.data.update_id).0 {
                None => r == Ok::<Option<BybitOrderBookMessage>, DataError>(None),
                Some(Ok(())) => r == Ok::<Option<BybitOrderBookMessage>, DataError>(Some(update)),
                Some(Err(e)) => r == Err::<Option<BybitOrderBookMessage>, DataError>(e),
            },
    {
        if update.kind == BybitPayloadKind::Snapshot {
            self.last_update_id = Some(update.data.update_id);
            return Ok(Some(update));
        }
        match self.last_update_id {
            Some(last) => {
                if last == u64::MAX || update.data.update_id != last + 1 {
                    return Err(DataError::InvalidSequence { prev_last_update_id: last, first_update_id: update.data.update_id });
                }
                self.last_update_id = Some(update.data.update_id);
                Ok(Some(update))
            },
            None => Ok(None),
        }
    }
}

impl Identifier<Option<SubscriptionId>> for BybitOrderBookMessage {
    open spec fn spec_id(&self) -> Option<SubscriptionId> {
        Some(self.subscription_id)
    }

    fn id(&self) -> (r: Option<SubscriptionId>) {
        Some(self.subscription_id.clone())
    }
}

/// The verdict of `bybit_step` on an update, as `validate` returns it.
pub open spec fn bybit_verdict(step: Option<Result<(), DataError>>, update: BybitOrderBookMessage) -> Result<Option<BybitOrderBookMessage>, DataError> {
    match step {
        None => Ok(None),
        Some(Ok(())) => Ok(Some(update)),
        Some(Err(e)) => Err(e),
    }
}

impl OrderBookL2Sequencer for BybitOrderBookL2Sequencer {
    type Update = BybitOrderBookMessage;

    closed spec fn spec_new(snapshot: Option<OrderBookEvent>, sub_id: SubscriptionId) -> Result<Self, DataError> {
        Ok(BybitOrderBookL2Sequencer { last_update_id: None })
    }

    closed spec fn spec_validate(self, update: BybitOrderBookMessage) -> (Self, Result<Option<BybitOrderBookMessage>, DataError>) {
        let step = bybit_step(self.last_update_id, update.kind == BybitPayloadKind::Snapshot, update.data.update_id);
        (BybitOrderBookL2Sequencer { last_update_id: step.1 }, bybit_verdict(step.0, update))
    }

    fn new(snapshot: Option<&OrderBookEvent>, sub_id: SubscriptionId) -> (r: Result<Self, DataError>) {
        BybitOrderBookL2Sequencer::new(snapshot, sub_id)
    }

    fn validate(&mut self, update: BybitOrderBookMessage) -> (r: Result<Option<BybitOrderBookMessage>, DataError>) {
        BybitOrderBookL2Sequencer::validate(self, update)
    }
}

/// Law: after a snapshot with update id `s`, the deltas `s + 1, ..., s + n` all
/// apply, and the last id applied is then `s + n`.
pub proof fn law_bybit_consecutive_deltas_apply(s: u64, n: u64)
    requires
        s as int + n as int <= u64::MAX,
    ensures
        bybit_chain(bybit_step(None, true, s).1, s, n) == Some(((s as int + n as int) as u64)),
    decreases n,
{
    if n > 0 {
        law_bybit_consecutive_deltas_apply(s, (n - 1) as u64);
    }
}

/// The last id after deltas `s + 1, ..., s + n` from the last id `last`, where each
/// applies; `None` where one does not.
pub open spec fn bybit_chain(last: Option<u64>, s: u64, n: u64) -> Option<u64>
    decreases n,
{
    if n == 0 {
        last
    } else {
        match bybit_chain(last, s, (n - 1) as u64) {
            None => None,
            Some(l) => {
                let id = (s as int + n as int) as u64;
                let step = bybit_step(Some(l), false, id);
                match step.0 {
                    Some(Ok(())) => step.1,
                    _ => None,
                }
            },
        }
    }
}

/// Law: a delta that does not follow the last id by one is a gap, and leaves the
/// sequencer where it was; a snapshot always resets it to its own id.
pub proof fn law_bybit_gap_and_reset(last: u64, id: u64)
    ensures
        id as int != last as int + 1 ==> bybit_step(Some(last), false, id) == (
            Some(Err::<(), DataError>(DataError::InvalidSequence { prev_last_update_id: last, first_update_id: id })),
            Some(last),
        ),
        bybit_step(Some(last), true, id).1 == Some(id),
        bybit_step(None, false, id).0 is None,
{
}

} // verus!
