//! Order book L2 streams that need sequencing: each subscription's updates go to
//! the sequencer of its instrument, and those it accepts become market events.
use crate::books::OrderBookEvent;
use crate::deribit::book::MarketEvent;
use crate::deribit::message::{sub_id_eq, subscription_id_from, subscription_ids_equal};
use crate::error::{DataError, SocketError};
use crate::exchange_id::ExchangeId;
use crate::sequencer::{opt_value, Identifier, OrderBookL2Sequencer, SequencedInstrument};
use barter_integration::subscription::SubscriptionId;
use vstd::prelude::*;
use vstd::std_specs::cmp::PartialEqSpec;

verus! {

/// The events that one exchange message yields.
pub struct MarketIter<InstrumentKey, Kind>(pub Vec<Result<MarketEvent<InstrumentKey, Kind>, DataError>>);

/// The message of an initial snapshot that turns out to be an update.
pub open spec fn snapshot_invalid_msg() -> Seq<char> {
    "expected OrderBookEvent::Snapshot but found OrderBookEvent::Update"@
}

/// Whether `i` is the position of the first event of instrument `key`.
pub open spec fn is_first_event<K: PartialEq>(s: Seq<MarketEvent<K, OrderBookEvent>>, key: K, i: int) -> bool {
    &&& 0 <= i < s.len()
    &&& s[i].instrument.eq_spec(&key)
    &&& forall|j: int| 0 <= j < i ==> !(#[trigger] s[j].instrument.eq_spec(&key))
}

/// The kind of the first event of instrument `key`, if there is one.
pub open spec fn first_kind<K: PartialEq>(s: Seq<MarketEvent<K, OrderBookEvent>>, key: K) -> Option<OrderBookEvent> {
    if exists|i: int| is_first_event(s, key, i) {
        Some(s[choose|i: int| is_first_event(s, key, i)].kind)
    } else {
        None
    }
}

/// Whether the first event of instrument `key` is an update, which cannot start a book.
pub open spec fn first_is_update<K: PartialEq>(s: Seq<MarketEvent<K, OrderBookEvent>>, key: K) -> bool {
    first_kind(s, key) matches Some(OrderBookEvent::Update(_))
}

/// The entries built from the first `n` instruments of `map`: for each, the
/// sequencer made from its initial snapshot; `None` where one of them fails.
pub open spec fn built<K: PartialEq, S: OrderBookL2Sequencer>(
    map: Seq<(SubscriptionId, K)>,
    snapshots: Seq<MarketEvent<K, OrderBookEvent>>,
    n: nat,
) -> Option<Seq<(SubscriptionId, SequencedInstrument<K, S>)>>
    decreases n,
{
    if n == 0 {
        Some(Seq::empty())
    } else {
        let entry = map[n - 1];
        match built::<K, S>(map, snapshots, (n - 1) as nat) {
            None => None,
            Some(prefix) => if first_is_update(snapshots, entry.1) {
                None
            } else {
                match S::spec_new(first_kind(snapshots, entry.1), entry.0) {
                    Ok(sequencer) => Some(prefix.push((entry.0, SequencedInstrument { key: entry.1, sequencer }))),
                    Err(_) => None,
                }
            },
        }
    }
}

/// Whether `e` is the error of instrument `i` of `map`, the first that fails: its
/// initial snapshot is an update, or its sequencer cannot be made.
pub open spec fn fails_at<K: PartialEq, S: OrderBookL2Sequencer>(
    map: Seq<(SubscriptionId, K)>,
    snapshots: Seq<MarketEvent<K, OrderBookEvent>>,
    i: int,
    e: DataError,
) -> bool {
    &&& 0 <= i < map.len()
    &&& built::<K, S>(map, snapshots, i as nat) is Some
    &&& if first_is_update(snapshots, map[i].1) {
        e matches DataError::InitialSnapshotInvalid(m) && m@ == snapshot_invalid_msg()
    } else {
        S::spec_new(first_kind(snapshots, map[i].1), map[i].0) == Err::<S, DataError>(e)
    }
}

/// Whether `i` is the position of the first entry routed by subscription `id`.
pub open spec fn is_route<K, S>(entries: Seq<(SubscriptionId, SequencedInstrument<K, S>)>, id: SubscriptionId, i: int) -> bool {
    &&& 0 <= i < entries.len()
    &&& subscription_ids_equal(entries[i].0, id)
    &&& forall|j: int| 0 <= j < i ==> !subscription_ids_equal(#[trigger] entries[j].0, id)
}

/// The position of the entry that subscription `id` routes to, if any.
pub open spec fn route_of<K, S>(entries: Seq<(SubscriptionId, SequencedInstrument<K, S>)>, id: SubscriptionId) -> Option<int> {
    if exists|i: int| is_route(entries, id, i) {
        Some(choose|i: int| is_route(entries, id, i))
    } else {
        None
    }
}

/// The initial snapshot of instrument `key`: the kind of its first event, if it is
/// a snapshot; none where it has no event; an error where it is an update.
fn initial_snapshot<'a, K: PartialEq>(key: &K, snapshots: &'a [MarketEvent<K, OrderBookEvent>]) -> (r: Result<
    Option<&'a OrderBookEvent>,
    DataError,
>)
    ensures
        K::obeys_eq_spec() ==> if first_is_update(snapshots@, *key) {
            r matches Err(DataError::InitialSnapshotInvalid(m)) && m@ == snapshot_invalid_msg()
        } else {
            r matches Ok(o) && opt_value(o) == first_kind(snapshots@, *key)
        },
{
    let mut i: usize = 0;
    while i < snapshots.len()
        invariant
            i <= snapshots.len(),
            K::obeys_eq_spec() ==> forall|j: int| 0 <= j < i ==> !(#[trigger] snapshots@[j].instrument.eq_spec(key)),
        decreases snapshots.len() - i,
    {
        if snapshots[i].instrument == *key {
            proof {
                if K::obeys_eq_spec() {
                    let s = snapshots@;
                    assert(is_first_event(s, *key, i as int));
                    let c = choose|c: int| is_first_event(s, *key, c);
                    if c < i {
                        assert(!s[c].instrument.eq_spec(key));
                    } else if c > i {
                        assert(!s[i as int].instrument.eq_spec(key));
                    }
                }
            }
            return match &snapshots[i].kind {
                OrderBookEvent::Snapshot(_) => Ok(Some(&snapshots[i].kind)),
                OrderBookEvent::Update(_) => Err(
                    DataError::InitialSnapshotInvalid(
                        String::from_str("expected OrderBookEvent::Snapshot but found OrderBookEvent::Update"),
                    ),
                ),
            };
        }
        i = i + 1;
    }
    proof {
        if K::obeys_eq_spec() {
            assert(!exists|c: int| is_first_event(snapshots@, *key, c));
        }
    }
    Ok(None)
}

/// A transformer of an exchange's order book L2 stream: per subscription, the
/// instrument it belongs to and the sequencer of its updates.
pub struct SequencedOrderBookL2Transformer<InstrumentKey, Sequencer> {
    exchange_id: ExchangeId,
    instrument_map: Vec<(SubscriptionId, SequencedInstrument<InstrumentKey, Sequencer>)>,
}

impl<K, S: OrderBookL2Sequencer> SequencedOrderBookL2Transformer<K, S> {
    /// The exchange whose events this transformer makes.
    pub closed spec fn spec_exchange(&self) -> ExchangeId {
        self.exchange_id
    }

    /// The subscriptions, in order, with their instruments and sequencers.
    pub closed spec fn spec_entries(&self) -> Seq<(SubscriptionId, SequencedInstrument<K, S>)> {
        self.instrument_map@
    }

    /// The position of the entry that subscription `id` routes to, if any.
    pub fn find(&self, id: &SubscriptionId) -> (r: Option<usize>)
        ensures
            match r {
                Some(i) => route_of(self.spec_entries(), *id) == Some(i as int),
                None => route_of(self.spec_entries(), *id) is None,
            },
    {
        let mut i: usize = 0;
        while i < self.instrument_map.len()
            invariant
                i <= self.instrument_map.len(),
                forall|j: int| 0 <= j < i ==> !subscription_ids_equal(#[trigger] self.instrument_map@[j].0, *id),
            decreases self.instrument_map.len() - i,
        {
            if sub_id_eq(&self.instrument_map[i].0, id) {
                proof {
                    let e = self.instrument_map@;
                    assert(is_route(e, *id, i as int));
                    let c = choose|c: int| is_route(e, *id, c);
                    if c < i {
                        assert(!subscription_ids_equal(e[c].0, *id));
                    } else if c > i {
                        assert(!subscription_ids_equal(e[i as int].0, *id));
                    }
                }
                return Some(i);
            }
            i = i + 1;
        }
        proof {
            assert(!exists|c: int| is_route(self.instrument_map@, *id, c));
        }
        None
    }
}

impl<K: PartialEq, S: OrderBookL2Sequencer> SequencedOrderBookL2Transformer<K, S> {
    /// The transformer of `exchange_id` for the instruments of `instrument_map`:
    /// each gets a sequencer made from its initial snapshot, the first event of
    /// it among `initial_snapshots` (none where it has no event). The first
    /// instrument whose snapshot is an update, or whose sequencer cannot be made,
    /// fails the whole.
    pub fn init(
        exchange_id: ExchangeId,
        instrument_map: Vec<(SubscriptionId, K)>,
        initial_snapshots: &[MarketEvent<K, OrderBookEvent>],
    ) -> (r: Result<Self, DataError>)
        ensures
            K::obeys_eq_spec() ==> match r {
                Ok(t) => t.spec_exchange() == exchange_id && built::<K, S>(
                    instrument_map@,
                    initial_snapshots@,
                    instrument_map@.len(),
                ) == Some(t.spec_entries()),
                Err(e) => built::<K, S>(instrument_map@, initial_snapshots@, instrument_map@.len()) is None
                    && exists|i: int| fails_at::<K, S>(instrument_map@, initial_snapshots@, i, e),
            },
    {
        let ghost map = instrument_map@;
        let ghost snaps = initial_snapshots@;
        let n = instrument_map.len();
        let mut rest = instrument_map;
        let mut entries: Vec<(SubscriptionId, SequencedInstrument<K, S>)> = Vec::new();
        let mut i: usize = 0;
        while i < n
            invariant
                i <= n,
                n == map.len(),
                map == instrument_map@,
                snaps == initial_snapshots@,
                rest@ == map.skip(i as int),
                K::obeys_eq_spec() ==> built::<K, S>(map, snaps, i as nat) == Some(entries@),
            decreases n - i,
        {
            proof {
                assert(rest@.len() == n - i);
            }
            let (sub_id, key) = rest.remove(0);
            proof {
                assert(map[i as int] == (sub_id, key));
                assert(rest@ == map.skip(i + 1));
            }
            let snapshot = match initial_snapshot(&key, initial_snapshots) {
                Ok(o) => o,
                Err(e) => {
                    proof {
                        if K::obeys_eq_spec() {
                            assert(fails_at::<K, S>(map, snaps, i as int, e));
                            lemma_built_stays_failed::<K, S>(map, snaps, (i + 1) as nat, n as nat);
                        }
                    }
                    return Err(e);
                },
            };
            let sequencer = match S::new(snapshot, sub_id.clone()) {
                Ok(q) => q,
                Err(e) => {
                    proof {
                        if K::obeys_eq_spec() {
                            assert(fails_at::<K, S>(map, snaps, i as int, e));
                            lemma_built_stays_failed::<K, S>(map, snaps, (i + 1) as nat, n as nat);
                        }
                    }
                    return Err(e);
                },
            };
            entries.push((sub_id, SequencedInstrument { key, sequencer }));
            i = i + 1;
        }
        Ok(SequencedOrderBookL2Transformer { exchange_id, instrument_map: entries })
    }
}

/// The events that a verdict of a sequencer gives for the instrument `key`: none
/// for a dropped update, the error for a gap, and for an accepted update what
/// `MarketIter`'s `From` makes of it with the exchange and a clone of `key`.
pub open spec fn verdict_events<K: Clone, U>(
    exchange: ExchangeId,
    key: K,
    verdict: Result<Option<U>, DataError>,
    r: Seq<Result<MarketEvent<K, OrderBookEvent>, DataError>>,
) -> bool where MarketIter<K, OrderBookEvent>: From<(ExchangeId, K, U)> {
    match verdict {
        Ok(None) => r.len() == 0,
        Err(e) => r == seq![Err::<MarketEvent<K, OrderBookEvent>, DataError>(e)],
        Ok(Some(u)) => exists|k: K, it: MarketIter<K, OrderBookEvent>|
            #![trigger cloned(key, k), call_ensures(<MarketIter<K, OrderBookEvent> as From<(ExchangeId, K, U)>>::from, ((exchange, k, u),), it)]
            cloned(key, k) && call_ensures(
                <MarketIter<K, OrderBookEvent> as From<(ExchangeId, K, U)>>::from,
                ((exchange, k, u),),
                it,
            ) && r == it.0@,
    }
}

impl<K: Clone, S: OrderBookL2Sequencer> SequencedOrderBookL2Transformer<K, S> where
    MarketIter<K, OrderBookEvent>: From<(ExchangeId, K, S::Update)>,
 {
    /// Transforms one update: an update that names no subscription gives nothing;
    /// one whose subscription routes nowhere gives an `Unidentifiable` error; else
    /// the sequencer of its instrument validates it (and moves on), and its
    /// verdict gives the events (see `verdict_events`).
    pub fn transform(&mut self, input: S::Update) -> (r: Vec<Result<MarketEvent<K, OrderBookEvent>, DataError>>)
        ensures
            final(self).spec_exchange() == old(self).spec_exchange(),
            match input.spec_id() {
                None => r@.len() == 0 && final(self).spec_entries() == old(self).spec_entries(),
                Some(id) => match route_of(old(self).spec_entries(), id) {
                    None => r@ == seq![Err::<MarketEvent<K, OrderBookEvent>, DataError>(DataError::Socket(SocketError::Unidentifiable(id)))]
                        && final(self).spec_entries() == old(self).spec_entries(),
                    Some(i) => {
                        let entry = old(self).spec_entries()[i];
                        let (next, verdict) = entry.1.sequencer.spec_validate(input);
                        &&& final(self).spec_entries() == old(self).spec_entries().update(
                            i,
                            (entry.0, SequencedInstrument { key: entry.1.key, sequencer: next }),
                        )
                        &&& verdict_events(old(self).spec_exchange(), entry.1.key, verdict, r@)
                    },
                },
            },
    {
        let subscription_id = match input.id() {
            Some(id) => id,
            None => return Vec::new(),
        };
        let i = match self.find(&subscription_id) {
            Some(i) => i,
            None => {
                let mut out = Vec::new();
                out.push(Err(DataError::Socket(SocketError::Unidentifiable(subscription_id))));
                return out;
            },
        };
        let ghost before = self.instrument_map@;
        let (sub_id, mut instrument) = self.instrument_map.remove(i);
        let ghost entry = before[i as int];
        let verdict = instrument.sequencer.validate(input);
        let events = verdict_to_events(self.exchange_id, &instrument.key, verdict);
        self.instrument_map.insert(i, (sub_id, instrument));
        proof {
            assert(self.instrument_map@ =~= before.update(
                i as int,
                (entry.0, SequencedInstrument { key: entry.1.key, sequencer: instrument.sequencer }),
            ));
        }
        events
    }
}

/// The events of a verdict for the instrument `key` (see `verdict_events`).
fn verdict_to_events<K: Clone, U>(exchange: ExchangeId, key: &K, verdict: Result<Option<U>, DataError>) -> (r: Vec<
    Result<MarketEvent<K, OrderBookEvent>, DataError>,
>) where MarketIter<K, OrderBookEvent>: From<(ExchangeId, K, U)>
    ensures
        verdict_events(exchange, *key, verdict, r@),
{
    match verdict {
        Ok(Some(update)) => {
            let k = key.clone();
            let events = MarketIter::<K, OrderBookEvent>::from((exchange, k, update));
            proof {
                assert(cloned(*key, k));
                assert(call_ensures(
                    <MarketIter<K, OrderBookEvent> as From<(ExchangeId, K, U)>>::from,
                    ((exchange, k, update),),
                    events,
                ));
            }
            events.0
        },
        Ok(None) => Vec::new(),
        Err(e) => {
            let mut out = Vec::new();
            out.push(Err(e));
            out
        },
    }
}

/// Once the first `m` instruments fail to build, so do the first `n >= m`.
proof fn lemma_built_stays_failed<K: PartialEq, S: OrderBookL2Sequencer>(
    map: Seq<(SubscriptionId, K)>,
    snapshots: Seq<MarketEvent<K, OrderBookEvent>>,
    m: nat,
    n: nat,
)
    requires
        m <= n,
        built::<K, S>(map, snapshots, m) is None,
    ensures
        built::<K, S>(map, snapshots, n) is None,
    decreases n - m,
{
    if m < n {
        lemma_built_stays_failed::<K, S>(map, snapshots, m + 1, n);
    }
}

/// Law: where `init` succeeds, it keeps every subscription, in order, each with
/// its own instrument and a sequencer made from that instrument's snapshot.
pub proof fn law_init_keeps_each_subscription<K: PartialEq, S: OrderBookL2Sequencer>(
    map: Seq<(SubscriptionId, K)>,
    snapshots: Seq<MarketEvent<K, OrderBookEvent>>,
    n: nat,
)
    requires
        n <= map.len(),
        built::<K, S>(map, snapshots, n) is Some,
    ensures
        ({
            let entries = built::<K, S>(map, snapshots, n)->0;
            &&& entries.len() == n
            &&& forall|i: int| 0 <= i < n ==> {
                &&& (#[trigger] entries[i]).0 == map[i].0
                &&& entries[i].1.key == map[i].1
                &&& !first_is_update(snapshots, map[i].1)
                &&& S::spec_new(first_kind(snapshots, map[i].1), map[i].0) == Ok::<S, DataError>(entries[i].1.sequencer)
            }
        }),
    decreases n,
{
    if n > 0 {
        law_init_keeps_each_subscription::<K, S>(map, snapshots, (n - 1) as nat);
    }
}

/// Law: where each subscription id routed by is the id `SubscriptionId::from`
/// makes of a text (so that, as derived `PartialEq` compares texts, it equals the
/// id of a text exactly when the texts agree), an update whose id is made of text
/// `t` routes to the first entry subscribed under `t`.
pub proof fn law_routes_to_subscription_of_text<K, S>(
    entries: Seq<(SubscriptionId, SequencedInstrument<K, S>)>,
    texts: Seq<Seq<char>>,
    i: int,
)
    requires
        entries.len() == texts.len(),
        forall|k: int, u: Seq<char>|
            0 <= k < entries.len() ==> #[trigger] subscription_ids_equal(entries[k].0, subscription_id_from(u)) == (u
                == texts[k]),
        0 <= i < texts.len(),
        forall|j: int| 0 <= j < i ==> texts[j] != texts[i],
    ensures
        route_of(entries, subscription_id_from(texts[i])) == Some(i),
{
    let id = subscription_id_from(texts[i]);
    assert(subscription_ids_equal(entries[i].0, id));
    assert forall|j: int| 0 <= j < i implies !subscription_ids_equal(#[trigger] entries[j].0, id) by {
        assert(subscription_ids_equal(entries[j].0, subscription_id_from(texts[i])) == (texts[i] == texts[j]));
    }
    assert(is_route(entries, id, i));
    let c = choose|c: int| is_route(entries, id, c);
    if c < i {
        assert(!subscription_ids_equal(entries[c].0, id));
    } else if c > i {
        assert(!subscription_ids_equal(entries[i].0, id));
    }
}

} // verus!
