//! The planning behind dynamic streams: which channels to open for a set of
//! subscriptions, how subscriptions group into streams, and which connector
//! serves each group.
use crate::error::{DataError, SocketError, SubKind};
use crate::exchange_id::ExchangeId;
use vstd::prelude::*;

verus! {

/// The exchanges of the channels to open, one list per subscription kind, each
/// exchange once, in the order first requested.
#[derive(Clone, Debug, PartialEq, Eq)]
pub struct ChannelPlan {
    pub trades: Vec<ExchangeId>,
    pub l1s: Vec<ExchangeId>,
    pub l2s: Vec<ExchangeId>,
    pub l3s: Vec<ExchangeId>,
    pub liquidations: Vec<ExchangeId>,
    pub candles: Vec<ExchangeId>,
}

/// The exchange and kind of each subscription of the batches, in order.
pub open spec fn pairs_of(batches: Seq<Vec<(ExchangeId, SubKind)>>) -> Seq<(ExchangeId, SubKind)>
    decreases batches.len(),
{
    if batches.len() == 0 {
        Seq::empty()
    } else {
        pairs_of(batches.drop_last()) + batches.last()@
    }
}

/// The distinct exchanges of `kind` among `pairs`, in the order first seen.
pub open spec fn exchanges_for(pairs: Seq<(ExchangeId, SubKind)>, kind: SubKind) -> Seq<ExchangeId>
    decreases pairs.len(),
{
    if pairs.len() == 0 {
        Seq::empty()
    } else {
        let prefix = exchanges_for(pairs.drop_last(), kind);
        let (e, k) = pairs.last();
        if k == kind && !prefix.contains(e) {
            prefix.push(e)
        } else {
            prefix
        }
    }
}

impl ChannelPlan {
    /// The exchanges planned for `kind`.
    pub open spec fn spec_for(&self, kind: SubKind) -> Seq<ExchangeId> {
        match kind {
            SubKind::PublicTrades => self.trades@,
            SubKind::OrderBooksL1 => self.l1s@,
            SubKind::OrderBooksL2 => self.l2s@,
            SubKind::OrderBooksL3 => self.l3s@,
            SubKind::Liquidations => self.liquidations@,
            SubKind::Candles => self.candles@,
        }
    }

    /// The exchanges planned for `kind`.
    pub fn exchanges(&self, kind: SubKind) -> (r: &Vec<ExchangeId>)
        ensures
            r@ == self.spec_for(kind),
    {
        match kind {
            SubKind::PublicTrades => &self.trades,
            SubKind::OrderBooksL1 => &self.l1s,
            SubKind::OrderBooksL2 => &self.l2s,
            SubKind::OrderBooksL3 => &self.l3s,
            SubKind::Liquidations => &self.liquidations,
            SubKind::Candles => &self.candles,
        }
    }

    /// Whether a channel is planned for `exchange` and `kind`.
    pub fn contains(&self, exchange: ExchangeId, kind: SubKind) -> (r: bool)
        ensures
            r == self.spec_for(kind).contains(exchange),
    {
        let list = self.exchanges(kind);
        contains_exchange(list, exchange)
    }

    /// The channels to open for batches of subscriptions, given by their exchange
    /// and kind: one per exchange and kind requested. Every requested pair having
    /// a channel is checked, and `ChannelNotFound` names the first that has none.
    pub fn try_from(batches: &Vec<Vec<(ExchangeId, SubKind)>>) -> (r: Result<Self, DataError>)
        ensures
            r matches Ok(plan) && forall|k: SubKind| #[trigger] plan.spec_for(k) == exchanges_for(pairs_of(batches@), k),
    {
        let mut plan = ChannelPlan {
            trades: Vec::new(),
            l1s: Vec::new(),
            l2s: Vec::new(),
            l3s: Vec::new(),
            liquidations: Vec::new(),
            candles: Vec::new(),
        };
        let mut seen: Vec<(ExchangeId, SubKind)> = Vec::new();
        let mut b: usize = 0;
        while b < batches.len()
            invariant
                b <= batches.len(),
                seen@ == pairs_of(batches@.take(b as int)),
                forall|k: SubKind| #[trigger] plan.spec_for(k) == exchanges_for(seen@, k),
            decreases batches.len() - b,
        {
            let batch = &batches[b];
            let ghost start = seen@;
            let mut i: usize = 0;
            while i < batch.len()
                invariant
                    i <= batch.len(),
                    seen@ == start + batch@.take(i as int),
                    forall|k: SubKind| #[trigger] plan.spec_for(k) == exchanges_for(seen@, k),
                decreases batch.len() - i,
            {
                let (e, k) = batch[i];
                let present = plan.contains(e, k);
                let ghost before = seen@;
                let ghost old_plan = plan;
                if !present {
                    match k {
                        SubKind::PublicTrades => plan.trades.push(e),
                        SubKind::OrderBooksL1 => plan.l1s.push(e),
                        SubKind::OrderBooksL2 => plan.l2s.push(e),
                        SubKind::OrderBooksL3 => plan.l3s.push(e),
                        SubKind::Liquidations => plan.liquidations.push(e),
                        SubKind::Candles => plan.candles.push(e),
                    }
                }
                seen.push((e, k));
                proof {
                    assert(seen@.drop_last() =~= before);
                    assert(start + batch@.take(i as int + 1) =~= (start + batch@.take(i as int)).push(batch@[i as int]));
                    assert forall|kk: SubKind| #[trigger] plan.spec_for(kk) == exchanges_for(seen@, kk) by {
                        assert(old_plan.spec_for(kk) == exchanges_for(before, kk));
                    }
                }
                i = i + 1;
            }
            proof {
                assert(batch@.take(batch.len() as int) =~= batch@);
                assert(batches@.take(b as int + 1).drop_last() =~= batches@.take(b as int));
            }
            b = b + 1;
        }
        proof {
            assert(batches@.take(batches.len() as int) =~= batches@);
        }
        proof {
            assert forall|jj: int| 0 <= jj < seen@.len() implies #[trigger] exchanges_for(seen@, seen@[jj].1).contains(seen@[jj].0) by {
                law_channel_for_every_pair(seen@, seen@[jj].0, seen@[jj].1);
            }
        }
        let mut j: usize = 0;
        while j < seen.len()
            invariant
                j <= seen.len(),
                forall|k: SubKind| #[trigger] plan.spec_for(k) == exchanges_for(seen@, k),
                forall|jj: int| 0 <= jj < seen@.len() ==> #[trigger] exchanges_for(seen@, seen@[jj].1).contains(seen@[jj].0),
            decreases seen.len() - j,
        {
            let (e, k) = seen[j];
            if !plan.contains(e, k) {
                return Err(DataError::ChannelNotFound { exchange: e, sub_kind: k });
            }
            j = j + 1;
        }
        Ok(plan)
    }
}

/// Whether `e` is among `list`.
fn contains_exchange(list: &Vec<ExchangeId>, e: ExchangeId) -> (r: bool)
    ensures
        r == list@.contains(e),
{
    let mut i: usize = 0;
    while i < list.len()
        invariant
            i <= list.len(),
            forall|j: int| 0 <= j < i ==> list@[j] != e,
        decreases list.len() - i,
    {
        if list[i] == e {
            return true;
        }
        i = i + 1;
    }
    false
}

/// Law: every requested exchange and kind gets a channel.
pub proof fn law_channel_for_every_pair(pairs: Seq<(ExchangeId, SubKind)>, e: ExchangeId, k: SubKind)
    requires
        pairs.contains((e, k)),
    ensures
        exchanges_for(pairs, k).contains(e),
    decreases pairs.len(),
{
    let pre = pairs.drop_last();
    let j = choose|j: int| 0 <= j < pairs.len() && pairs[j] == (e, k);
    if j < pairs.len() - 1 {
        assert(pre[j] == pairs[j]);
        law_channel_for_every_pair(pre, e, k);
        let prefix = exchanges_for(pre, k);
        let i = choose|i: int| 0 <= i < prefix.len() && prefix[i] == e;
        assert(exchanges_for(pairs, k)[i] == e);
    } else {
        let prefix = exchanges_for(pre, k);
        if !prefix.contains(e) {
            assert(exchanges_for(pairs, k)[prefix.len() as int] == e);
        } else {
            let i = choose|i: int| 0 <= i < prefix.len() && prefix[i] == e;
            assert(exchanges_for(pairs, k)[i] == e);
        }
    }
}

/// Law: a channel is planned only for a requested exchange and kind, and at most
/// once.
pub proof fn law_channels_only_requested_and_distinct(pairs: Seq<(ExchangeId, SubKind)>, k: SubKind)
    ensures
        exchanges_for(pairs, k).no_duplicates(),
        forall|e: ExchangeId| exchanges_for(pairs, k).contains(e) ==> pairs.contains((e, k)),
    decreases pairs.len(),
{
    if pairs.len() > 0 {
        let pre = pairs.drop_last();
        law_channels_only_requested_and_distinct(pre, k);
        let prefix = exchanges_for(pre, k);
        assert forall|e: ExchangeId| exchanges_for(pairs, k).contains(e) implies pairs.contains((e, k)) by {
            let r = exchanges_for(pairs, k);
            let i = choose|i: int| 0 <= i < r.len() && r[i] == e;
            if i < prefix.len() {
                assert(prefix[i] == e);
                assert(prefix.contains(e));
                let j = choose|j: int| 0 <= j < pre.len() && pre[j] == (e, k);
                assert(pairs[j] == (e, k));
            } else {
                assert(pairs[pairs.len() - 1] == (e, k));
            }
        }
    }
}

/// The position of an exchange in the declaration order of `ExchangeId`, which its
/// derived `Ord` follows.
pub open spec fn exchange_rank(e: ExchangeId) -> int {
    match e {
        ExchangeId::Other => 0,
        ExchangeId::Simulated => 1,
        ExchangeId::Mock => 2,
        ExchangeId::BinanceFuturesCoin => 3,
        ExchangeId::BinanceFuturesUsd => 4,
        ExchangeId::BinanceOptions => 5,
        ExchangeId::BinancePortfolioMargin => 6,
        ExchangeId::BinanceSpot => 7,
        ExchangeId::BinanceUs => 8,
        ExchangeId::Bitazza => 9,
        ExchangeId::Bitfinex => 10,
        ExchangeId::Bitflyer => 11,
        ExchangeId::Bitget => 12,
        ExchangeId::Bitmart => 13,
        ExchangeId::BitmartFuturesUsd => 14,
        ExchangeId::Bitmex => 15,
        ExchangeId::Bitso => 16,
        ExchangeId::Bitstamp => 17,
        ExchangeId::Bitvavo => 18,
        ExchangeId::Bithumb => 19,
        ExchangeId::BybitPerpetualsUsd => 20,
        ExchangeId::BybitSpot => 21,
        ExchangeId::Cexio => 22,
        ExchangeId::Coinbase => 23,
        ExchangeId::CoinbaseInternational => 24,
        ExchangeId::Cryptocom => 25,
        ExchangeId::Deribit => 26,
        ExchangeId::GateioFuturesBtc => 27,
        ExchangeId::GateioFuturesUsd => 28,
        ExchangeId::GateioOptions => 29,
        ExchangeId::GateioPerpetualsBtc => 30,
        ExchangeId::GateioPerpetualsUsd => 31,
        ExchangeId::GateioSpot => 32,
        ExchangeId::Gemini => 33,
        ExchangeId::Hitbtc => 34,
        ExchangeId::Htx => 35,
        ExchangeId::Kraken => 36,
        ExchangeId::Kucoin => 37,
        ExchangeId::Liquid => 38,
        ExchangeId::Mexc => 39,
        ExchangeId::Okx => 40,
        ExchangeId::Poloniex => 41,
    }
}

/// The position of an exchange in `ExchangeId`'s declaration order.
pub fn exchange_position(e: ExchangeId) -> (r: u8)
    ensures
        r as int == exchange_rank(e),
{
    match e {
        ExchangeId::Other => 0,
        ExchangeId::Simulated => 1,
        ExchangeId::Mock => 2,
        ExchangeId::BinanceFuturesCoin => 3,
        ExchangeId::BinanceFuturesUsd => 4,
        ExchangeId::BinanceOptions => 5,
        ExchangeId::BinancePortfolioMargin => 6,
        ExchangeId::BinanceSpot => 7,
        ExchangeId::BinanceUs => 8,
        ExchangeId::Bitazza => 9,
        ExchangeId::Bitfinex => 10,
        ExchangeId::Bitflyer => 11,
        ExchangeId::Bitget => 12,
        ExchangeId::Bitmart => 13,
        ExchangeId::BitmartFuturesUsd => 14,
        ExchangeId::Bitmex => 15,
        ExchangeId::Bitso => 16,
        ExchangeId::Bitstamp => 17,
        ExchangeId::Bitvavo => 18,
        ExchangeId::Bithumb => 19,
        ExchangeId::BybitPerpetualsUsd => 20,
        ExchangeId::BybitSpot => 21,
        ExchangeId::Cexio => 22,
        ExchangeId::Coinbase => 23,
        ExchangeId::CoinbaseInternational => 24,
        ExchangeId::Cryptocom => 25,
        ExchangeId::Deribit => 26,
        ExchangeId::GateioFuturesBtc => 27,
        ExchangeId::GateioFuturesUsd => 28,
        ExchangeId::GateioOptions => 29,
        ExchangeId::GateioPerpetualsBtc => 30,
        ExchangeId::GateioPerpetualsUsd => 31,
        ExchangeId::GateioSpot => 32,
        ExchangeId::Gemini => 33,
        ExchangeId::Hitbtc => 34,
        ExchangeId::Htx => 35,
        ExchangeId::Kraken => 36,
        ExchangeId::Kucoin => 37,
        ExchangeId::Liquid => 38,
        ExchangeId::Mexc => 39,
        ExchangeId::Okx => 40,
        ExchangeId::Poloniex => 41,
    }
}

/// The position of a subscription kind in its declaration order.
pub open spec fn kind_rank(k: SubKind) -> int {
    match k {
        SubKind::PublicTrades => 0,
        SubKind::OrderBooksL1 => 1,
        SubKind::OrderBooksL2 => 2,
        SubKind::OrderBooksL3 => 3,
        SubKind::Liquidations => 4,
        SubKind::Candles => 5,
    }
}

/// The position of a subscription kind in its declaration order.
pub fn kind_position(k: SubKind) -> (r: u8)
    ensures
        r as int == kind_rank(k),
{
    match k {
        SubKind::PublicTrades => 0,
        SubKind::OrderBooksL1 => 1,
        SubKind::OrderBooksL2 => 2,
        SubKind::OrderBooksL3 => 3,
        SubKind::Liquidations => 4,
        SubKind::Candles => 5,
    }
}

/// Whether key `a` orders before key `b`: by exchange, then by kind.
pub open spec fn key_lt(a: (ExchangeId, SubKind), b: (ExchangeId, SubKind)) -> bool {
    exchange_rank(a.0) < exchange_rank(b.0) || (exchange_rank(a.0) == exchange_rank(b.0) && kind_rank(a.1) < kind_rank(b.1))
}

/// Whether key `a` orders before key `b` (see `key_lt`).
fn key_less(a: (ExchangeId, SubKind), b: (ExchangeId, SubKind)) -> (r: bool)
    ensures
        r == key_lt(a, b),
{
    let ea = exchange_position(a.0);
    let eb = exchange_position(b.0);
    ea < eb || (ea == eb && kind_position(a.1) < kind_position(b.1))
}

/// Which connector serves streams of an exchange and kind: the exchange's own
/// (Bybit perpetual order books included, on the perpetuals connector); none
/// where no stream is defined for the pair.
pub open spec fn connector_for(e: ExchangeId, k: SubKind) -> Option<ExchangeId> {
    match (e, k) {
        (ExchangeId::BinanceSpot, SubKind::PublicTrades) => Some(e),
        (ExchangeId::BinanceSpot, SubKind::OrderBooksL1) => Some(e),
        (ExchangeId::BinanceSpot, SubKind::OrderBooksL2) => Some(e),
        (ExchangeId::BinanceFuturesUsd, SubKind::PublicTrades) => Some(e),
        (ExchangeId::BinanceFuturesUsd, SubKind::OrderBooksL1) => Some(e),
        (ExchangeId::BinanceFuturesUsd, SubKind::OrderBooksL2) => Some(e),
        (ExchangeId::BinanceFuturesUsd, SubKind::Liquidations) => Some(e),
        (ExchangeId::Bitfinex, SubKind::PublicTrades) => Some(e),
        (ExchangeId::Bitmex, SubKind::PublicTrades) => Some(e),
        (ExchangeId::BybitSpot, SubKind::PublicTrades) => Some(e),
        (ExchangeId::BybitSpot, SubKind::OrderBooksL1) => Some(e),
        (ExchangeId::BybitSpot, SubKind::OrderBooksL2) => Some(e),
        (ExchangeId::BybitPerpetualsUsd, SubKind::PublicTrades) => Some(e),
        (ExchangeId::BybitPerpetualsUsd, SubKind::OrderBooksL1) => Some(e),
        (ExchangeId::BybitPerpetualsUsd, SubKind::OrderBooksL2) => Some(e),
        (ExchangeId::Coinbase, SubKind::PublicTrades) => Some(e),
        (ExchangeId::GateioSpot, SubKind::PublicTrades) => Some(e),
        (ExchangeId::GateioFuturesUsd, SubKind::PublicTrades) => Some(e),
        (ExchangeId::GateioFuturesBtc, SubKind::PublicTrades) => Some(e),
        (ExchangeId::GateioPerpetualsUsd, SubKind::PublicTrades) => Some(e),
        (ExchangeId::GateioPerpetualsBtc, SubKind::PublicTrades) => Some(e),
        (ExchangeId::GateioOptions, SubKind::PublicTrades) => Some(e),
        (ExchangeId::Kraken, SubKind::PublicTrades) => Some(e),
        (ExchangeId::Kraken, SubKind::OrderBooksL1) => Some(e),
        (ExchangeId::Okx, SubKind::PublicTrades) => Some(e),
        _ => None,
    }
}

/// The connector serving streams of an exchange and kind (see `connector_for`).
pub fn stream_connector(e: ExchangeId, k: SubKind) -> (r: Result<ExchangeId, DataError>)
    ensures
        match connector_for(e, k) {
            Some(c) => r == Ok::<ExchangeId, DataError>(c),
            None => r == Err::<ExchangeId, DataError>(DataError::Unsupported { exchange: e, sub_kind: k }),
        },
{
    match (e, k) {
        (ExchangeId::BinanceSpot, SubKind::PublicTrades) => Ok(e),
        (ExchangeId::BinanceSpot, SubKind::OrderBooksL1) => Ok(e),
        (ExchangeId::BinanceSpot, SubKind::OrderBooksL2) => Ok(e),
        (ExchangeId::BinanceFuturesUsd, SubKind::PublicTrades) => Ok(e),
        (ExchangeId::BinanceFuturesUsd, SubKind::OrderBooksL1) => Ok(e),
        (ExchangeId::BinanceFuturesUsd, SubKind::OrderBooksL2) => Ok(e),
        (ExchangeId::BinanceFuturesUsd, SubKind::Liquidations) => Ok(e),
        (ExchangeId::Bitfinex, SubKind::PublicTrades) => Ok(e),
        (ExchangeId::Bitmex, SubKind::PublicTrades) => Ok(e),
        (ExchangeId::BybitSpot, SubKind::PublicTrades) => Ok(e),
        (ExchangeId::BybitSpot, SubKind::OrderBooksL1) => Ok(e),
        (ExchangeId::BybitSpot, SubKind::OrderBooksL2) => Ok(e),
        (ExchangeId::BybitPerpetualsUsd, SubKind::PublicTrades) => Ok(e),
        (ExchangeId::BybitPerpetualsUsd, SubKind::OrderBooksL1) => Ok(e),
        (ExchangeId::BybitPerpetualsUsd, SubKind::OrderBooksL2) => Ok(e),
        (ExchangeId::Coinbase, SubKind::PublicTrades) => Ok(e),
        (ExchangeId::GateioSpot, SubKind::PublicTrades) => Ok(e),
        (ExchangeId::GateioFuturesUsd, SubKind::PublicTrades) => Ok(e),
        (ExchangeId::GateioFuturesBtc, SubKind::PublicTrades) => Ok(e),
        (ExchangeId::GateioPerpetualsUsd, SubKind::PublicTrades) => Ok(e),
        (ExchangeId::GateioPerpetualsBtc, SubKind::PublicTrades) => Ok(e),
        (ExchangeId::GateioOptions, SubKind::PublicTrades) => Ok(e),
        (ExchangeId::Kraken, SubKind::PublicTrades) => Ok(e),
        (ExchangeId::Kraken, SubKind::OrderBooksL1) => Ok(e),
        (ExchangeId::Okx, SubKind::PublicTrades) => Ok(e),
        _ => Err(DataError::Unsupported { exchange: e, sub_kind: k }),
    }
}

/// The subscriptions of one stream: their exchange and kind, and their positions
/// in the batch, ascending.
#[derive(Clone, Debug, PartialEq, Eq)]
pub struct SubGroup {
    pub exchange: ExchangeId,
    pub kind: SubKind,
    pub positions: Vec<usize>,
}

/// The positions of `keys` holding `key`, ascending.
pub open spec fn positions_of(keys: Seq<(ExchangeId, SubKind)>, key: (ExchangeId, SubKind)) -> Seq<usize>
    decreases keys.len(),
{
    if keys.len() == 0 {
        Seq::empty()
    } else {
        let prefix = positions_of(keys.drop_last(), key);
        if keys.last() == key {
            prefix.push((keys.len() - 1) as usize)
        } else {
            prefix
        }
    }
}

/// The key of a group: its exchange and kind.
pub open spec fn group_key(g: SubGroup) -> (ExchangeId, SubKind) {
    (g.exchange, g.kind)
}

/// Whether some group has key `key`.
pub open spec fn has_group(groups: Seq<SubGroup>, key: (ExchangeId, SubKind)) -> bool {
    exists|g: int| 0 <= g < groups.len() && #[trigger] group_key(groups[g]) == key
}

/// Whether `groups` is the grouping of a batch with these keys: one group per
/// distinct key, keys ascending, each group listing the positions of its key.
pub open spec fn grouping_of(keys: Seq<(ExchangeId, SubKind)>, groups: Seq<SubGroup>) -> bool {
    &&& forall|a: int, b: int| 0 <= a < b < groups.len() ==> key_lt(group_key(groups[a]), group_key(groups[b]))
    &&& forall|g: int| 0 <= g < groups.len() ==> keys.contains(#[trigger] group_key(groups[g]))
    &&& forall|i: int| 0 <= i < keys.len() ==> #[trigger] has_group(groups, keys[i])
    &&& forall|g: int| 0 <= g < groups.len() ==> (#[trigger] groups[g]).positions@ == positions_of(keys, group_key(groups[g]))
}

/// Distinct exchanges have distinct ranks, and distinct kinds too.
proof fn lemma_ranks_injective(a: ExchangeId, b: ExchangeId, k: SubKind, l: SubKind)
    ensures
        exchange_rank(a) == exchange_rank(b) ==> a == b,
        kind_rank(k) == kind_rank(l) ==> k == l,
{
}

/// `key_lt` is a strict total order on keys.
proof fn lemma_key_order(a: (ExchangeId, SubKind), b: (ExchangeId, SubKind), c: (ExchangeId, SubKind))
    ensures
        !key_lt(a, a),
        key_lt(a, b) ==> !key_lt(b, a),
        key_lt(a, b) && key_lt(b, c) ==> key_lt(a, c),
        a != b ==> key_lt(a, b) || key_lt(b, a),
{
    lemma_ranks_injective(a.0, b.0, a.1, b.1);
}

/// Keys strictly ascending.
pub open spec fn keys_sorted(s: Seq<(ExchangeId, SubKind)>) -> bool {
    forall|a: int, b: int| 0 <= a < b < s.len() ==> key_lt(s[a], s[b])
}

/// Whether two keys are equal.
fn same_key(a: (ExchangeId, SubKind), b: (ExchangeId, SubKind)) -> (r: bool)
    ensures
        r == (a == b),
{
    a.0 == b.0 && a.1 == b.1
}

/// Inserts `key` into the strictly ascending `keys` unless already there.
fn insert_key(keys: &mut Vec<(ExchangeId, SubKind)>, key: (ExchangeId, SubKind))
    requires
        keys_sorted(old(keys)@),
    ensures
        keys_sorted(final(keys)@),
        forall|k: (ExchangeId, SubKind)| final(keys)@.contains(k) <==> (old(keys)@.contains(k) || k == key),
{
    let mut j: usize = 0;
    while j < keys.len() && key_less(keys[j], key)
        invariant
            j <= keys.len(),
            keys@ == old(keys)@,
            forall|m: int| 0 <= m < j ==> key_lt(keys@[m], key),
        decreases keys.len() - j,
    {
        j = j + 1;
    }
    let ghost before = keys@;
    if j < keys.len() && same_key(keys[j], key) {
        assert(before[j as int] == key);
        return;
    }
    proof {
        if j < before.len() {
            lemma_key_order(before[j as int], key, key);
        }
    }
    keys.insert(j, key);
    proof {
        let after = keys@;
        assert(after =~= before.insert(j as int, key));
        assert forall|a: int, b: int| 0 <= a < b < after.len() implies key_lt(after[a], after[b]) by {
            if b < j {
                assert(after[a] == before[a] && after[b] == before[b]);
            } else if b == j {
                assert(after[a] == before[a]);
            } else if a == j {
                assert(after[b] == before[b - 1]);
                if b - 1 > j {
                    lemma_key_order(key, before[j as int], before[b - 1]);
                }
            } else if a < j {
                assert(after[a] == before[a] && after[b] == before[b - 1]);
                if b - 1 > j {
                    lemma_key_order(key, before[j as int], before[b - 1]);
                }
                lemma_key_order(before[a], key, before[b - 1]);
            } else {
                assert(after[a] == before[a - 1] && after[b] == before[b - 1]);
            }
        }
        assert forall|k: (ExchangeId, SubKind)| after.contains(k) <==> (before.contains(k) || k == key) by {
            if after.contains(k) {
                let m = choose|m: int| 0 <= m < after.len() && after[m] == k;
                if m < j {
                    assert(before[m] == k);
                } else if m > j {
                    assert(before[m - 1] == k);
                }
            }
            if before.contains(k) {
                let m = choose|m: int| 0 <= m < before.len() && before[m] == k;
                if m < j {
                    assert(after[m] == k);
                } else {
                    assert(after[m + 1] == k);
                }
            }
            if k == key {
                assert(after[j as int] == k);
            }
        }
    }
}

/// The positions of `keys` holding `key` (see `positions_of`).
fn positions(keys: &Vec<(ExchangeId, SubKind)>, key: (ExchangeId, SubKind)) -> (r: Vec<usize>)
    ensures
        r@ == positions_of(keys@, key),
{
    let mut r: Vec<usize> = Vec::new();
    let mut i: usize = 0;
    while i < keys.len()
        invariant
            i <= keys.len(),
            r@ == positions_of(keys@.take(i as int), key),
        decreases keys.len() - i,
    {
        proof {
            assert(keys@.take(i as int + 1).drop_last() =~= keys@.take(i as int));
        }
        if same_key(keys[i], key) {
            r.push(i);
        }
        i = i + 1;
    }
    proof {
        assert(keys@.take(keys.len() as int) =~= keys@);
    }
    r
}

/// Groups a batch by exchange and kind (see `grouping_of`): the streams to open,
/// in ascending order of exchange and kind, each with its subscriptions' positions.
pub fn group_by_exchange_kind(keys: &Vec<(ExchangeId, SubKind)>) -> (r: Vec<SubGroup>)
    ensures
        grouping_of(keys@, r@),
{
    let mut distinct: Vec<(ExchangeId, SubKind)> = Vec::new();
    let mut i: usize = 0;
    while i < keys.len()
        invariant
            i <= keys.len(),
            keys_sorted(distinct@),
            forall|k: (ExchangeId, SubKind)| distinct@.contains(k) <==> keys@.take(i as int).contains(k),
        decreases keys.len() - i,
    {
        let ghost prev = distinct@;
        insert_key(&mut distinct, keys[i]);
        proof {
            let t = keys@.take(i as int + 1);
            assert(t =~= keys@.take(i as int).push(keys@[i as int]));
            assert forall|k: (ExchangeId, SubKind)| distinct@.contains(k) <==> t.contains(k) by {
                assert(prev.contains(k) <==> keys@.take(i as int).contains(k));
                if k == keys@[i as int] {
                    assert(t[i as int] == k);
                }
                if t.contains(k) {
                    let m = choose|m: int| 0 <= m < t.len() && t[m] == k;
                    if m < i {
                        assert(keys@.take(i as int)[m] == k);
                    }
                }
                if keys@.take(i as int).contains(k) {
                    let m = choose|m: int| 0 <= m < i && keys@.take(i as int)[m] == k;
                    assert(t[m] == k);
                }
            }
        }
        i = i + 1;
    }
    proof {
        assert(keys@.take(keys.len() as int) =~= keys@);
    }
    let mut groups: Vec<SubGroup> = Vec::new();
    let mut g: usize = 0;
    while g < distinct.len()
        invariant
            g <= distinct.len(),
            groups@.len() == g,
            forall|m: int| 0 <= m < g ==> #[trigger] group_key(groups@[m]) == distinct@[m],
            forall|m: int| 0 <= m < g ==> (#[trigger] groups@[m]).positions@ == positions_of(keys@, group_key(groups@[m])),
        decreases distinct.len() - g,
    {
        let (e, k) = distinct[g];
        let ps = positions(keys, (e, k));
        groups.push(SubGroup { exchange: e, kind: k, positions: ps });
        g = g + 1;
    }
    proof {
        assert forall|a: int, b: int| 0 <= a < b < groups@.len() implies key_lt(group_key(groups@[a]), group_key(groups@[b])) by {
            assert(group_key(groups@[a]) == distinct@[a]);
            assert(group_key(groups@[b]) == distinct@[b]);
        }
        assert forall|m: int| 0 <= m < groups@.len() implies keys@.contains(#[trigger] group_key(groups@[m])) by {
            assert(group_key(groups@[m]) == distinct@[m]);
            assert(distinct@.contains(distinct@[m]));
        }
        assert forall|x: int| 0 <= x < keys@.len() implies #[trigger] has_group(groups@, keys@[x]) by {
            assert(keys@.contains(keys@[x]));
            assert(distinct@.contains(keys@[x]));
            let m = choose|m: int| 0 <= m < distinct@.len() && distinct@[m] == keys@[x];
            assert(group_key(groups@[m]) == distinct@[m]);
        }
    }
    groups
}

/// Whether every subscription of a batch has a connector serving it.
pub open spec fn batch_supported(keys: Seq<(ExchangeId, SubKind)>) -> bool {
    forall|i: int| 0 <= i < keys.len() ==> #[trigger] connector_for(keys[i].0, keys[i].1) is Some
}

/// Whether `key` is the least (by exchange, then kind) subscription of a batch
/// that no connector serves.
pub open spec fn least_unsupported(keys: Seq<(ExchangeId, SubKind)>, key: (ExchangeId, SubKind)) -> bool {
    &&& keys.contains(key)
    &&& connector_for(key.0, key.1) is None
    &&& forall|i: int| 0 <= i < keys.len() && #[trigger] connector_for(keys[i].0, keys[i].1) is None ==> key == keys[i]
        || key_lt(key, keys[i])
}

/// Whether `starts` are the streams to start for a batch: its grouping, each
/// group with the connector serving it.
pub open spec fn starts_of(keys: Seq<(ExchangeId, SubKind)>, starts: Seq<(SubGroup, ExchangeId)>) -> bool {
    &&& grouping_of(keys, starts.map_values(|x: (SubGroup, ExchangeId)| x.0))
    &&& forall|g: int| 0 <= g < starts.len() ==> connector_for((#[trigger] starts[g]).0.exchange, starts[g].0.kind) == Some(starts[g].1)
}

/// The streams to start for batches of subscriptions: per batch, its groups (see
/// `group_by_exchange_kind`) each with the connector serving it. Where a batch
/// holds a subscription no connector serves, the first such batch fails with
/// `Unsupported` for its least such subscription.
pub fn stream_starts(batches: &Vec<Vec<(ExchangeId, SubKind)>>) -> (r: Result<Vec<Vec<(SubGroup, ExchangeId)>>, DataError>)
    ensures
        match r {
            Ok(starts) => starts@.len() == batches@.len() && forall|b: int| 0 <= b < batches@.len() ==> starts_of(
                #[trigger] batches@[b]@,
                starts@[b]@,
            ),
            Err(e) => exists|b: int, key: (ExchangeId, SubKind)| {
                &&& 0 <= b < batches@.len()
                &&& forall|c: int| 0 <= c < b ==> batch_supported(#[trigger] batches@[c]@)
                &&& least_unsupported(batches@[b]@, key)
                &&& e == DataError::Unsupported { exchange: key.0, sub_kind: key.1 }
            },
        },
        r is Ok <==> forall|b: int| 0 <= b < batches@.len() ==> batch_supported(#[trigger] batches@[b]@),
{
    let mut starts: Vec<Vec<(SubGroup, ExchangeId)>> = Vec::new();
    let mut b: usize = 0;
    while b < batches.len()
        invariant
            b <= batches.len(),
            starts@.len() == b,
            forall|c: int| 0 <= c < b ==> starts_of(#[trigger] batches@[c]@, starts@[c]@),
            forall|c: int| 0 <= c < b ==> batch_supported(#[trigger] batches@[c]@),
        decreases batches.len() - b,
    {
        let keys = &batches[b];
        let mut rest = group_by_exchange_kind(keys);
        let ghost groups = rest@;
        let n = rest.len();
        let mut out: Vec<(SubGroup, ExchangeId)> = Vec::new();
        let mut g: usize = 0;
        while g < n
            invariant
                n == groups.len(),
                b < batches@.len(),
                forall|c: int| 0 <= c < b ==> batch_supported(#[trigger] batches@[c]@),
                keys@ == batches@[b as int]@,
                g <= groups.len(),
                grouping_of(keys@, groups),
                rest@ == groups.skip(g as int),
                out@.len() == g,
                forall|m: int| 0 <= m < g ==> (#[trigger] out@[m]).0 == groups[m],
                forall|m: int| 0 <= m < g ==> connector_for((#[trigger] out@[m]).0.exchange, out@[m].0.kind) == Some(out@[m].1),
            decreases groups.len() - g,
        {
            proof {
                assert(rest@.len() > 0);
            }
            let group = rest.remove(0);
            proof {
                assert(group == groups[g as int]);
                assert(rest@ =~= groups.skip(g as int + 1));
            }
            match stream_connector(group.exchange, group.kind) {
                Ok(c) => out.push((group, c)),
                Err(e) => {
                    proof {
                        let key = group_key(groups[g as int]);
                        assert forall|m: int| 0 <= m < g implies #[trigger] connector_for(groups[m].exchange, groups[m].kind) is Some by {
                            assert(out@[m].0 == groups[m]);
                        }
                        lemma_least_unsupported(keys@, groups, g as int);
                        assert(!batch_supported(keys@)) by {
                            let i = choose|i: int| 0 <= i < keys@.len() && keys@[i] == key;
                            assert(connector_for(keys@[i].0, keys@[i].1) is None);
                        }
                        assert(e == DataError::Unsupported { exchange: key.0, sub_kind: key.1 });
                        assert(least_unsupported(batches@[b as int]@, key));
                    }
                    return Err(e);
                },
            }
            g = g + 1;
        }
        proof {
            assert(out@.map_values(|x: (SubGroup, ExchangeId)| x.0) =~= groups);
            assert forall|i: int| 0 <= i < keys@.len() implies #[trigger] connector_for(keys@[i].0, keys@[i].1) is Some by {
                assert(has_group(groups, keys@[i]));
                let m = choose|m: int| 0 <= m < groups.len() && #[trigger] group_key(groups[m]) == keys@[i];
                assert(out@[m].0 == groups[m]);
            }
        }
        starts.push(out);
        b = b + 1;
    }
    Ok(starts)
}

/// Where the groups before `g` all have a connector and group `g` has none, the
/// key of group `g` is the least unsupported subscription of the batch.
proof fn lemma_least_unsupported(keys: Seq<(ExchangeId, SubKind)>, groups: Seq<SubGroup>, g: int)
    requires
        grouping_of(keys, groups),
        0 <= g < groups.len(),
        forall|m: int| 0 <= m < g ==> #[trigger] connector_for(groups[m].exchange, groups[m].kind) is Some,
        connector_for(groups[g].exchange, groups[g].kind) is None,
    ensures
        least_unsupported(keys, group_key(groups[g])),
{
    let key = group_key(groups[g]);
    assert(keys.contains(key));
    assert forall|i: int| 0 <= i < keys.len() && #[trigger] connector_for(keys[i].0, keys[i].1) is None implies key
        == keys[i] || key_lt(key, keys[i]) by {
        assert(has_group(groups, keys[i]));
        let m = choose|m: int| 0 <= m < groups.len() && #[trigger] group_key(groups[m]) == keys[i];
        if m < g {
            assert(connector_for(groups[m].exchange, groups[m].kind) is Some);
        } else if m > g {
            assert(key_lt(group_key(groups[g]), group_key(groups[m])));
        }
    }
}

/// A subscription as planning sees it: its exchange, its instrument (by the
/// instrument's rank in the instruments' own order) and its kind.
pub type Sub = (ExchangeId, u64, SubKind);

/// Whether subscription `a` orders before `b`: by exchange, then instrument, then kind.
pub open spec fn sub_lt(a: Sub, b: Sub) -> bool {
    ||| exchange_rank(a.0) < exchange_rank(b.0)
    ||| (exchange_rank(a.0) == exchange_rank(b.0) && a.1 < b.1)
    ||| (exchange_rank(a.0) == exchange_rank(b.0) && a.1 == b.1 && kind_rank(a.2) < kind_rank(b.2))
}

/// Subscriptions strictly ascending (so none twice).
pub open spec fn subs_sorted(s: Seq<Sub>) -> bool {
    forall|a: int, b: int| 0 <= a < b < s.len() ==> sub_lt(s[a], s[b])
}

/// `sub_lt` is a strict total order on subscriptions.
proof fn lemma_sub_order(a: Sub, b: Sub, c: Sub)
    ensures
        !sub_lt(a, a),
        sub_lt(a, b) ==> !sub_lt(b, a),
        sub_lt(a, b) && sub_lt(b, c) ==> sub_lt(a, c),
        a != b ==> sub_lt(a, b) || sub_lt(b, a),
{
    lemma_ranks_injective(a.0, b.0, a.2, b.2);
    lemma_ranks_injective(a.0, c.0, a.2, c.2);
    lemma_ranks_injective(b.0, c.0, b.2, c.2);
}

/// Whether subscription `a` orders before `b` (see `sub_lt`).
fn sub_less(a: Sub, b: Sub) -> (r: bool)
    ensures
        r == sub_lt(a, b),
{
    let ea = exchange_position(a.0);
    let eb = exchange_position(b.0);
    ea < eb || (ea == eb && a.1 < b.1) || (ea == eb && a.1 == b.1 && kind_position(a.2) < kind_position(b.2))
}

/// Inserts `sub` into the strictly ascending `subs` unless already there.
fn insert_sub(subs: &mut Vec<Sub>, sub: Sub)
    requires
        subs_sorted(old(subs)@),
    ensures
        subs_sorted(final(subs)@),
        forall|k: Sub| final(subs)@.contains(k) <==> (old(subs)@.contains(k) || k == sub),
{
    let mut j: usize = 0;
    while j < subs.len() && sub_less(subs[j], sub)
        invariant
            j <= subs.len(),
            subs@ == old(subs)@,
            forall|m: int| 0 <= m < j ==> sub_lt(subs@[m], sub),
        decreases subs.len() - j,
    {
        j = j + 1;
    }
    let ghost before = subs@;
    if j < subs.len() && subs[j].0 == sub.0 && subs[j].1 == sub.1 && subs[j].2 == sub.2 {
        assert(before[j as int] == sub);
        return;
    }
    proof {
        if j < before.len() {
            lemma_sub_order(before[j as int], sub, sub);
        }
    }
    subs.insert(j, sub);
    proof {
        let after = subs@;
        assert(after =~= before.insert(j as int, sub));
        assert forall|a: int, b: int| 0 <= a < b < after.len() implies sub_lt(after[a], after[b]) by {
            if b < j {
                assert(after[a] == before[a] && after[b] == before[b]);
            } else if b == j {
                assert(after[a] == before[a]);
            } else if a == j {
                assert(after[b] == before[b - 1]);
                if b - 1 > j {
                    lemma_sub_order(sub, before[j as int], before[b - 1]);
                }
            } else if a < j {
                assert(after[a] == before[a] && after[b] == before[b - 1]);
                if b - 1 > j {
                    lemma_sub_order(sub, before[j as int], before[b - 1]);
                }
                lemma_sub_order(before[a], sub, before[b - 1]);
            } else {
                assert(after[a] == before[a - 1] && after[b] == before[b - 1]);
            }
        }
        assert forall|k: Sub| after.contains(k) <==> (before.contains(k) || k == sub) by {
            if after.contains(k) {
                let m = choose|m: int| 0 <= m < after.len() && after[m] == k;
                if m < j {
                    assert(before[m] == k);
                } else if m > j {
                    assert(before[m - 1] == k);
                }
            }
            if before.contains(k) {
                let m = choose|m: int| 0 <= m < before.len() && before[m] == k;
                if m < j {
                    assert(after[m] == k);
                } else {
                    assert(after[m + 1] == k);
                }
            }
            if k == sub {
                assert(after[j as int] == k);
            }
        }
    }
}

/// Whether the validation outcome at (`b`, `i`) is the first failure of the
/// batches, taken batch by batch and in order within a batch.
pub open spec fn first_failure(batches: Seq<Vec<Result<Sub, SocketError>>>, b: int, i: int) -> bool {
    &&& 0 <= b < batches.len()
    &&& 0 <= i < batches[b]@.len()
    &&& batches[b]@[i] is Err
    &&& forall|c: int, j: int|
        0 <= c < batches.len() && 0 <= j < batches[c]@.len() && (c < b || (c == b && j < i)) ==> #[trigger] batches[c]@[j] is Ok
}

/// Whether `sub` is among the valid subscriptions of a batch.
pub open spec fn validated_in(batch: Seq<Result<Sub, SocketError>>, sub: Sub) -> bool {
    exists|i: int| 0 <= i < batch.len() && batch[i] == Ok::<Sub, SocketError>(sub)
}

/// The error of the outcome at (`b`, `i`), taken out of the batches.
fn take_error(batches: Vec<Vec<Result<Sub, SocketError>>>, b: usize, i: usize) -> (e: SocketError)
    requires
        b < batches@.len(),
        i < batches@[b as int]@.len(),
        batches@[b as int]@[i as int] is Err,
    ensures
        batches@[b as int]@[i as int] == Err::<Sub, SocketError>(e),
{
    let mut batches = batches;
    let mut batch = batches.remove(b);
    match batch.remove(i) {
        Err(e) => e,
        Ok(_) => {
            assert(false);
            SocketError::Subscribe(String::new())
        },
    }
}

/// Takes the outcome of validating each subscription of each batch: where every
/// subscription is valid, each batch's subscriptions sorted (by exchange,
/// instrument, kind) with duplicates dropped; else the first failure, in order,
/// as a socket error.
pub fn validate_batches(batches: Vec<Vec<Result<Sub, SocketError>>>) -> (r: Result<Vec<Vec<Sub>>, DataError>)
    ensures
        r is Ok <==> forall|b: int, i: int|
            0 <= b < batches@.len() && 0 <= i < batches@[b]@.len() ==> #[trigger] batches@[b]@[i] is Ok,
        r matches Ok(v) ==> v@.len() == batches@.len() && forall|b: int| 0 <= b < batches@.len() ==> {
            &&& subs_sorted((#[trigger] v@[b])@)
            &&& forall|x: Sub| v@[b]@.contains(x) <==> validated_in(batches@[b]@, x)
        },
        r matches Err(e) ==> exists|b: int, i: int| #[trigger] first_failure(batches@, b, i)
            && batches@[b]@[i] == Err::<Sub, SocketError>(e->Socket_0) && e is Socket,
{
    let ghost orig = batches@;
    let n = batches.len();
    let mut out: Vec<Vec<Sub>> = Vec::new();
    let mut b: usize = 0;
    while b < n
        invariant
            n == orig.len(),
            orig == batches@,
            b <= n,
            out@.len() == b,
            forall|c: int, j: int| 0 <= c < b && 0 <= j < orig[c]@.len() ==> #[trigger] orig[c]@[j] is Ok,
            forall|c: int| 0 <= c < b ==> {
                &&& subs_sorted((#[trigger] out@[c])@)
                &&& forall|x: Sub| out@[c]@.contains(x) <==> validated_in(orig[c]@, x)
            },
        decreases n - b,
    {
        let batch = &batches[b];
        let ghost items = orig[b as int]@;
        let m = batch.len();
        let mut subs: Vec<Sub> = Vec::new();
        let mut i: usize = 0;
        while i < m
            invariant
                n == orig.len(),
                orig == batches@,
                b < n,
                items == orig[b as int]@,
                batch@ == items,
                m == items.len(),
                i <= m,
                subs_sorted(subs@),
                forall|x: Sub| subs@.contains(x) <==> validated_in(items.take(i as int), x),
                forall|j: int| 0 <= j < i ==> #[trigger] items[j] is Ok,
                forall|c: int, j: int| 0 <= c < b && 0 <= j < orig[c]@.len() ==> #[trigger] orig[c]@[j] is Ok,
            decreases m - i,
        {
            match &batch[i] {
                Ok(sub) => {
                    let ghost prev = subs@;
                    insert_sub(&mut subs, *sub);
                    proof {
                        let t = items.take(i as int + 1);
                        assert forall|x: Sub| subs@.contains(x) <==> validated_in(t, x) by {
                            if validated_in(t, x) {
                                let k = choose|k: int| 0 <= k < t.len() && t[k] == Ok::<Sub, SocketError>(x);
                                if k < i {
                                    assert(items.take(i as int)[k] == t[k]);
                                    assert(validated_in(items.take(i as int), x));
                                }
                            }
                            if validated_in(items.take(i as int), x) {
                                let k = choose|k: int|
                                    0 <= k < i && items.take(i as int)[k] == Ok::<Sub, SocketError>(x);
                                assert(t[k] == items.take(i as int)[k]);
                            }
                            if x == *sub {
                                assert(t[i as int] == Ok::<Sub, SocketError>(x));
                            }
                        }
                    }
                },
                Err(_) => {
                    proof {
                        assert forall|c: int, j: int|
                            0 <= c < orig.len() && 0 <= j < orig[c]@.len() && (c < b || (c == b && j < i)) implies #[trigger] orig[c]@[j] is Ok by {
                            if c == b {
                                assert(items[j] is Ok);
                            }
                        }
                        assert(first_failure(orig, b as int, i as int));
                    }
                    let e = take_error(batches, b, i);
                    return Err(DataError::Socket(e));
                },
            }
            i = i + 1;
        }
        proof {
            assert(items.take(m as int) =~= items);
            assert forall|c: int, j: int| 0 <= c < b + 1 && 0 <= j < orig[c]@.len() implies #[trigger] orig[c]@[j] is Ok by {
                if c == b {
                    assert(items[j] is Ok);
                }
            }
        }
        out.push(subs);
        b = b + 1;
    }
    Ok(out)
}


/// Law: every exchange and kind for which dynamic streams start a market stream is
/// served by that exchange's own connector (never `Unsupported`): Binance spot
/// trades, L1 and L2; Binance USD futures trades, L1, L2 and liquidations; trades on
/// Bitfinex, Bitmex, Coinbase, every Gateio market, Kraken and OKX; Bybit spot and
/// perpetual trades, L1 and L2; Kraken L1. And no pair is served by another
/// exchange's connector.
pub proof fn law_streamed_pairs_served_by_own_connector(e: ExchangeId, k: SubKind)
    ensures
        connector_for(e, k) matches Some(c) ==> c == e,
        connector_for(ExchangeId::BinanceSpot, SubKind::PublicTrades) == Some(ExchangeId::BinanceSpot),
        connector_for(ExchangeId::BinanceSpot, SubKind::OrderBooksL1) == Some(ExchangeId::BinanceSpot),
        connector_for(ExchangeId::BinanceSpot, SubKind::OrderBooksL2) == Some(ExchangeId::BinanceSpot),
        connector_for(ExchangeId::BinanceFuturesUsd, SubKind::PublicTrades) == Some(ExchangeId::BinanceFuturesUsd),
        connector_for(ExchangeId::BinanceFuturesUsd, SubKind::OrderBooksL1) == Some(ExchangeId::BinanceFuturesUsd),
        connector_for(ExchangeId::BinanceFuturesUsd, SubKind::OrderBooksL2) == Some(ExchangeId::BinanceFuturesUsd),
        connector_for(ExchangeId::BinanceFuturesUsd, SubKind::Liquidations) == Some(ExchangeId::BinanceFuturesUsd),
        connector_for(ExchangeId::Bitfinex, SubKind::PublicTrades) == Some(ExchangeId::Bitfinex),
        connector_for(ExchangeId::Bitmex, SubKind::PublicTrades) == Some(ExchangeId::Bitmex),
        connector_for(ExchangeId::BybitSpot, SubKind::PublicTrades) == Some(ExchangeId::BybitSpot),
        connector_for(ExchangeId::BybitSpot, SubKind::OrderBooksL1) == Some(ExchangeId::BybitSpot),
        connector_for(ExchangeId::BybitSpot, SubKind::OrderBooksL2) == Some(ExchangeId::BybitSpot),
        connector_for(ExchangeId::BybitPerpetualsUsd, SubKind::PublicTrades) == Some(ExchangeId::BybitPerpetualsUsd),
        connector_for(ExchangeId::BybitPerpetualsUsd, SubKind::OrderBooksL1) == Some(ExchangeId::BybitPerpetualsUsd),
        connector_for(ExchangeId::BybitPerpetualsUsd, SubKind::OrderBooksL2) == Some(ExchangeId::BybitPerpetualsUsd),
        connector_for(ExchangeId::Coinbase, SubKind::PublicTrades) == Some(ExchangeId::Coinbase),
        connector_for(ExchangeId::GateioSpot, SubKind::PublicTrades) == Some(ExchangeId::GateioSpot),
        connector_for(ExchangeId::GateioFuturesUsd, SubKind::PublicTrades) == Some(ExchangeId::GateioFuturesUsd),
        connector_for(ExchangeId::GateioFuturesBtc, SubKind::PublicTrades) == Some(ExchangeId::GateioFuturesBtc),
        connector_for(ExchangeId::GateioPerpetualsUsd, SubKind::PublicTrades) == Some(ExchangeId::GateioPerpetualsUsd),
        connector_for(ExchangeId::GateioPerpetualsBtc, SubKind::PublicTrades) == Some(ExchangeId::GateioPerpetualsBtc),
        connector_for(ExchangeId::GateioOptions, SubKind::PublicTrades) == Some(ExchangeId::GateioOptions),
        connector_for(ExchangeId::Kraken, SubKind::PublicTrades) == Some(ExchangeId::Kraken),
        connector_for(ExchangeId::Kraken, SubKind::OrderBooksL1) == Some(ExchangeId::Kraken),
        connector_for(ExchangeId::Okx, SubKind::PublicTrades) == Some(ExchangeId::Okx),
{
}

} // verus!
