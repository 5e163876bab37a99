//! Pre-configured connectors handed to dynamic streams: at most one per exchange
//! where built with `with_connector` or `extend`.
use crate::connectors::{
    BinanceFuturesUsd, BinanceSpot, Bitfinex, Bitmex, BybitPerpetualsUsd, BybitSpot, Coinbase, GateioFuturesBtc,
    GateioFuturesUsd, GateioOptions, GateioPerpetualsBtc, GateioPerpetualsUsd, GateioSpot, Kraken, Okx,
};
use crate::deribit::connector::Deribit;
use crate::exchange_id::ExchangeId;
use crate::keyed::{lemma_unique_filter, lemma_unique_push, unique_by};
use vstd::prelude::*;

verus! {

/// A connector instance for one exchange.
#[derive(Clone)]
pub enum ExchangeConnector {
    /// The Binance Spot connector.
    BinanceSpot(BinanceSpot),
    /// The Binance USD-margined futures connector.
    BinanceFuturesUsd(BinanceFuturesUsd),
    /// The Bitfinex connector.
    Bitfinex(Bitfinex),
    /// The BitMEX connector.
    Bitmex(Bitmex),
    /// The Bybit Spot connector.
    BybitSpot(BybitSpot),
    /// The Bybit USD perpetuals connector.
    BybitPerpetualsUsd(BybitPerpetualsUsd),
    /// The Coinbase connector.
    Coinbase(Coinbase),
    /// The Deribit connector.
    Deribit(Deribit),
    /// The Gateio Spot connector.
    GateioSpot(GateioSpot),
    /// The Gateio USD futures connector.
    GateioFuturesUsd(GateioFuturesUsd),
    /// The Gateio BTC futures connector.
    GateioFuturesBtc(GateioFuturesBtc),
    /// The Gateio BTC perpetuals connector.
    GateioPerpetualsBtc(GateioPerpetualsBtc),
    /// The Gateio USD perpetuals connector.
    GateioPerpetualsUsd(GateioPerpetualsUsd),
    /// The Gateio options connector.
    GateioOptions(GateioOptions),
    /// The Kraken connector.
    Kraken(Kraken),
    /// The OKX connector.
    Okx(Okx),
}

/// The exchange a connector is for.
pub open spec fn connector_exchange(c: ExchangeConnector) -> ExchangeId {
    match c {
        ExchangeConnector::BinanceSpot(_) => ExchangeId::BinanceSpot,
        ExchangeConnector::BinanceFuturesUsd(_) => ExchangeId::BinanceFuturesUsd,
        ExchangeConnector::Bitfinex(_) => ExchangeId::Bitfinex,
        ExchangeConnector::Bitmex(_) => ExchangeId::Bitmex,
        ExchangeConnector::BybitSpot(_) => ExchangeId::BybitSpot,
        ExchangeConnector::BybitPerpetualsUsd(_) => ExchangeId::BybitPerpetualsUsd,
        ExchangeConnector::Coinbase(_) => ExchangeId::Coinbase,
        ExchangeConnector::Deribit(_) => ExchangeId::Deribit,
        ExchangeConnector::GateioSpot(_) => ExchangeId::GateioSpot,
        ExchangeConnector::GateioFuturesUsd(_) => ExchangeId::GateioFuturesUsd,
        ExchangeConnector::GateioFuturesBtc(_) => ExchangeId::GateioFuturesBtc,
        ExchangeConnector::GateioPerpetualsBtc(_) => ExchangeId::GateioPerpetualsBtc,
        ExchangeConnector::GateioPerpetualsUsd(_) => ExchangeId::GateioPerpetualsUsd,
        ExchangeConnector::GateioOptions(_) => ExchangeId::GateioOptions,
        ExchangeConnector::Kraken(_) => ExchangeId::Kraken,
        ExchangeConnector::Okx(_) => ExchangeId::Okx,
    }
}

impl ExchangeConnector {
    /// A copy of the connector.
    pub fn copy(&self) -> (r: Self)
        ensures
            r == *self,
    {
        match self {
            ExchangeConnector::BinanceSpot(c) => ExchangeConnector::BinanceSpot(*c),
            ExchangeConnector::BinanceFuturesUsd(c) => ExchangeConnector::BinanceFuturesUsd(*c),
            ExchangeConnector::Bitfinex(c) => ExchangeConnector::Bitfinex(*c),
            ExchangeConnector::Bitmex(c) => ExchangeConnector::Bitmex(*c),
            ExchangeConnector::BybitSpot(c) => ExchangeConnector::BybitSpot(*c),
            ExchangeConnector::BybitPerpetualsUsd(c) => ExchangeConnector::BybitPerpetualsUsd(*c),
            ExchangeConnector::Coinbase(c) => ExchangeConnector::Coinbase(*c),
            ExchangeConnector::Deribit(c) => ExchangeConnector::Deribit(c.copy()),
            ExchangeConnector::GateioSpot(c) => ExchangeConnector::GateioSpot(*c),
            ExchangeConnector::GateioFuturesUsd(c) => ExchangeConnector::GateioFuturesUsd(*c),
            ExchangeConnector::GateioFuturesBtc(c) => ExchangeConnector::GateioFuturesBtc(*c),
            ExchangeConnector::GateioPerpetualsBtc(c) => ExchangeConnector::GateioPerpetualsBtc(*c),
            ExchangeConnector::GateioPerpetualsUsd(c) => ExchangeConnector::GateioPerpetualsUsd(*c),
            ExchangeConnector::GateioOptions(c) => ExchangeConnector::GateioOptions(*c),
            ExchangeConnector::Kraken(c) => ExchangeConnector::Kraken(*c),
            ExchangeConnector::Okx(c) => ExchangeConnector::Okx(*c),
        }
    }

    /// The exchange this connector is for.
    pub fn exchange_id(&self) -> (r: ExchangeId)
        ensures
            r == connector_exchange(*self),
    {
        match self {
            ExchangeConnector::BinanceSpot(_) => ExchangeId::BinanceSpot,
            ExchangeConnector::BinanceFuturesUsd(_) => ExchangeId::BinanceFuturesUsd,
            ExchangeConnector::Bitfinex(_) => ExchangeId::Bitfinex,
            ExchangeConnector::Bitmex(_) => ExchangeId::Bitmex,
            ExchangeConnector::BybitSpot(_) => ExchangeId::BybitSpot,
            ExchangeConnector::BybitPerpetualsUsd(_) => ExchangeId::BybitPerpetualsUsd,
            ExchangeConnector::Coinbase(_) => ExchangeId::Coinbase,
            ExchangeConnector::Deribit(_) => ExchangeId::Deribit,
            ExchangeConnector::GateioSpot(_) => ExchangeId::GateioSpot,
            ExchangeConnector::GateioFuturesUsd(_) => ExchangeId::GateioFuturesUsd,
            ExchangeConnector::GateioFuturesBtc(_) => ExchangeId::GateioFuturesBtc,
            ExchangeConnector::GateioPerpetualsBtc(_) => ExchangeId::GateioPerpetualsBtc,
            ExchangeConnector::GateioPerpetualsUsd(_) => ExchangeId::GateioPerpetualsUsd,
            ExchangeConnector::GateioOptions(_) => ExchangeId::GateioOptions,
            ExchangeConnector::Kraken(_) => ExchangeId::Kraken,
            ExchangeConnector::Okx(_) => ExchangeId::Okx,
        }
    }

    /// The Binance Spot connector, if this is one.
    pub fn as_binance_spot(&self) -> (r: Option<&BinanceSpot>)
        ensures
            r is Some <==> self is BinanceSpot,
            r matches Some(c) ==> *self == ExchangeConnector::BinanceSpot(*c),
    {
        match self {
            ExchangeConnector::BinanceSpot(c) => Some(c),
            _ => None,
        }
    }

    /// The Binance USD-margined futures connector, if this is one.
    pub fn as_binance_futures_usd(&self) -> (r: Option<&BinanceFuturesUsd>)
        ensures
            r is Some <==> self is BinanceFuturesUsd,
            r matches Some(c) ==> *self == ExchangeConnector::BinanceFuturesUsd(*c),
    {
        match self {
            ExchangeConnector::BinanceFuturesUsd(c) => Some(c),
            _ => None,
        }
    }

    /// The Bitfinex connector, if this is one.
    pub fn as_bitfinex(&self) -> (r: Option<&Bitfinex>)
        ensures
            r is Some <==> self is Bitfinex,
            r matches Some(c) ==> *self == ExchangeConnector::Bitfinex(*c),
    {
        match self {
            ExchangeConnector::Bitfinex(c) => Some(c),
            _ => None,
        }
    }

    /// The BitMEX connector, if this is one.
    pub fn as_bitmex(&self) -> (r: Option<&Bitmex>)
        ensures
            r is Some <==> self is Bitmex,
            r matches Some(c) ==> *self == ExchangeConnector::Bitmex(*c),
    {
        match self {
            ExchangeConnector::Bitmex(c) => Some(c),
            _ => None,
        }
    }

    /// The Bybit Spot connector, if this is one.
    pub fn as_bybit_spot(&self) -> (r: Option<&BybitSpot>)
        ensures
            r is Some <==> self is BybitSpot,
            r matches Some(c) ==> *self == ExchangeConnector::BybitSpot(*c),
    {
        match self {
            ExchangeConnector::BybitSpot(c) => Some(c),
            _ => None,
        }
    }

    /// The Bybit USD perpetuals connector, if this is one.
    pub fn as_bybit_perpetuals_usd(&self) -> (r: Option<&BybitPerpetualsUsd>)
        ensures
            r is Some <==> self is BybitPerpetualsUsd,
            r matches Some(c) ==> *self == ExchangeConnector::BybitPerpetualsUsd(*c),
    {
        match self {
            ExchangeConnector::BybitPerpetualsUsd(c) => Some(c),
            _ => None,
        }
    }

    /// The Coinbase connector, if this is one.
    pub fn as_coinbase(&self) -> (r: Option<&Coinbase>)
        ensures
            r is Some <==> self is Coinbase,
            r matches Some(c) ==> *self == ExchangeConnector::Coinbase(*c),
    {
        match self {
            ExchangeConnector::Coinbase(c) => Some(c),
            _ => None,
        }
    }

    /// The Deribit connector, if this is one.
    pub fn as_deribit(&self) -> (r: Option<&Deribit>)
        ensures
            r is Some <==> self is Deribit,
            r matches Some(c) ==> *self == ExchangeConnector::Deribit(*c),
    {
        match self {
            ExchangeConnector::Deribit(c) => Some(c),
            _ => None,
        }
    }

    /// The Gateio Spot connector, if this is one.
    pub fn as_gateio_spot(&self) -> (r: Option<&GateioSpot>)
        ensures
            r is Some <==> self is GateioSpot,
            r matches Some(c) ==> *self == ExchangeConnector::GateioSpot(*c),
    {
        match self {
            ExchangeConnector::GateioSpot(c) => Some(c),
            _ => None,
        }
    }

    /// The Gateio USD futures connector, if this is one.
    pub fn as_gateio_futures_usd(&self) -> (r: Option<&GateioFuturesUsd>)
        ensures
            r is Some <==> self is GateioFuturesUsd,
            r matches Some(c) ==> *self == ExchangeConnector::GateioFuturesUsd(*c),
    {
        match self {
            ExchangeConnector::GateioFuturesUsd(c) => Some(c),
            _ => None,
        }
    }

    /// The Gateio BTC futures connector, if this is one.
    pub fn as_gateio_futures_btc(&self) -> (r: Option<&GateioFuturesBtc>)
        ensures
            r is Some <==> self is GateioFuturesBtc,
            r matches Some(c) ==> *self == ExchangeConnector::GateioFuturesBtc(*c),
    {
        match self {
            ExchangeConnector::GateioFuturesBtc(c) => Some(c),
            _ => None,
        }
    }

    /// The Gateio BTC perpetuals connector, if this is one.
    pub fn as_gateio_perpetuals_btc(&self) -> (r: Option<&GateioPerpetualsBtc>)
        ensures
            r is Some <==> self is GateioPerpetualsBtc,
            r matches Some(c) ==> *self == ExchangeConnector::GateioPerpetualsBtc(*c),
    {
        match self {
            ExchangeConnector::GateioPerpetualsBtc(c) => Some(c),
            _ => None,
        }
    }

    /// The Gateio USD perpetuals connector, if this is one.
    pub fn as_gateio_perpetuals_usd(&self) -> (r: Option<&GateioPerpetualsUsd>)
        ensures
            r is Some <==> self is GateioPerpetualsUsd,
            r matches Some(c) ==> *self == ExchangeConnector::GateioPerpetualsUsd(*c),
    {
        match self {
            ExchangeConnector::GateioPerpetualsUsd(c) => Some(c),
            _ => None,
        }
    }

    /// The Gateio options connector, if this is one.
    pub fn as_gateio_options(&self) -> (r: Option<&GateioOptions>)
        ensures
            r is Some <==> self is GateioOptions,
            r matches Some(c) ==> *self == ExchangeConnector::GateioOptions(*c),
    {
        match self {
            ExchangeConnector::GateioOptions(c) => Some(c),
            _ => None,
        }
    }

    /// The Kraken connector, if this is one.
    pub fn as_kraken(&self) -> (r: Option<&Kraken>)
        ensures
            r is Some <==> self is Kraken,
            r matches Some(c) ==> *self == ExchangeConnector::Kraken(*c),
    {
        match self {
            ExchangeConnector::Kraken(c) => Some(c),
            _ => None,
        }
    }

    /// The OKX connector, if this is one.
    pub fn as_okx(&self) -> (r: Option<&Okx>)
        ensures
            r is Some <==> self is Okx,
            r matches Some(c) ==> *self == ExchangeConnector::Okx(*c),
    {
        match self {
            ExchangeConnector::Okx(c) => Some(c),
            _ => None,
        }
    }
}

/// The connectors of `s` that are not for exchange `e`, in order.
pub open spec fn without_exchange(s: Seq<ExchangeConnector>, e: ExchangeId) -> Seq<ExchangeConnector> {
    s.filter(|c: ExchangeConnector| connector_exchange(c) != e)
}

/// `s` with `c` taking the place of any connector for its exchange: the others in
/// order, then `c`.
pub open spec fn with_replaced(s: Seq<ExchangeConnector>, c: ExchangeConnector) -> Seq<ExchangeConnector> {
    without_exchange(s, connector_exchange(c)).push(c)
}

/// `s` after each connector of `v`, in order, replaced its exchange's.
pub open spec fn extended(s: Seq<ExchangeConnector>, v: Seq<ExchangeConnector>) -> Seq<ExchangeConnector>
    decreases v.len(),
{
    if v.len() == 0 {
        s
    } else {
        with_replaced(extended(s, v.drop_last()), v.last())
    }
}

/// Whether some connector of `s` is for exchange `e`.
pub open spec fn has_exchange(s: Seq<ExchangeConnector>, e: ExchangeId) -> bool {
    exists|i: int| 0 <= i < s.len() && connector_exchange(s[i]) == e
}

/// The index of the first connector of `s` for exchange `e` (where `has_exchange`).
pub open spec fn first_for(s: Seq<ExchangeConnector>, e: ExchangeId) -> int {
    choose|i: int|
        0 <= i < s.len() && connector_exchange(s[i]) == e && forall|j: int| 0 <= j < i ==> connector_exchange(s[j]) != e
}

/// No two connectors of `s` are for the same exchange.
pub open spec fn one_per_exchange(s: Seq<ExchangeConnector>) -> bool {
    unique_by(s, |c: ExchangeConnector| connector_exchange(c))
}

/// A list of connectors for dynamic streams to use in place of the default ones.
#[derive(Clone)]
pub struct ConnectorFactory {
    connectors: Vec<ExchangeConnector>,
}

impl View for ConnectorFactory {
    type V = Seq<ExchangeConnector>;

    closed spec fn view(&self) -> Seq<ExchangeConnector> {
        self.connectors@
    }
}

impl Default for ConnectorFactory {
    fn default() -> (r: Self)
        ensures
            r@.len() == 0,
    {
        ConnectorFactory { connectors: Vec::new() }
    }
}

/// The connectors of `s` not for `e` (see `without_exchange`).
fn retain_other(s: &Vec<ExchangeConnector>, e: ExchangeId) -> (r: Vec<ExchangeConnector>)
    ensures
        r@ == without_exchange(s@, e),
{
    let mut r: Vec<ExchangeConnector> = Vec::new();
    let mut i: usize = 0;
    while i < s.len()
        invariant
            i <= s.len(),
            r@ == without_exchange(s@.take(i as int), e),
        decreases s.len() - i,
    {
        proof {
            reveal_with_fuel(Seq::filter, 1);
            assert(s@.take(i as int + 1).drop_last() =~= s@.take(i as int));
        }
        if s[i].exchange_id() != e {
            r.push(s[i].copy());
        }
        i = i + 1;
    }
    proof {
        assert(s@.take(s.len() as int) =~= s@);
    }
    r
}

impl ConnectorFactory {
    /// An empty factory.
    pub fn new() -> (r: Self)
        ensures
            r@.len() == 0,
    {
        ConnectorFactory { connectors: Vec::new() }
    }

    /// A factory holding exactly the given connectors, in order (duplicates kept).
    pub fn from_connectors(connectors: Vec<ExchangeConnector>) -> (r: Self)
        ensures
            r@ == connectors@,
    {
        ConnectorFactory { connectors }
    }

    /// This factory with `connector` in place of any connector for its exchange:
    /// the others keep their order, and `connector` comes last.
    pub fn with_connector(self, connector: ExchangeConnector) -> (r: Self)
        ensures
            r@ == with_replaced(self@, connector),
    {
        let mut connectors = retain_other(&self.connectors, connector.exchange_id());
        connectors.push(connector);
        ConnectorFactory { connectors }
    }

    /// Replaces, for each of `more` in order, any connector for its exchange.
    pub fn extend(&mut self, more: Vec<ExchangeConnector>)
        ensures
            final(self)@ == extended(old(self)@, more@),
    {
        let mut i: usize = 0;
        while i < more.len()
            invariant
                i <= more.len(),
                self@ == extended(old(self)@, more@.take(i as int)),
            decreases more.len() - i,
        {
            let c = more[i].copy();
            let mut connectors = retain_other(&self.connectors, c.exchange_id());
            connectors.push(c);
            self.connectors = connectors;
            proof {
                assert(more@.take(i as int + 1).drop_last() =~= more@.take(i as int));
            }
            i = i + 1;
        }
        proof {
            assert(more@.take(more.len() as int) =~= more@);
        }
    }

    /// The first connector for `exchange`, if any.
    pub fn get(&self, exchange: ExchangeId) -> (r: Option<&ExchangeConnector>)
        ensures
            r is None <==> !has_exchange(self@, exchange),
            r matches Some(c) ==> *c == self@[first_for(self@, exchange)],
    {
        let mut i: usize = 0;
        while i < self.connectors.len()
            invariant
                i <= self.connectors.len(),
                forall|j: int| 0 <= j < i ==> connector_exchange(self.connectors@[j]) != exchange,
            decreases self.connectors.len() - i,
        {
            if self.connectors[i].exchange_id() == exchange {
                proof {
                    let s = self.connectors@;
                    assert(0 <= i < s.len() && connector_exchange(s[i as int]) == exchange && forall|j: int|
                        0 <= j < i ==> connector_exchange(s[j]) != exchange);
                    let c = first_for(s, exchange);
                    if c < i {
                    } else if c > i {
                        assert(connector_exchange(s[i as int]) != exchange);
                    }
                }
                return Some(&self.connectors[i]);
            }
            i = i + 1;
        }
        None
    }

    /// Whether the factory holds no connector.
    pub fn is_empty(&self) -> (r: bool)
        ensures
            r == (self@.len() == 0),
    {
        self.connectors.len() == 0
    }

    /// The number of connectors held.
    pub fn len(&self) -> (r: usize)
        ensures
            r == self@.len(),
    {
        self.connectors.len()
    }

    /// Removes every connector.
    pub fn clear(&mut self)
        ensures
            final(self)@.len() == 0,
    {
        self.connectors = Vec::new();
    }

    /// Removes the connectors for `exchange`; whether there were any.
    pub fn remove(&mut self, exchange: ExchangeId) -> (r: bool)
        ensures
            final(self)@ == without_exchange(old(self)@, exchange),
            r == has_exchange(old(self)@, exchange),
    {
        let before = self.connectors.len();
        let ghost s = self.connectors@;
        self.connectors = retain_other(&self.connectors, exchange);
        proof {
            lemma_without_len(s, exchange);
        }
        self.connectors.len() < before
    }

    /// The connectors held, in order.
    pub fn iter(&self) -> (r: std::slice::Iter<'_, ExchangeConnector>)
        ensures
            vstd::std_specs::slice::into_iter_elts(r) == self@,
    {
        broadcast use vstd::std_specs::slice::axiom_spec_slice_iter;
        self.connectors.as_slice().iter()
    }

    /// The connectors held, in order.
    pub fn into_connectors(self) -> (r: Vec<ExchangeConnector>)
        ensures
            r@ == self@,
    {
        self.connectors
    }
}

/// Removing the connectors for `e` shortens the list exactly where there were any.
proof fn lemma_without_len(s: Seq<ExchangeConnector>, e: ExchangeId)
    ensures
        without_exchange(s, e).len() <= s.len(),
        without_exchange(s, e).len() < s.len() <==> has_exchange(s, e),
    decreases s.len(),
{
    reveal_with_fuel(Seq::filter, 1);
    if s.len() > 0 {
        lemma_without_len(s.drop_last(), e);
        if has_exchange(s.drop_last(), e) {
            let i = choose|i: int| 0 <= i < s.drop_last().len() && connector_exchange(s.drop_last()[i]) == e;
            assert(connector_exchange(s[i]) == e);
        }
        if has_exchange(s, e) && connector_exchange(s.last()) != e {
            let i = choose|i: int| 0 <= i < s.len() && connector_exchange(s[i]) == e;
            assert(s.drop_last()[i] == s[i]);
        }
    }
}

/// No connector of `without_exchange(s, e)` is for `e`.
proof fn lemma_without_has_none(s: Seq<ExchangeConnector>, e: ExchangeId)
    ensures
        forall|i: int| 0 <= i < without_exchange(s, e).len() ==> connector_exchange(#[trigger] without_exchange(s, e)[i]) != e,
{
    broadcast use vstd::seq_lib::group_filter_ensures;
    assert forall|i: int| 0 <= i < without_exchange(s, e).len() implies connector_exchange(
        #[trigger] without_exchange(s, e)[i],
    ) != e by {
        let p = |c: ExchangeConnector| connector_exchange(c) != e;
        assert(p(s.filter(p)[i]));
    }
}

/// Replacing a connector keeps at most one connector per exchange.
pub proof fn law_with_connector_keeps_one_per_exchange(s: Seq<ExchangeConnector>, c: ExchangeConnector)
    requires
        one_per_exchange(s),
    ensures
        one_per_exchange(with_replaced(s, c)),
{
    let e = connector_exchange(c);
    let key = |x: ExchangeConnector| connector_exchange(x);
    lemma_unique_filter(s, key, |x: ExchangeConnector| connector_exchange(x) != e);
    lemma_without_has_none(s, e);
    let f = without_exchange(s, e);
    assert forall|i: int| 0 <= i < f.len() implies key(f[i]) != key(c) by {
        assert(connector_exchange(f[i]) != e);
    }
    lemma_unique_push(f, key, c);
}

/// After `with_connector(c)`, looking up `c`'s exchange finds `c`.
pub proof fn law_get_after_with_connector(s: Seq<ExchangeConnector>, c: ExchangeConnector)
    ensures
        has_exchange(with_replaced(s, c), connector_exchange(c)),
        with_replaced(s, c)[first_for(with_replaced(s, c), connector_exchange(c))] == c,
{
    let e = connector_exchange(c);
    let r = with_replaced(s, c);
    let f = without_exchange(s, e);
    lemma_without_has_none(s, e);
    let k = f.len() as int;
    assert(r[k] == c);
    assert forall|j: int| 0 <= j < k implies connector_exchange(r[j]) != e by {
        assert(r[j] == f[j]);
    }
    let w = first_for(r, e);
    assert(0 <= w < r.len() && connector_exchange(r[w]) == e && forall|j: int| 0 <= j < w ==> connector_exchange(r[j]) != e);
    if w < k {
        assert(r[w] == f[w]);
    }
}

/// Replacing a connector leaves which other exchanges have one as it was.
pub proof fn law_with_connector_keeps_other_exchanges(s: Seq<ExchangeConnector>, c: ExchangeConnector, e: ExchangeId)
    requires
        e != connector_exchange(c),
    ensures
        has_exchange(with_replaced(s, c), e) == has_exchange(s, e),
{
    broadcast use vstd::seq_lib::group_filter_ensures;
    let p = |x: ExchangeConnector| connector_exchange(x) != connector_exchange(c);
    let f = s.filter(p);
    let r = f.push(c);
    if has_exchange(s, e) {
        let i = choose|i: int| 0 <= i < s.len() && connector_exchange(s[i]) == e;
        assert(p(s[i]));
        assert(f.contains(s[i]));
        let j = choose|j: int| 0 <= j < f.len() && f[j] == s[i];
        assert(r[j] == f[j]);
    }
    if has_exchange(r, e) {
        let j = choose|j: int| 0 <= j < r.len() && connector_exchange(r[j]) == e;
        assert(j < f.len());
        assert(r[j] == f[j]);
        s.lemma_filter_contains_rev(p, f[j]);
        let i = choose|i: int| 0 <= i < s.len() && s[i] == f[j];
        assert(connector_exchange(s[i]) == e);
    }
}

/// Extending keeps at most one connector per exchange.
pub proof fn law_extend_keeps_one_per_exchange(s: Seq<ExchangeConnector>, v: Seq<ExchangeConnector>)
    requires
        one_per_exchange(s),
    ensures
        one_per_exchange(extended(s, v)),
    decreases v.len(),
{
    if v.len() > 0 {
        law_extend_keeps_one_per_exchange(s, v.drop_last());
        law_with_connector_keeps_one_per_exchange(extended(s, v.drop_last()), v.last());
    }
}

/// After `remove(e)`, no connector for `e` is left.
pub proof fn law_remove_leaves_none(s: Seq<ExchangeConnector>, e: ExchangeId)
    ensures
        !has_exchange(without_exchange(s, e), e),
{
    lemma_without_has_none(s, e);
}

/// With one connector per exchange, removing the connectors for `e` drops exactly
/// one where `e` had one, and none where it had none.
proof fn lemma_without_len_exact(s: Seq<ExchangeConnector>, e: ExchangeId)
    requires
        one_per_exchange(s),
    ensures
        without_exchange(s, e).len() == s.len() - (if has_exchange(s, e) { 1int } else { 0int }),
    decreases s.len(),
{
    reveal_with_fuel(Seq::filter, 1);
    lemma_without_len(s, e);
    if s.len() > 0 && has_exchange(s, e) {
        let t = s.drop_last();
        let key = |x: ExchangeConnector| connector_exchange(x);
        assert(one_per_exchange(t)) by {
            assert forall|i: int, j: int| 0 <= i < j < t.len() implies key(t[i]) != key(t[j]) by {
                assert(t[i] == s[i] && t[j] == s[j]);
                assert(key(s[i]) != key(s[j]));
            }
        }
        lemma_without_len(t, e);
        if connector_exchange(s.last()) == e {
            assert(!has_exchange(t, e)) by {
                if has_exchange(t, e) {
                    let i = choose|i: int| 0 <= i < t.len() && connector_exchange(t[i]) == e;
                    assert(t[i] == s[i]);
                    assert(key(s[i]) != key(s[s.len() - 1]));
                }
            }
        } else {
            assert(has_exchange(t, e)) by {
                let i = choose|i: int| 0 <= i < s.len() && connector_exchange(s[i]) == e;
                assert(i < s.len() - 1);
                assert(t[i] == s[i]);
            }
            lemma_without_len_exact(t, e);
        }
    }
}

/// With one connector per exchange, the connector at `i` is the first (and only)
/// one for its exchange.
proof fn lemma_first_for_unique(s: Seq<ExchangeConnector>, e: ExchangeId, i: int)
    requires
        one_per_exchange(s),
        0 <= i < s.len(),
        connector_exchange(s[i]) == e,
    ensures
        has_exchange(s, e),
        first_for(s, e) == i,
{
    let key = |x: ExchangeConnector| connector_exchange(x);
    assert forall|j: int| 0 <= j < i implies connector_exchange(s[j]) != e by {
        assert(key(s[j]) != key(s[i]));
    }
    let w = first_for(s, e);
    assert(0 <= w < s.len() && connector_exchange(s[w]) == e && forall|j: int| 0 <= j < w ==> connector_exchange(s[j]) != e);
    if w > i {
        assert(key(s[i]) != key(s[w]));
    }
}

/// Law: with one connector per exchange, `with_connector(c)` leaves what `get`
/// finds for every other exchange as it was, and grows the factory by one exactly
/// where `c`'s exchange had no connector.
pub proof fn law_with_connector_keeps_others_and_counts(s: Seq<ExchangeConnector>, c: ExchangeConnector, e: ExchangeId)
    requires
        one_per_exchange(s),
        e != connector_exchange(c),
    ensures
        has_exchange(with_replaced(s, c), e) == has_exchange(s, e),
        has_exchange(s, e) ==> with_replaced(s, c)[first_for(with_replaced(s, c), e)] == s[first_for(s, e)],
        with_replaced(s, c).len() == s.len() + (if has_exchange(s, connector_exchange(c)) { 0int } else { 1int }),
{
    broadcast use vstd::seq_lib::group_filter_ensures;
    law_with_connector_keeps_other_exchanges(s, c, e);
    law_with_connector_keeps_one_per_exchange(s, c);
    lemma_without_len_exact(s, connector_exchange(c));
    let p = |x: ExchangeConnector| connector_exchange(x) != connector_exchange(c);
    let f = s.filter(p);
    let r = f.push(c);
    if has_exchange(s, e) {
        let i = choose|i: int| 0 <= i < s.len() && connector_exchange(s[i]) == e;
        lemma_first_for_unique(s, e, i);
        assert(p(s[i]));
        assert(f.contains(s[i]));
        let j = choose|j: int| 0 <= j < f.len() && f[j] == s[i];
        assert(r[j] == s[i]);
        lemma_first_for_unique(r, e, j);
    }
}

/// Law: with one connector per exchange, `remove(e)` shortens the factory by one
/// exactly where `e` had a connector (and then `remove` answers `true`).
pub proof fn law_remove_counts(s: Seq<ExchangeConnector>, e: ExchangeId)
    requires
        one_per_exchange(s),
    ensures
        without_exchange(s, e).len() == s.len() - (if has_exchange(s, e) { 1int } else { 0int }),
{
    lemma_without_len_exact(s, e);
}


/// Law: each connector is for the exchange of its own name, so that, with one
/// connector per exchange, `get` of an exchange after `with_connector(c)` finds `c`
/// exactly when the exchange is the one `c` is named for.
pub proof fn law_connector_for_exchange_of_its_name(s: Seq<ExchangeConnector>, c: ExchangeConnector, e: ExchangeId)
    requires
        one_per_exchange(s),
    ensures
        match c {
            ExchangeConnector::BinanceSpot(_) => connector_exchange(c) == ExchangeId::BinanceSpot,
            ExchangeConnector::BinanceFuturesUsd(_) => connector_exchange(c) == ExchangeId::BinanceFuturesUsd,
            ExchangeConnector::Bitfinex(_) => connector_exchange(c) == ExchangeId::Bitfinex,
            ExchangeConnector::Bitmex(_) => connector_exchange(c) == ExchangeId::Bitmex,
            ExchangeConnector::BybitSpot(_) => connector_exchange(c) == ExchangeId::BybitSpot,
            ExchangeConnector::BybitPerpetualsUsd(_) => connector_exchange(c) == ExchangeId::BybitPerpetualsUsd,
            ExchangeConnector::Coinbase(_) => connector_exchange(c) == ExchangeId::Coinbase,
            ExchangeConnector::Deribit(_) => connector_exchange(c) == ExchangeId::Deribit,
            ExchangeConnector::GateioSpot(_) => connector_exchange(c) == ExchangeId::GateioSpot,
            ExchangeConnector::GateioFuturesUsd(_) => connector_exchange(c) == ExchangeId::GateioFuturesUsd,
            ExchangeConnector::GateioFuturesBtc(_) => connector_exchange(c) == ExchangeId::GateioFuturesBtc,
            ExchangeConnector::GateioPerpetualsBtc(_) => connector_exchange(c) == ExchangeId::GateioPerpetualsBtc,
            ExchangeConnector::GateioPerpetualsUsd(_) => connector_exchange(c) == ExchangeId::GateioPerpetualsUsd,
            ExchangeConnector::GateioOptions(_) => connector_exchange(c) == ExchangeId::GateioOptions,
            ExchangeConnector::Kraken(_) => connector_exchange(c) == ExchangeId::Kraken,
            ExchangeConnector::Okx(_) => connector_exchange(c) == ExchangeId::Okx,
        },
        (has_exchange(with_replaced(s, c), e) && with_replaced(s, c)[first_for(with_replaced(s, c), e)] == c)
            <==> e == connector_exchange(c),
{
    law_get_after_with_connector(s, c);
    law_with_connector_keeps_one_per_exchange(s, c);
    let r = with_replaced(s, c);
    if has_exchange(r, e) && r[first_for(r, e)] == c {
        let w = first_for(r, e);
        assert(0 <= w < r.len() && connector_exchange(r[w]) == e);
    }
}

} // verus!
