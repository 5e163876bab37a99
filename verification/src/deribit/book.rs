//! Deribit order book messages: the ticker (L1) and the book channel (L2).
use crate::books::{Level, OrderBook, OrderBookEvent, OrderBookL1};
use crate::decimal::{dec_parse, decimal_is_zero, decimal_parsed, decimal_parsed_exact, dec_zero, zero};
use crate::exchange_id::ExchangeId;
use crate::time::Timestamp;
use rust_decimal::Decimal;
use vstd::prelude::*;

verus! {

/// An event of market data: exchange and receipt times, exchange, instrument and
/// what happened.
#[derive(Clone, Debug, PartialEq)]
pub struct MarketEvent<InstrumentKey, Kind> {
    pub time_exchange: Timestamp,
    pub time_received: Timestamp,
    pub exchange: ExchangeId,
    pub instrument: InstrumentKey,
    pub kind: Kind,
}

/// The data of a Deribit ticker message (L1).
#[derive(Clone, Debug, PartialEq)]
pub struct DeribitTickerData {
    pub time: Timestamp,
    pub best_bid_price: Decimal,
    pub best_bid_amount: Decimal,
    pub best_ask_price: Decimal,
    pub best_ask_amount: Decimal,
}

/// A side of the ticker as an L1 level: absent where its price is zero.
pub open spec fn ticker_level(price: Decimal, amount: Decimal) -> Option<Level> {
    if decimal_is_zero(price) {
        None
    } else {
        Some(Level { price, amount })
    }
}

/// The L1 book event of a ticker received at `time_received`: best bid and ask
/// from the ticker, each absent where its price is zero, stamped with the
/// ticker's time.
pub fn ticker_event<InstrumentKey>(
    exchange: ExchangeId,
    instrument: InstrumentKey,
    data: &DeribitTickerData,
    time_received: Timestamp,
) -> (r: MarketEvent<InstrumentKey, OrderBookL1>)
    ensures
        r.time_exchange == data.time,
        r.time_received == time_received,
        r.exchange == exchange,
        r.instrument == instrument,
        r.kind.last_update_time == data.time,
        r.kind.best_bid == ticker_level(data.best_bid_price, data.best_bid_amount),
        r.kind.best_ask == ticker_level(data.best_ask_price, data.best_ask_amount),
{
    let best_ask = if data.best_ask_price.is_zero() {
        None
    } else {
        Some(Level::new(data.best_ask_price, data.best_ask_amount))
    };
    let best_bid = if data.best_bid_price.is_zero() {
        None
    } else {
        Some(Level::new(data.best_bid_price, data.best_bid_amount))
    };
    MarketEvent {
        time_exchange: data.time,
        time_received,
        exchange,
        instrument,
        kind: OrderBookL1 { last_update_time: data.time, best_bid, best_ask },
    }
}

/// What a level update of the book channel does.
#[derive(Copy, Clone, Debug, PartialEq, Eq, Structural)]
pub enum DeribitBookAction {
    New,
    Change,
    Delete,
}

/// A level update of the book channel.
#[derive(Copy, Clone, Debug, PartialEq)]
pub struct DeribitBookLevel {
    pub action: DeribitBookAction,
    pub price: Decimal,
    pub amount: Decimal,
}

/// The data of a Deribit book message (L2): a snapshot where it names no previous
/// change id, else an update.
#[derive(Clone, Debug, PartialEq)]
pub struct DeribitBookUpdateData {
    pub time: Timestamp,
    pub change_id: u64,
    pub prev_change_id: Option<u64>,
    pub bids: Vec<DeribitBookLevel>,
    pub asks: Vec<DeribitBookLevel>,
}

/// A book level update as a level: a deletion leaves zero at its price.
pub open spec fn level_of(l: DeribitBookLevel) -> Level {
    Level {
        price: l.price,
        amount: match l.action {
            DeribitBookAction::Delete => dec_zero(),
            _ => l.amount,
        },
    }
}

/// The levels of a sequence of book level updates, in order.
pub open spec fn levels_of(s: Seq<DeribitBookLevel>) -> Seq<Level> {
    s.map_values(|l: DeribitBookLevel| level_of(l))
}

/// The levels of book level updates (see `level_of`).
fn to_levels(s: &Vec<DeribitBookLevel>) -> (r: Vec<Level>)
    ensures
        r@ == levels_of(s@),
{
    let mut r: Vec<Level> = Vec::new();
    let mut i: usize = 0;
    while i < s.len()
        invariant
            i <= s.len(),
            r@ == levels_of(s@.take(i as int)),
        decreases s.len() - i,
    {
        let l = s[i];
        let amount = match l.action {
            DeribitBookAction::Delete => zero(),
            _ => l.amount,
        };
        r.push(Level::new(l.price, amount));
        proof {
            assert(levels_of(s@.take(i as int + 1)) =~= levels_of(s@.take(i as int)).push(level_of(l)));
        }
        i = i + 1;
    }
    proof {
        assert(s@.take(s.len() as int) =~= s@);
    }
    r
}

/// The L2 book event of a book message received at `time_received`: a snapshot
/// where the message names no previous change id, else an update; numbered by the
/// change id, stamped with the message time, levels as `levels_of` gives them.
pub fn book_event<InstrumentKey>(
    exchange: ExchangeId,
    instrument: InstrumentKey,
    data: &DeribitBookUpdateData,
    time_received: Timestamp,
) -> (r: MarketEvent<InstrumentKey, OrderBookEvent>)
    ensures
        r.time_exchange == data.time,
        r.time_received == time_received,
        r.exchange == exchange,
        r.instrument == instrument,
        data.prev_change_id is None <==> r.kind is Snapshot,
        match r.kind {
            OrderBookEvent::Snapshot(b) => b.sequence == data.change_id && b.time_engine == Some(data.time)
                && b.bids@ == levels_of(data.bids@) && b.asks@ == levels_of(data.asks@),
            OrderBookEvent::Update(b) => b.sequence == data.change_id && b.time_engine == Some(data.time)
                && b.bids@ == levels_of(data.bids@) && b.asks@ == levels_of(data.asks@),
        },
{
    let is_snapshot = data.prev_change_id.is_none();
    let bids = to_levels(&data.bids);
    let asks = to_levels(&data.asks);
    let book = OrderBook { sequence: data.change_id, time_engine: Some(data.time), bids, asks };
    let kind = if is_snapshot {
        OrderBookEvent::Snapshot(book)
    } else {
        OrderBookEvent::Update(book)
    };
    MarketEvent { time_exchange: data.time, time_received, exchange, instrument, kind }
}

/// A JSON value where a price or amount is expected: a string, a number (with the
/// text `serde_json` writes for it), or anything else.
#[derive(Clone, Debug, PartialEq)]
pub enum JsonScalar {
    Text(String),
    Number(String),
    Other,
}

/// The text `rust_decimal::Error`'s `Display` writes.
pub uninterp spec fn decimal_error_display(e: rust_decimal::Error) -> Seq<char>;

/// The `Display` text of a `rust_decimal::Error`.
#[verifier::external_body]
fn decimal_error_text(e: rust_decimal::Error) -> (r: String)
    ensures
        r@ == decimal_error_display(e),
{
    e.to_string()
}

/// The decimal a JSON value holds: a string parsed by `Decimal`'s `FromStr`, a
/// number's text parsed exactly; else the error's text.
pub open spec fn json_decimal(v: JsonScalar) -> Result<Decimal, Seq<char>> {
    match v {
        JsonScalar::Text(s) => match decimal_parsed(s@) {
            Ok(d) => Ok(d),
            Err(e) => Err(decimal_error_display(e)),
        },
        JsonScalar::Number(t) => match decimal_parsed_exact(t@) {
            Ok(d) => Ok(d),
            Err(e) => Err(decimal_error_display(e)),
        },
        JsonScalar::Other => Err("expected string or number"@),
    }
}

/// The decimal a JSON value holds (see `json_decimal`).
pub fn parse_decimal(v: &JsonScalar) -> (r: Result<Decimal, String>)
    ensures
        match json_decimal(*v) {
            Ok(d) => r == Ok::<Decimal, String>(d),
            Err(m) => r is Err && r->Err_0@ == m,
        },
{
    match v {
        JsonScalar::Text(s) => match dec_parse(s.as_str()) {
            Ok(d) => Ok(d),
            Err(e) => Err(decimal_error_text(e)),
        },
        JsonScalar::Number(t) => match Decimal::from_str_exact(t.as_str()) {
            Ok(d) => Ok(d),
            Err(e) => Err(decimal_error_text(e)),
        },
        JsonScalar::Other => Err(String::from_str("expected string or number")),
    }
}

/// The action a book level names: "new", "change" or "delete".
pub open spec fn action_named(s: Seq<char>) -> Option<DeribitBookAction> {
    if s == "new"@ {
        Some(DeribitBookAction::New)
    } else if s == "change"@ {
        Some(DeribitBookAction::Change)
    } else if s == "delete"@ {
        Some(DeribitBookAction::Delete)
    } else {
        None
    }
}

/// Whether two texts are equal, char by char.
fn same_text(a: &str, b: &str) -> (r: bool)
    ensures
        r == (a@ == b@),
{
    let n = a.unicode_len();
    if n != b.unicode_len() {
        return false;
    }
    let mut i: usize = 0;
    while i < n
        invariant
            n == a@.len(),
            n == b@.len(),
            i <= n,
            a@.take(i as int) == b@.take(i as int),
        decreases n - i,
    {
        if a.get_char(i) != b.get_char(i) {
            return false;
        }
        proof {
            assert(a@.take(i as int + 1) =~= a@.take(i as int).push(a@[i as int]));
            assert(b@.take(i as int + 1) =~= b@.take(i as int).push(b@[i as int]));
        }
        i = i + 1;
    }
    proof {
        assert(a@.take(n as int) =~= a@);
        assert(b@.take(n as int) =~= b@);
    }
    true
}

/// The action named by a text (see `action_named`), or "unknown action: {text}".
pub fn parse_action(s: &str) -> (r: Result<DeribitBookAction, String>)
    ensures
        match action_named(s@) {
            Some(a) => r == Ok::<DeribitBookAction, String>(a),
            None => r is Err && r->Err_0@ == "unknown action: "@ + s@,
        },
{
    if same_text(s, "new") {
        Ok(DeribitBookAction::New)
    } else if same_text(s, "change") {
        Ok(DeribitBookAction::Change)
    } else if same_text(s, "delete") {
        Ok(DeribitBookAction::Delete)
    } else {
        let mut m = String::from_str("unknown action: ");
        m.append(s);
        Err(m)
    }
}

/// A book level of the book channel's `[action, price, amount]` triple; the first
/// of its errors otherwise: the action's, then "invalid price: ..." and "invalid
/// amount: ...".
pub open spec fn book_level_of(action: Seq<char>, price: JsonScalar, amount: JsonScalar) -> Result<DeribitBookLevel, Seq<char>> {
    match action_named(action) {
        None => Err("unknown action: "@ + action),
        Some(a) => match json_decimal(price) {
            Err(e) => Err("invalid price: "@ + e),
            Ok(p) => match json_decimal(amount) {
                Err(e) => Err("invalid amount: "@ + e),
                Ok(q) => Ok(DeribitBookLevel { action: a, price: p, amount: q }),
            },
        },
    }
}

/// Reads one `[action, price, amount]` triple of the book channel.
pub fn parse_book_level(action: &str, price: &JsonScalar, amount: &JsonScalar) -> (r: Result<DeribitBookLevel, String>)
    ensures
        match book_level_of(action@, *price, *amount) {
            Ok(l) => r == Ok::<DeribitBookLevel, String>(l),
            Err(m) => r is Err && r->Err_0@ == m,
        },
{
    let a = match parse_action(action) {
        Ok(a) => a,
        Err(e) => return Err(e),
    };
    let p = match parse_decimal(price) {
        Ok(p) => p,
        Err(e) => {
            let mut m = String::from_str("invalid price: ");
            m.append(e.as_str());
            return Err(m);
        },
    };
    let q = match parse_decimal(amount) {
        Ok(q) => q,
        Err(e) => {
            let mut m = String::from_str("invalid amount: ");
            m.append(e.as_str());
            return Err(m);
        },
    };
    Ok(DeribitBookLevel { action: a, price: p, amount: q })
}

/// The levels of a sequence of triples: all of them, or the first triple's error.
pub open spec fn book_levels_of(s: Seq<(String, JsonScalar, JsonScalar)>) -> Result<Seq<DeribitBookLevel>, Seq<char>>
    decreases s.len(),
{
    if s.len() == 0 {
        Ok(Seq::empty())
    } else {
        match book_levels_of(s.drop_last()) {
            Err(e) => Err(e),
            Ok(prefix) => match book_level_of(s.last().0@, s.last().1, s.last().2) {
                Err(e) => Err(e),
                Ok(l) => Ok(prefix.push(l)),
            },
        }
    }
}

/// Reads the `[action, price, amount]` triples of a book side (see `book_levels_of`).
pub fn parse_book_levels(s: &Vec<(String, JsonScalar, JsonScalar)>) -> (r: Result<Vec<DeribitBookLevel>, String>)
    ensures
        match book_levels_of(s@) {
            Ok(ls) => r is Ok && r->Ok_0@ == ls,
            Err(m) => r is Err && r->Err_0@ == m,
        },
{
    let mut r: Vec<DeribitBookLevel> = Vec::new();
    let mut i: usize = 0;
    while i < s.len()
        invariant
            i <= s.len(),
            book_levels_of(s@.take(i as int)) == Ok::<Seq<DeribitBookLevel>, Seq<char>>(r@),
        decreases s.len() - i,
    {
        proof {
            assert(s@.take(i as int + 1).drop_last() =~= s@.take(i as int));
        }
        let t = &s[i];
        match parse_book_level(t.0.as_str(), &t.1, &t.2) {
            Ok(l) => r.push(l),
            Err(e) => {
                proof {
                    let k = i as int + 1;
                    assert(s@.take(s.len() as int) =~= s@);
                    assert(book_levels_of(s@.take(k)) == Err::<Seq<DeribitBookLevel>, Seq<char>>(e@));
                    lemma_first_error_kept(s@, k, s.len() as int);
                }
                return Err(e);
            },
        }
        i = i + 1;
    }
    proof {
        assert(s@.take(s.len() as int) =~= s@);
    }
    Ok(r)
}

/// Once a prefix of triples fails, every longer prefix fails with the same error.
proof fn lemma_first_error_kept(s: Seq<(String, JsonScalar, JsonScalar)>, k: int, j: int)
    requires
        0 <= k <= j <= s.len(),
        book_levels_of(s.take(k)) is Err,
    ensures
        book_levels_of(s.take(j)) == book_levels_of(s.take(k)),
    decreases j - k,
{
    if j > k {
        lemma_first_error_kept(s, k, j - 1);
        assert(s.take(j).drop_last() =~= s.take(j - 1));
    }
}


/// Law: each book level update becomes the level at its own price; a new or
/// changed level keeps its amount, and only a deleted level gets amount zero.
pub proof fn law_levels_keep_price_and_amount_unless_deleted(s: Seq<DeribitBookLevel>, i: int)
    requires
        0 <= i < s.len(),
    ensures
        levels_of(s).len() == s.len(),
        levels_of(s)[i].price == s[i].price,
        s[i].action == DeribitBookAction::New ==> levels_of(s)[i].amount == s[i].amount,
        s[i].action == DeribitBookAction::Change ==> levels_of(s)[i].amount == s[i].amount,
        s[i].action == DeribitBookAction::Delete ==> levels_of(s)[i].amount == dec_zero(),
{
}

} // verus!
