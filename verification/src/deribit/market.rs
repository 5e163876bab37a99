//! Deribit market names of instruments.
use crate::decimal::{dec_text, decimal_display};
use crate::time::Timestamp;
use chrono::DateTime;
use rust_decimal::Decimal;
use smol_str::StrExt;
use vstd::prelude::*;

verus! {

/// Kind of an option contract.
#[derive(Copy, Clone, Debug, PartialEq, Eq, Structural)]
pub enum OptionKind {
    Call,
    Put,
}

/// Kind of a market data instrument.
#[derive(Clone, Debug, PartialEq)]
pub enum MarketDataInstrumentKind {
    Spot,
    Perpetual,
    Future { expiry: Timestamp },
    Option { expiry: Timestamp, strike: Decimal, kind: OptionKind },
}

/// A market data instrument: base and quote asset names and its kind.
#[derive(Clone, Debug, PartialEq)]
pub struct MarketDataInstrument {
    pub base: String,
    pub quote: String,
    pub kind: MarketDataInstrumentKind,
}

/// The name of a Deribit market, e.g. "BTC-PERPETUAL" or "BTC-27MAY24-9000-C".
#[derive(Clone, Debug, PartialEq, Eq)]
pub struct DeribitMarket(pub String);

impl DeribitMarket {
    /// The market name.
    pub fn as_ref(&self) -> (r: &str)
        ensures
            r@ == self.0@,
    {
        self.0.as_str()
    }
}

/// What chrono's `format("%d%b%y")` writes for the UTC time (`secs`, `nanos`),
/// e.g. "27May24"; `None` where chrono cannot represent that time.
pub uninterp spec fn chrono_day_month_year(secs: i64, nanos: u32) -> Option<Seq<char>>;

/// What `str::to_uppercase` returns for a text.
pub uninterp spec fn std_uppercase_text(s: Seq<char>) -> Seq<char>;

/// What smol_str's `to_uppercase_smolstr` returns for a text.
pub uninterp spec fn smol_uppercase_text(s: Seq<char>) -> Seq<char>;

/// The expiry day, month abbreviation and two-digit year that chrono writes for `t`
/// (`DateTime::from_timestamp`, then `format("%d%b%y")`).
#[verifier::external_body]
fn day_month_year(t: Timestamp) -> (r: Option<String>)
    ensures
        r is Some == chrono_day_month_year(t.secs, t.nanos) is Some,
        r matches Some(s) ==> chrono_day_month_year(t.secs, t.nanos) == Some(s@),
{
    match DateTime::from_timestamp(t.secs, t.nanos) {
        Some(d) => Some(d.format("%d%b%y").to_string()),
        None => None,
    }
}

/// `str::to_uppercase` of a text.
#[verifier::external_body]
fn std_uppercase(s: &str) -> (r: String)
    ensures
        r@ == std_uppercase_text(s@),
{
    s.to_uppercase()
}

/// smol_str's `to_uppercase_smolstr` of a text.
#[verifier::external_body]
fn smol_uppercase(s: &str) -> (r: String)
    ensures
        r@ == smol_uppercase_text(s@),
{
    s.to_uppercase_smolstr().to_string()
}

/// Deribit's text of an expiry: chrono's day, month abbreviation and two-digit
/// year, uppercased (e.g. "27MAY24").
pub open spec fn expiry_text(t: Timestamp) -> Option<Seq<char>> {
    match chrono_day_month_year(t.secs, t.nanos) {
        Some(s) => Some(std_uppercase_text(s)),
        None => None,
    }
}

/// The Deribit market name of an instrument, uppercased: "{base}-PERPETUAL" for
/// perpetuals and (Deribit having none) spot; "{base}-{expiry}" for futures;
/// "{base}-{expiry}-{strike}-{C|P}" for options; `None` where an expiry is not a
/// time chrono can represent.
pub open spec fn market_name(i: MarketDataInstrument) -> Option<Seq<char>> {
    let base = i.base@;
    match i.kind {
        MarketDataInstrumentKind::Spot => Some(smol_uppercase_text(base + "-PERPETUAL"@)),
        MarketDataInstrumentKind::Perpetual => Some(smol_uppercase_text(base + "-PERPETUAL"@)),
        MarketDataInstrumentKind::Future { expiry } => match expiry_text(expiry) {
            Some(e) => Some(smol_uppercase_text(base + "-"@ + e)),
            None => None,
        },
        MarketDataInstrumentKind::Option { expiry, strike, kind } => match expiry_text(expiry) {
            Some(e) => Some(
                smol_uppercase_text(
                    base + "-"@ + e + "-"@ + decimal_display(strike) + "-"@ + match kind {
                        OptionKind::Call => "C"@,
                        OptionKind::Put => "P"@,
                    },
                ),
            ),
            None => None,
        },
    }
}

/// Deribit's text of an expiry (see `expiry_text`).
fn format_expiry(t: Timestamp) -> (r: Option<String>)
    ensures
        r is Some == expiry_text(t) is Some,
        r matches Some(s) ==> expiry_text(t) == Some(s@),
{
    match day_month_year(t) {
        Some(s) => Some(std_uppercase(s.as_str())),
        None => None,
    }
}

/// The Deribit market of an instrument (see `market_name`).
pub fn deribit_market(i: &MarketDataInstrument) -> (r: Option<DeribitMarket>)
    ensures
        r is Some == market_name(*i) is Some,
        r matches Some(m) ==> market_name(*i) == Some(m.0@),
{
    let mut name = String::from_str(i.base.as_str());
    match &i.kind {
        MarketDataInstrumentKind::Spot => {
            name.append("-PERPETUAL");
        },
        MarketDataInstrumentKind::Perpetual => {
            name.append("-PERPETUAL");
        },
        MarketDataInstrumentKind::Future { expiry } => {
            let e = match format_expiry(*expiry) {
                Some(e) => e,
                None => return None,
            };
            name.append("-");
            name.append(e.as_str());
        },
        MarketDataInstrumentKind::Option { expiry, strike, kind } => {
            let e = match format_expiry(*expiry) {
                Some(e) => e,
                None => return None,
            };
            name.append("-");
            name.append(e.as_str());
            name.append("-");
            let k = dec_text(*strike);
            name.append(k.as_str());
            name.append("-");
            match kind {
                OptionKind::Call => name.append("C"),
                OptionKind::Put => name.append("P"),
            }
        },
    }
    Some(DeribitMarket(smol_uppercase(name.as_str())))
}

} // verus!
