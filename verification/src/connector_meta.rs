//! Metadata of stream connector types: the exchange module they live in and the
//! names of their market and channel types.
use crate::deribit::connector::Deribit;
use convert_case::{Case, Casing};
use vstd::prelude::*;

verus! {

/// Metadata of a stream connector type.
pub trait StreamConnectorMeta {
    /// Exchange module root (e.g. "binance", "kraken").
    const EXCHANGE_ROOT: &'static str;

    /// Sub-module within the exchange module, if any (e.g. "spot").
    const SUB_MODULE: Option<&'static str>;

    /// Name of the market identifier type (e.g. "BinanceMarket").
    const MARKET_TYPE: &'static str;

    /// Name of the channel identifier type (e.g. "BinanceChannel").
    const CHANNEL_TYPE: &'static str;
}

impl StreamConnectorMeta for Deribit {
    const EXCHANGE_ROOT: &'static str = "deribit";

    const SUB_MODULE: Option<&'static str> = None;

    const MARKET_TYPE: &'static str = "DeribitMarket";

    const CHANNEL_TYPE: &'static str = "DeribitChannel";
}

/// The options a connector type declares its metadata with: the exchange module
/// root, and optionally a sub-module and the market and channel type names.
#[derive(Clone, Debug, PartialEq, Eq)]
pub struct ConnectorOpts {
    pub exchange: String,
    pub sub_module: Option<String>,
    pub market: Option<String>,
    pub channel: Option<String>,
}

/// The metadata a connector type's options give.
#[derive(Clone, Debug, PartialEq, Eq)]
pub struct ConnectorMeta {
    pub exchange_root: String,
    pub sub_module: Option<String>,
    pub market_type: String,
    pub channel_type: String,
}

/// What convert_case's `to_case(Case::Pascal)` returns for a text.
pub uninterp spec fn pascal_case_text(s: Seq<char>) -> Seq<char>;

/// convert_case's `to_case(Case::Pascal)` of a text.
#[verifier::external_body]
fn pascal_case(s: &str) -> (r: String)
    ensures
        r@ == pascal_case_text(s@),
{
    s.to_case(Case::Pascal)
}

/// The text of an optional string, or `default` where absent.
pub open spec fn text_or(o: Option<String>, default: Seq<char>) -> Seq<char> {
    match o {
        Some(s) => s@,
        None => default,
    }
}

/// The metadata of a connector type's options: the exchange root and sub-module as
/// given; market and channel type names as given, else "{Exchange}Market" and
/// "{Exchange}Channel" with the exchange root in Pascal case.
pub fn connector_meta(opts: ConnectorOpts) -> (r: ConnectorMeta)
    ensures
        r.exchange_root@ == opts.exchange@,
        r.sub_module == opts.sub_module,
        r.market_type@ == text_or(opts.market, pascal_case_text(opts.exchange@) + "Market"@),
        r.channel_type@ == text_or(opts.channel, pascal_case_text(opts.exchange@) + "Channel"@),
{
    let pascal = pascal_case(opts.exchange.as_str());
    let market_type = match opts.market {
        Some(m) => m,
        None => {
            let mut m = pascal.clone();
            m.append("Market");
            m
        },
    };
    let channel_type = match opts.channel {
        Some(c) => c,
        None => {
            let mut c = pascal.clone();
            c.append("Channel");
            c
        },
    };
    ConnectorMeta { exchange_root: opts.exchange, sub_module: opts.sub_module, market_type, channel_type }
}

} // verus!
