use vstd::prelude::*;

verus! {

/// Interval suffix for Deribit market data channels.
#[derive(Copy, Clone, Debug, PartialEq, Eq, Structural)]
pub enum DeribitInterval {
    /// Raw feed: every single event, no batching (requires authentication).
    Raw,
    /// Aggregated roughly every 100 ms (publicly available).
    HundredMs,
    /// Aggregated roughly every 2 seconds (where supported).
    Agg2,
}

/// The text suffix Deribit uses for an interval.
pub open spec fn interval_text(interval: DeribitInterval) -> Seq<char> {
    match interval {
        DeribitInterval::Raw => "raw"@,
        DeribitInterval::HundredMs => "100ms"@,
        DeribitInterval::Agg2 => "agg2"@,
    }
}

impl DeribitInterval {
    /// The interval used when none is configured: `HundredMs`.
    pub fn default() -> (r: Self)
        ensures
            r == DeribitInterval::HundredMs,
    {
        DeribitInterval::HundredMs
    }

    /// The channel suffix of this interval ("raw", "100ms" or "agg2").
    pub fn as_ref(&self) -> (r: &'static str)
        ensures
            r@ == interval_text(*self),
    {
        proof {
            reveal_strlit("raw");
            reveal_strlit("100ms");
            reveal_strlit("agg2");
        }
        match self {
            DeribitInterval::Raw => "raw",
            DeribitInterval::HundredMs => "100ms",
            DeribitInterval::Agg2 => "agg2",
        }
    }
}

/// A Deribit channel: its base name ("trades", "ticker" or "book") and interval.
#[derive(Clone, Debug, PartialEq, Eq)]
pub struct DeribitChannel {
    base: &'static str,
    interval: DeribitInterval,
}

impl DeribitChannel {
    /// The base name of the channel.
    pub closed spec fn spec_base(&self) -> Seq<char> {
        self.base@
    }

    /// The interval of the channel.
    pub closed spec fn spec_interval(&self) -> DeribitInterval {
        self.interval
    }

    /// The real-time trades channel at `interval`.
    pub fn trades(interval: DeribitInterval) -> (r: Self)
        ensures
            r.spec_base() == "trades"@,
            r.spec_interval() == interval,
    {
        DeribitChannel { base: "trades", interval }
    }

    /// The ticker (L1 book) channel at `interval`.
    pub fn ticker(interval: DeribitInterval) -> (r: Self)
        ensures
            r.spec_base() == "ticker"@,
            r.spec_interval() == interval,
    {
        DeribitChannel { base: "ticker", interval }
    }

    /// The order book (L2) channel at `interval`.
    pub fn book(interval: DeribitInterval) -> (r: Self)
        ensures
            r.spec_base() == "book"@,
            r.spec_interval() == interval,
    {
        DeribitChannel { base: "book", interval }
    }

    /// The trades channel at the 100 ms interval.
    pub fn trades_100ms() -> (r: Self)
        ensures
            r.spec_base() == "trades"@,
            r.spec_interval() == DeribitInterval::HundredMs,
    {
        Self::trades(DeribitInterval::HundredMs)
    }

    /// The ticker channel at the 100 ms interval.
    pub fn ticker_100ms() -> (r: Self)
        ensures
            r.spec_base() == "ticker"@,
            r.spec_interval() == DeribitInterval::HundredMs,
    {
        Self::ticker(DeribitInterval::HundredMs)
    }

    /// The order book channel at the 100 ms interval.
    pub fn book_100ms() -> (r: Self)
        ensures
            r.spec_base() == "book"@,
            r.spec_interval() == DeribitInterval::HundredMs,
    {
        Self::book(DeribitInterval::HundredMs)
    }

    /// The interval of this channel.
    pub fn interval(&self) -> (r: DeribitInterval)
        ensures
            r == self.spec_interval(),
    {
        self.interval
    }

    /// The base name of this channel (e.g. "trades").
    pub fn base(&self) -> (r: &'static str)
        ensures
            r@ == self.spec_base(),
    {
        self.base
    }

    /// The channel's text: its base name alone (the interval joins it only in the
    /// full subscription name).
    pub fn as_ref(&self) -> (r: &str)
        ensures
            r@ == self.spec_base(),
    {
        self.base
    }
}

/// The full name Deribit subscribes a channel under: "{base}.{market}.{interval}".
pub open spec fn channel_name_text(base: Seq<char>, market: Seq<char>, interval: DeribitInterval) -> Seq<char> {
    base + "."@ + market + "."@ + interval_text(interval)
}

/// The full subscription name of `channel` on `market`.
pub fn subscription_name(channel: &DeribitChannel, market: &str) -> (r: String)
    ensures
        r@ == channel_name_text(channel.spec_base(), market@, channel.spec_interval()),
{
    let mut r = String::from_str(channel.base());
    r.append(".");
    r.append(market);
    r.append(".");
    r.append(channel.interval().as_ref());
    r
}

} // verus!
