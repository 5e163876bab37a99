//! Deribit WebSocket messages: telling RPC replies from subscription data, and
//! reading the subscription a channel name stands for.
use crate::sequencer::Identifier;
use barter_integration::subscription::SubscriptionId;
use vstd::prelude::*;
use vstd::string::StringSliceAdditionalSpecFns;
use super::channel::{channel_name_text, interval_text, DeribitInterval};

verus! {

#[verifier::external_type_specification]
#[verifier::external_body]
pub struct ExSubscriptionId(SubscriptionId);

/// `Clone` of `SubscriptionId`, derived over its one `SmolStr` field: the copy
/// holds the same text.
pub assume_specification[ <SubscriptionId as Clone>::clone ](a: &SubscriptionId) -> (r: SubscriptionId)
    ensures
        r == *a,
;

/// The subscription id that `SubscriptionId::from` makes of a text.
pub uninterp spec fn subscription_id_from(text: Seq<char>) -> SubscriptionId;

/// Whether two subscription ids are equal by `SubscriptionId`'s derived `PartialEq`.
pub uninterp spec fn subscription_ids_equal(a: SubscriptionId, b: SubscriptionId) -> bool;

/// `SubscriptionId::from(text)`: the id wrapping the text. As the derived
/// `PartialEq` compares the wrapped texts, it equals the id of another text exactly
/// when the two texts agree.
#[verifier::external_body]
pub(crate) fn subscription_id(text: &str) -> (r: SubscriptionId)
    ensures
        r == subscription_id_from(text@),
        forall|t: Seq<char>| #[trigger] subscription_ids_equal(r, subscription_id_from(t)) == (t == text@),
        forall|t: Seq<char>| #[trigger] subscription_ids_equal(subscription_id_from(t), r) == (t == text@),
{
    SubscriptionId::from(text)
}

/// `==` of `SubscriptionId`, derived over its `SmolStr` (which compares the
/// texts): in particular every id equals itself.
#[verifier::external_body]
pub(crate) fn sub_id_eq(a: &SubscriptionId, b: &SubscriptionId) -> (r: bool)
    ensures
        r == subscription_ids_equal(*a, *b),
        *a == *b ==> r,
{
    a == b
}

/// Whether the byte string `n` occurs in `h` at position `i`.
pub open spec fn bytes_at(h: Seq<u8>, n: Seq<u8>, i: int) -> bool {
    0 <= i && i + n.len() <= h.len() && h.subrange(i, i + n.len()) == n
}

/// Whether the byte string `n` occurs anywhere in `h`.
pub open spec fn bytes_contain(h: Seq<u8>, n: Seq<u8>) -> bool {
    exists|i: int| bytes_at(h, n, i)
}

/// Whether `needle` occurs in `text`, compared byte by byte as `str::contains` does.
pub fn text_contains(text: &str, needle: &str) -> (r: bool)
    ensures
        r == bytes_contain(text.spec_bytes(), needle.spec_bytes()),
{
    let h = text.as_bytes();
    let n = needle.as_bytes();
    let hl = h.len();
    let nl = n.len();
    if nl > hl {
        proof {
            assert forall|i: int| !bytes_at(h@, n@, i) by {}
        }
        return false;
    }
    let last = hl - nl;
    let mut i: usize = 0;
    while i <= last
        invariant
            h@ == text.spec_bytes(),
            n@ == needle.spec_bytes(),
            hl == h@.len(),
            nl == n@.len(),
            last == h@.len() - n@.len(),
            i <= last + 1,
            forall|j: int| 0 <= j < i ==> !bytes_at(h@, n@, j),
        decreases last + 1 - i,
    {
        let mut k: usize = 0;
        while k < nl
            invariant
                hl == h@.len(),
                nl == n@.len(),
                i <= last,
                last == h@.len() - n@.len(),
                i + n@.len() <= h@.len(),
                k <= n@.len(),
                forall|m: int| 0 <= m < k ==> h@[i + m] == n@[m],
            ensures
                k <= nl,
                forall|m: int| 0 <= m < k ==> h@[i + m] == n@[m],
                k < nl ==> h@[i + k] != n@[k as int],
            decreases nl - k,
        {
            let x = i + k;
            if h[x] != n[k] {
                break;
            }
            k = k + 1;
        }
        if k == nl {
            proof {
                assert(h@.subrange(i as int, i + n@.len()) =~= n@);
                assert(bytes_at(h@, n@, i as int));
            }
            return true;
        }
        proof {
            assert(h@.subrange(i as int, i + n@.len())[k as int] != n@[k as int]);
        }
        i = i + 1;
    }
    proof {
        assert forall|j: int| !bytes_at(h@, n@, j) by {
            if 0 <= j < i {
            }
        }
    }
    false
}

/// Whether a Deribit message is an RPC reply (such as a ping reply or a
/// subscription acknowledgement) rather than subscription data: its text holds
/// `"result"` and does not hold `"params"`.
pub fn is_rpc_response(text: &str) -> (r: bool)
    ensures
        r == (bytes_contain(text.spec_bytes(), "\"result\"".spec_bytes()) && !bytes_contain(
            text.spec_bytes(),
            "\"params\"".spec_bytes(),
        )),
{
    if !text_contains(text, "\"result\"") {
        return false;
    }
    !text_contains(text, "\"params\"")
}

/// The position of the first `c` in `s`, or `s.len()` where there is none.
pub open spec fn char_pos(s: Seq<char>, c: char) -> int
    decreases s.len(),
{
    if s.len() == 0 {
        0
    } else if s[0] == c {
        0
    } else {
        1 + char_pos(s.drop_first(), c)
    }
}

proof fn lemma_char_pos_bounds(s: Seq<char>, c: char)
    ensures
        0 <= char_pos(s, c) <= s.len(),
        char_pos(s, c) < s.len() ==> s[char_pos(s, c)] == c,
        forall|j: int| 0 <= j < char_pos(s, c) ==> s[j] != c,
    decreases s.len(),
{
    if s.len() > 0 && s[0] != c {
        lemma_char_pos_bounds(s.drop_first(), c);
        assert forall|j: int| 0 <= j < char_pos(s, c) implies s[j] != c by {
            if j > 0 {
                assert(s[j] == s.drop_first()[j - 1]);
            }
        }
    }
}

/// The position of the first `c` in `s`, or its length where there is none.
fn find_char(s: &str, c: char) -> (r: usize)
    ensures
        r == char_pos(s@, c),
        r <= s@.len(),
{
    let n = s.unicode_len();
    let mut i: usize = 0;
    proof {
        assert(s@.skip(0) =~= s@);
    }
    while i < n && s.get_char(i) != c
        invariant
            n == s@.len(),
            i <= n,
            char_pos(s@, c) == i + char_pos(s@.skip(i as int), c),
        decreases n - i,
    {
        proof {
            assert(s@.skip(i as int).drop_first() =~= s@.skip(i as int + 1));
        }
        i = i + 1;
    }
    i
}

/// The subscription name a Deribit channel "{base}.{market}[.{interval}]" stands
/// for: "{base}|{market}", where `base` runs to the first '.' and `market` from
/// there to the next '.' or the end; `None` where the channel holds no '.'.
pub open spec fn channel_subscription(channel: Seq<char>) -> Option<Seq<char>> {
    let p = char_pos(channel, '.');
    if p >= channel.len() {
        None
    } else {
        let rest = channel.skip(p + 1);
        Some(channel.take(p) + "|"@ + rest.take(char_pos(rest, '.')))
    }
}

/// The message for a channel without a '.'.
pub open spec fn invalid_channel_msg(channel: Seq<char>) -> Seq<char> {
    "Invalid Deribit channel format: "@ + channel
}

/// Parses a Deribit channel (e.g. "trades.BTC-PERPETUAL.100ms") into the
/// subscription id of its base and market (e.g. "trades|BTC-PERPETUAL").
pub fn parse_deribit_channel(channel: &str) -> (r: Result<SubscriptionId, String>)
    ensures
        channel_subscription(channel@) is None ==> r == Err::<SubscriptionId, String>(r->Err_0) && r->Err_0@
            == invalid_channel_msg(channel@),
        channel_subscription(channel@) matches Some(text) ==> r == Ok::<SubscriptionId, String>(
            subscription_id_from(text),
        ),
{
    match subscription_text(channel) {
        Some(text) => Ok(subscription_id(text.as_str())),
        None => {
            let mut m = String::from_str("Invalid Deribit channel format: ");
            m.append(channel);
            Err(m)
        },
    }
}

/// The subscription name of a Deribit channel (see `channel_subscription`).
pub fn subscription_text(channel: &str) -> (r: Option<String>)
    ensures
        r matches Some(t) ==> channel_subscription(channel@) == Some(t@),
        r is None ==> channel_subscription(channel@) is None,
{
    proof {
        lemma_char_pos_bounds(channel@, '.');
    }
    let p = find_char(channel, '.');
    let n = channel.unicode_len();
    if p >= n {
        return None;
    }
    let base = channel.substring_char(0, p);
    let rest = channel.substring_char(p + 1, n);
    proof {
        lemma_char_pos_bounds(rest@, '.');
    }
    let q = find_char(rest, '.');
    let market = rest.substring_char(0, q);
    let mut t = String::from_str(base);
    t.append("|");
    t.append(market);
    proof {
        assert(base@ =~= channel@.take(p as int));
        assert(rest@ =~= channel@.skip(p as int + 1));
        assert(market@ =~= rest@.take(q as int));
    }
    Some(t)
}

/// A Deribit subscription message: the subscription it belongs to and its data.
#[derive(Clone, Debug, PartialEq)]
pub struct DeribitMessage<T> {
    pub subscription_id: SubscriptionId,
    pub data: T,
}

impl<T> DeribitMessage<T> {
    /// The message of `data` received on `channel`; the channel's error where it
    /// holds no '.'.
    pub fn from_channel(channel: &str, data: T) -> (r: Result<Self, String>)
        ensures
            channel_subscription(channel@) is None ==> r is Err && r->Err_0@ == invalid_channel_msg(channel@),
            channel_subscription(channel@) matches Some(text) ==> r is Ok && r->Ok_0.subscription_id
                == subscription_id_from(text) && r->Ok_0.data == data,
    {
        match parse_deribit_channel(channel) {
            Ok(subscription_id) => Ok(DeribitMessage { subscription_id, data }),
            Err(e) => Err(e),
        }
    }
}

impl<T> Identifier<Option<SubscriptionId>> for DeribitMessage<T> {
    open spec fn spec_id(&self) -> Option<SubscriptionId> {
        Some(self.subscription_id)
    }

    /// The subscription the message belongs to.
    fn id(&self) -> (r: Option<SubscriptionId>) {
        Some(self.subscription_id.clone())
    }
}

/// The stream parser of Deribit messages: it skips RPC replies (see
/// `is_rpc_response`) and parses every other text message.
#[derive(Copy, Clone, Debug, PartialEq, Eq, Structural)]
pub struct DeribitParser;

impl DeribitParser {
    /// Whether a text message is skipped rather than parsed: exactly the RPC replies.
    pub fn skips_text(text: &str) -> (r: bool)
        ensures
            r == (bytes_contain(text.spec_bytes(), "\"result\"".spec_bytes()) && !bytes_contain(
                text.spec_bytes(),
                "\"params\"".spec_bytes(),
            )),
    {
        is_rpc_response(text)
    }
}

/// Where `a` holds no `c`, the first `c` of `a + b` is the first `c` of `b`,
/// shifted by `a`'s length.
proof fn lemma_char_pos_concat(a: Seq<char>, b: Seq<char>, c: char)
    requires
        !a.contains(c),
    ensures
        char_pos(a + b, c) == a.len() + char_pos(b, c),
    decreases a.len(),
{
    if a.len() > 0 {
        assert(a[0] != c) by {
            if a[0] == c {
                assert(a.contains(c));
            }
        }
        assert((a + b)[0] == a[0]);
        assert((a + b).drop_first() =~= a.drop_first() + b);
        assert(!a.drop_first().contains(c)) by {
            if a.drop_first().contains(c) {
                let i = choose|i: int| 0 <= i < a.drop_first().len() && a.drop_first()[i] == c;
                assert(a[i + 1] == c);
            }
        }
        lemma_char_pos_concat(a.drop_first(), b, c);
    } else {
        assert(a + b =~= b);
    }
}

/// Law: the channel Deribit sends data on, "{base}.{market}.{interval}", is read
/// back as the subscription "{base}|{market}" it was subscribed under, for any
/// base and market without a '.'.
pub proof fn law_channel_round_trip(base: Seq<char>, market: Seq<char>, interval: DeribitInterval)
    requires
        !base.contains('.'),
        !market.contains('.'),
    ensures
        channel_subscription(channel_name_text(base, market, interval)) == Some(base + "|"@ + market),
{
    reveal_strlit(".");
    let ch = channel_name_text(base, market, interval);
    let tail = "."@ + market + "."@ + interval_text(interval);
    assert(ch =~= base + tail);
    lemma_char_pos_concat(base, tail, '.');
    assert(tail[0] == '.');
    assert(char_pos(tail, '.') == 0);
    let p = base.len() as int;
    assert(ch[p] == '.');
    let rest = ch.skip(p + 1);
    let itail = "."@ + interval_text(interval);
    assert(rest =~= market + itail);
    lemma_char_pos_concat(market, itail, '.');
    assert(itail[0] == '.');
    assert(char_pos(itail, '.') == 0);
    assert(ch.take(p) =~= base);
    assert(rest.take(market.len() as int) =~= market);
}

} // verus!
