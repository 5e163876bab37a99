//! Decimal rendering of unsigned integers.
use vstd::prelude::*;

verus! {

/// The ten decimal digit characters, in order.
pub open spec fn digit_chars() -> Seq<char> {
    seq!['0', '1', '2', '3', '4', '5', '6', '7', '8', '9']
}

/// The decimal text of a natural number, without sign or leading zeros.
pub open spec fn decimal_text(n: nat) -> Seq<char>
    decreases n,
{
    if n < 10 {
        seq![digit_chars()[n as int]]
    } else {
        decimal_text(n / 10).push(digit_chars()[(n % 10) as int])
    }
}

/// A decimal text has one character below ten and more from ten on.
proof fn lemma_decimal_text_len(n: nat)
    ensures
        n < 10 ==> decimal_text(n).len() == 1,
        n >= 10 ==> decimal_text(n).len() >= 2,
    decreases n,
{
    if n >= 10 {
        lemma_decimal_text_len(n / 10);
    }
}

/// Law: distinct numbers have distinct decimal texts, so the order numbers a
/// mock exchange hands out in sequence never repeat an id.
pub proof fn law_decimal_text_injective(a: nat, b: nat)
    requires
        a != b,
    ensures
        decimal_text(a) != decimal_text(b),
    decreases a,
{
    lemma_decimal_text_len(a);
    lemma_decimal_text_len(b);
    if a >= 10 && b >= 10 {
        if a / 10 != b / 10 {
            law_decimal_text_injective(a / 10, b / 10);
            if decimal_text(a) == decimal_text(b) {
                assert(decimal_text(a).drop_last() =~= decimal_text(a / 10));
                assert(decimal_text(b).drop_last() =~= decimal_text(b / 10));
            }
        } else {
            assert(a % 10 != b % 10);
            if decimal_text(a) == decimal_text(b) {
                assert(decimal_text(a).last() == digit_chars()[(a % 10) as int]);
                assert(decimal_text(b).last() == digit_chars()[(b % 10) as int]);
            }
        }
    } else if a < 10 && b < 10 {
        if decimal_text(a) == decimal_text(b) {
            assert(decimal_text(a)[0] == digit_chars()[a as int]);
            assert(decimal_text(b)[0] == digit_chars()[b as int]);
        }
    }
}

/// The one-character text of a decimal digit.
fn digit_text(d: u64) -> (r: &'static str)
    requires
        d < 10,
    ensures
        r@ == seq![digit_chars()[d as int]],
{
    proof {
        reveal_strlit("0123456789");
    }
    let all: &'static str = "0123456789";
    let r = all.substring_ascii(d as usize, (d + 1) as usize);
    proof {
        assert(r@ =~= seq![digit_chars()[d as int]]);
    }
    r
}

/// The decimal text of `n`, as `u64`'s `Display` writes it.
pub fn u64_text(n: u64) -> (r: String)
    ensures
        r@ == decimal_text(n as nat),
    decreases n,
{
    if n < 10 {
        String::from_str(digit_text(n))
    } else {
        let mut s = u64_text(n / 10);
        s.append(digit_text(n % 10));
        s
    }
}

/// Whether `a` orders before `b` in the order of `String`: lexicographic by
/// character code point, a proper prefix first.
pub open spec fn text_lt(a: Seq<char>, b: Seq<char>) -> bool
    decreases a.len(),
{
    if b.len() == 0 {
        false
    } else if a.len() == 0 {
        true
    } else if (a[0] as int) < (b[0] as int) {
        true
    } else if (a[0] as int) > (b[0] as int) {
        false
    } else {
        text_lt(a.drop_first(), b.drop_first())
    }
}

/// `text_lt` is irreflexive and asymmetric, transitive, and total on distinct texts.
pub proof fn lemma_text_lt_order(a: Seq<char>, b: Seq<char>, c: Seq<char>)
    ensures
        !text_lt(a, a),
        text_lt(a, b) ==> !text_lt(b, a),
        text_lt(a, b) && text_lt(b, c) ==> text_lt(a, c),
        a != b ==> text_lt(a, b) || text_lt(b, a),
    decreases a.len(),
{
    if a.len() > 0 && b.len() > 0 && c.len() > 0 {
        lemma_text_lt_order(a.drop_first(), b.drop_first(), c.drop_first());
    }
    if a.len() > 0 {
        lemma_text_lt_order(a.drop_first(), a.drop_first(), a.drop_first());
    }
    if a.len() > 0 && b.len() > 0 {
        lemma_text_lt_order(a.drop_first(), b.drop_first(), b.drop_first());
        if a != b && (a[0] as int) == (b[0] as int) {
            if a.drop_first() == b.drop_first() {
                assert(a =~= seq![a[0]] + a.drop_first());
                assert(b =~= seq![b[0]] + b.drop_first());
            }
        }
    }
    if a.len() == 0 && b.len() == 0 {
        assert(a =~= b);
    }
}

/// Whether `a` orders before `b` as `String`s do.
pub fn text_less(a: &str, b: &str) -> (r: bool)
    ensures
        r == text_lt(a@, b@),
{
    let n = a.unicode_len();
    let m = b.unicode_len();
    let mut i: usize = 0;
    proof {
        assert(a@.skip(0) =~= a@);
        assert(b@.skip(0) =~= b@);
    }
    while i < n && i < m
        invariant
            n == a@.len(),
            m == b@.len(),
            i <= n,
            i <= m,
            a@.subrange(0, i as int) == b@.subrange(0, i as int),
            text_lt(a@, b@) == text_lt(a@.skip(i as int), b@.skip(i as int)),
        decreases n - i,
    {
        let x = a.get_char(i);
        let y = b.get_char(i);
        if x < y {
            return true;
        }
        if x > y {
            return false;
        }
        proof {
            assert(a@.skip(i as int).drop_first() =~= a@.skip(i as int + 1));
            assert(b@.skip(i as int).drop_first() =~= b@.skip(i as int + 1));
            assert(a@.subrange(0, i as int + 1) =~= a@.subrange(0, i as int).push(x));
            assert(b@.subrange(0, i as int + 1) =~= b@.subrange(0, i as int).push(y));
        }
        i = i + 1;
    }
    i < m
}

} // verus!
