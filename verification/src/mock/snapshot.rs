//! Snapshots of a mock exchange account: balances, and orders grouped by instrument.
use super::account::AccountState;
use super::exchange::MockExchange;
use super::order::{AssetBalance, Cancelled, Open, Order};
use crate::exchange_id::ExchangeId;
use crate::text::{lemma_text_lt_order, text_less, text_lt};
use vstd::prelude::*;

verus! {

/// The state of an order in a snapshot: still open, or cancelled.
#[derive(Clone, Debug, PartialEq)]
pub enum OrderState {
    Open(Open),
    Cancelled(Cancelled),
}

/// The orders of one instrument.
#[derive(Clone, Debug, PartialEq)]
pub struct InstrumentAccountSnapshot {
    pub instrument: String,
    pub orders: Vec<Order<OrderState>>,
}

/// An account snapshot: balances, and orders grouped by instrument.
#[derive(Clone, Debug, PartialEq)]
pub struct AccountSnapshot {
    pub exchange: ExchangeId,
    pub balances: Vec<AssetBalance>,
    pub instruments: Vec<InstrumentAccountSnapshot>,
}

/// An open order as a snapshot order.
pub open spec fn open_entry(o: Order<Open>) -> Order<OrderState> {
    Order {
        key: o.key,
        side: o.side,
        price: o.price,
        quantity: o.quantity,
        kind: o.kind,
        time_in_force: o.time_in_force,
        state: OrderState::Open(o.state),
    }
}

/// A cancelled order as a snapshot order.
pub open spec fn cancelled_entry(o: Order<Cancelled>) -> Order<OrderState> {
    Order {
        key: o.key,
        side: o.side,
        price: o.price,
        quantity: o.quantity,
        kind: o.kind,
        time_in_force: o.time_in_force,
        state: OrderState::Cancelled(o.state),
    }
}

/// The open orders on instrument `name`, in order.
pub open spec fn open_on(s: Seq<Order<Open>>, name: Seq<char>) -> Seq<Order<Open>> {
    s.filter(|o: Order<Open>| o.key.instrument@ == name)
}

/// The cancelled orders on instrument `name`, in order.
pub open spec fn cancelled_on(s: Seq<Order<Cancelled>>, name: Seq<char>) -> Seq<Order<Cancelled>> {
    s.filter(|o: Order<Cancelled>| o.key.instrument@ == name)
}

/// The snapshot orders of instrument `name`: its open orders, then its cancelled ones.
pub open spec fn orders_on(acc: AccountState, name: Seq<char>) -> Seq<Order<OrderState>> {
    open_on(acc.orders_open@, name).map_values(|o: Order<Open>| open_entry(o)) + cancelled_on(
        acc.orders_cancelled@,
        name,
    ).map_values(|o: Order<Cancelled>| cancelled_entry(o))
}

/// Whether some open or cancelled order is on instrument `name`.
pub open spec fn has_orders_on(acc: AccountState, name: Seq<char>) -> bool {
    ||| exists|i: int| 0 <= i < acc.orders_open@.len() && acc.orders_open@[i].key.instrument@ == name
    ||| exists|i: int| 0 <= i < acc.orders_cancelled@.len() && acc.orders_cancelled@[i].key.instrument@ == name
}

/// Instrument names in strictly ascending order.
pub open spec fn names_sorted(s: Seq<String>) -> bool {
    forall|i: int, j: int| 0 <= i < j < s.len() ==> text_lt(s[i]@, s[j]@)
}

/// The texts of a sequence of strings, as a set.
pub open spec fn text_set(s: Seq<String>) -> Set<Seq<char>> {
    Set::new(|t: Seq<char>| exists|k: int| 0 <= k < s.len() && s[k]@ == t)
}

/// Appending a string adds its text to the set of texts.
proof fn lemma_text_set_push(s: Seq<String>, x: String)
    ensures
        text_set(s.push(x)) == text_set(s).insert(x@),
{
    assert forall|t: Seq<char>| text_set(s.push(x)).contains(t) implies text_set(s).insert(x@).contains(t) by {
        let k = choose|k: int| 0 <= k < s.push(x).len() && s.push(x)[k]@ == t;
        if k < s.len() {
            assert(s[k] == s.push(x)[k]);
        }
    }
    assert forall|t: Seq<char>| text_set(s).insert(x@).contains(t) implies text_set(s.push(x)).contains(t) by {
        if t == x@ {
            assert(s.push(x)[s.len() as int] == x);
        } else {
            let k = choose|k: int| 0 <= k < s.len() && s[k]@ == t;
            assert(s.push(x)[k] == s[k]);
        }
    }
    assert(text_set(s.push(x)) =~= text_set(s).insert(x@));
}

/// Inserts `name` into the strictly ascending `names` unless it is already there.
fn insert_sorted(names: &mut Vec<String>, name: &String)
    requires
        names_sorted(old(names)@),
    ensures
        names_sorted(final(names)@),
        text_set(final(names)@) == text_set(old(names)@).insert(name@),
{
    let mut j: usize = 0;
    while j < names.len() && text_less(names[j].as_str(), name.as_str())
        invariant
            j <= names.len(),
            names@ == old(names)@,
            forall|k: int| 0 <= k < j ==> text_lt(names@[k]@, name@),
        decreases names.len() - j,
    {
        j = j + 1;
    }
    let ghost before = names@;
    if j < names.len() && names[j] == *name {
        proof {
            assert(text_set(before).contains(name@));
            assert(text_set(before) =~= text_set(before).insert(name@));
        }
        return;
    }
    proof {
        if j < before.len() {
            lemma_text_lt_order(before[j as int]@, name@, name@);
            assert(text_lt(name@, before[j as int]@));
        }
    }
    names.insert(j, name.clone());
    proof {
        lemma_insert_sorted(before, j as int, names@[j as int]);
        let after = names@;
        assert(after =~= before.insert(j as int, after[j as int]));
        assert forall|t: Seq<char>| text_set(after).contains(t) implies text_set(before).insert(name@).contains(t) by {
            let k = choose|k: int| 0 <= k < after.len() && after[k]@ == t;
            if k < j {
                assert(before[k] == after[k]);
            } else if k > j {
                assert(before[k - 1] == after[k]);
            }
        }
        assert forall|t: Seq<char>| text_set(before).insert(name@).contains(t) implies text_set(after).contains(t) by {
            if t == name@ {
                assert(after[j as int]@ == name@);
            } else {
                let i = choose|i: int| 0 <= i < before.len() && before[i]@ == t;
                if i < j {
                    assert(after[i] == before[i]);
                } else {
                    assert(after[i + 1] == before[i]);
                }
            }
        }
        assert(text_set(after) =~= text_set(before).insert(name@));
    }
}

/// Inserting a name at the place where everything before is smaller and everything
/// after is larger keeps names strictly ascending.
proof fn lemma_insert_sorted(before: Seq<String>, j: int, name: String)
    requires
        names_sorted(before),
        0 <= j <= before.len(),
        forall|k: int| 0 <= k < j ==> text_lt(before[k]@, name@),
        j < before.len() ==> text_lt(name@, before[j]@),
    ensures
        names_sorted(before.insert(j, name)),
{
    let after = before.insert(j, name);
    assert forall|a: int, b: int| 0 <= a < b < after.len() implies text_lt(after[a]@, after[b]@) by {
        if b < j {
            assert(after[a] == before[a] && after[b] == before[b]);
        } else if b == j {
            assert(after[a] == before[a]);
        } else if a == j {
            assert(after[b] == before[b - 1]);
            if b - 1 > j {
                assert(text_lt(before[j]@, before[b - 1]@));
                lemma_text_lt_order(name@, before[j]@, before[b - 1]@);
            }
        } else if a < j {
            assert(after[a] == before[a] && after[b] == before[b - 1]);
            if b - 1 > j {
                assert(text_lt(before[j]@, before[b - 1]@));
                lemma_text_lt_order(name@, before[j]@, before[b - 1]@);
            }
            lemma_text_lt_order(before[a]@, name@, before[b - 1]@);
        } else {
            assert(after[a] == before[a - 1] && after[b] == before[b - 1]);
        }
    }
}

/// The snapshot orders of instrument `name` (see `orders_on`).
fn orders_for(acc: &AccountState, name: &String) -> (r: Vec<Order<OrderState>>)
    ensures
        r@ == orders_on(*acc, name@),
{
    let mut r: Vec<Order<OrderState>> = Vec::new();
    let mut i: usize = 0;
    while i < acc.orders_open.len()
        invariant
            i <= acc.orders_open.len(),
            r@ == open_on(acc.orders_open@.take(i as int), name@).map_values(|o: Order<Open>| open_entry(o)),
        decreases acc.orders_open.len() - i,
    {
        let o = &acc.orders_open[i];
        proof {
            reveal_with_fuel(Seq::filter, 1);
            assert(acc.orders_open@.take(i as int + 1).drop_last() =~= acc.orders_open@.take(i as int));
        }
        if o.key.instrument == *name {
            let e = Order {
                key: o.key.copy(),
                side: o.side,
                price: o.price,
                quantity: o.quantity,
                kind: o.kind,
                time_in_force: o.time_in_force,
                state: OrderState::Open(
                    Open { id: o.state.id.clone(), time_exchange: o.state.time_exchange, filled_quantity: o.state.filled_quantity },
                ),
            };
            proof {
                let f = |o: Order<Open>| open_entry(o);
                let prev = open_on(acc.orders_open@.take(i as int), name@);
                assert(prev.push(*o).map_values(f) =~= prev.map_values(f).push(f(*o)));
            }
            r.push(e);
        }
        i = i + 1;
    }
    proof {
        assert(acc.orders_open@.take(acc.orders_open.len() as int) =~= acc.orders_open@);
    }
    let ghost head = r@;
    let mut j: usize = 0;
    while j < acc.orders_cancelled.len()
        invariant
            j <= acc.orders_cancelled.len(),
            head == open_on(acc.orders_open@, name@).map_values(|o: Order<Open>| open_entry(o)),
            r@ == head + cancelled_on(acc.orders_cancelled@.take(j as int), name@).map_values(
                |o: Order<Cancelled>| cancelled_entry(o),
            ),
        decreases acc.orders_cancelled.len() - j,
    {
        let o = &acc.orders_cancelled[j];
        proof {
            reveal_with_fuel(Seq::filter, 1);
            assert(acc.orders_cancelled@.take(j as int + 1).drop_last() =~= acc.orders_cancelled@.take(j as int));
        }
        if o.key.instrument == *name {
            let e = Order {
                key: o.key.copy(),
                side: o.side,
                price: o.price,
                quantity: o.quantity,
                kind: o.kind,
                time_in_force: o.time_in_force,
                state: OrderState::Cancelled(Cancelled { id: o.state.id.clone(), time_exchange: o.state.time_exchange }),
            };
            proof {
                let f = |o: Order<Cancelled>| cancelled_entry(o);
                let prev = cancelled_on(acc.orders_cancelled@.take(j as int), name@);
                assert(prev.push(*o).map_values(f) =~= prev.map_values(f).push(f(*o)));
                assert(head + prev.map_values(f).push(f(*o)) =~= (head + prev.map_values(f)).push(f(*o)));
            }
            r.push(e);
        }
        j = j + 1;
    }
    proof {
        assert(acc.orders_cancelled@.take(acc.orders_cancelled.len() as int) =~= acc.orders_cancelled@);
    }
    r
}

/// The distinct texts of `all`, strictly ascending.
fn sorted_distinct(all: &Vec<String>) -> (r: Vec<String>)
    ensures
        names_sorted(r@),
        text_set(r@) == text_set(all@),
{
    let mut r: Vec<String> = Vec::new();
    let mut i: usize = 0;
    proof {
        assert(text_set(r@) =~= text_set(all@.take(0)));
    }
    while i < all.len()
        invariant
            i <= all.len(),
            names_sorted(r@),
            text_set(r@) == text_set(all@.take(i as int)),
        decreases all.len() - i,
    {
        insert_sorted(&mut r, &all[i]);
        proof {
            assert(all@.take(i as int + 1) =~= all@.take(i as int).push(all@[i as int]));
            lemma_text_set_push(all@.take(i as int), all@[i as int]);
        }
        i = i + 1;
    }
    proof {
        assert(all@.take(all.len() as int) =~= all@);
    }
    r
}

/// The instruments of the account's open orders, then of its cancelled orders.
fn all_order_instruments(acc: &AccountState) -> (r: Vec<String>)
    ensures
        r@.len() == acc.orders_open@.len() + acc.orders_cancelled@.len(),
        forall|x: int| 0 <= x < acc.orders_open@.len() ==> (#[trigger] r@[x])@ == acc.orders_open@[x].key.instrument@,
        forall|x: int| acc.orders_open@.len() <= x < r@.len() ==> (#[trigger] r@[x])@
            == acc.orders_cancelled@[x - acc.orders_open@.len()].key.instrument@,
{
    let mut r: Vec<String> = Vec::new();
    let mut i: usize = 0;
    while i < acc.orders_open.len()
        invariant
            i <= acc.orders_open.len(),
            r@.len() == i,
            forall|x: int| 0 <= x < i ==> (#[trigger] r@[x])@ == acc.orders_open@[x].key.instrument@,
        decreases acc.orders_open.len() - i,
    {
        r.push(acc.orders_open[i].key.instrument.clone());
        i = i + 1;
    }
    let mut c: usize = 0;
    while c < acc.orders_cancelled.len()
        invariant
            c <= acc.orders_cancelled.len(),
            r@.len() == acc.orders_open@.len() + c,
            forall|x: int| 0 <= x < acc.orders_open@.len() ==> (#[trigger] r@[x])@ == acc.orders_open@[x].key.instrument@,
            forall|x: int| acc.orders_open@.len() <= x < r@.len() ==> (#[trigger] r@[x])@
                == acc.orders_cancelled@[x - acc.orders_open@.len()].key.instrument@,
        decreases acc.orders_cancelled.len() - c,
    {
        r.push(acc.orders_cancelled[c].key.instrument.clone());
        c = c + 1;
    }
    r
}

/// The instruments that orders of the account are on, strictly ascending.
fn order_instruments(acc: &AccountState) -> (r: Vec<String>)
    ensures
        names_sorted(r@),
        forall|k: int| 0 <= k < r@.len() ==> has_orders_on(*acc, (#[trigger] r@[k])@),
        forall|n: Seq<char>| has_orders_on(*acc, n) ==> exists|k: int| 0 <= k < r@.len() && (#[trigger] r@[k])@ == n,
{
    let all = all_order_instruments(acc);
    let r = sorted_distinct(&all);
    proof {
        let no = acc.orders_open@.len();
        assert forall|k: int| 0 <= k < r@.len() implies has_orders_on(*acc, (#[trigger] r@[k])@) by {
            assert(text_set(r@).contains(r@[k]@));
            assert(text_set(all@).contains(r@[k]@));
            let x = choose|x: int| 0 <= x < all@.len() && all@[x]@ == r@[k]@;
            if x < no {
                assert(acc.orders_open@[x].key.instrument@ == r@[k]@);
            } else {
                assert(acc.orders_cancelled@[x - no].key.instrument@ == r@[k]@);
            }
        }
        assert forall|n: Seq<char>| has_orders_on(*acc, n) implies exists|k: int| 0 <= k < r@.len() && (#[trigger] r@[k])@ == n by {
            if exists|i: int| 0 <= i < acc.orders_open@.len() && acc.orders_open@[i].key.instrument@ == n {
                let i = choose|i: int| 0 <= i < acc.orders_open@.len() && acc.orders_open@[i].key.instrument@ == n;
                assert(all@[i]@ == n);
                assert(text_set(all@).contains(n));
            } else {
                let i = choose|i: int| 0 <= i < acc.orders_cancelled@.len() && acc.orders_cancelled@[i].key.instrument@ == n;
                assert(all@[no + i]@ == n);
                assert(text_set(all@).contains(n));
            }
            assert(text_set(r@).contains(n));
        }
    }
    r
}

/// `r` is a snapshot of the account of `ex`: its balances, and its orders grouped
/// by instrument, instruments strictly ascending, each listing the instrument's
/// open orders and then its cancelled ones; every instrument with orders appears.
pub open spec fn snapshot_of(ex: MockExchange, r: AccountSnapshot) -> bool {
    &&& r.exchange == ex.exchange
    &&& r.balances@ == ex.account.balances@
    &&& forall|a: int, b: int| 0 <= a < b < r.instruments@.len() ==> text_lt(
        r.instruments@[a].instrument@,
        r.instruments@[b].instrument@,
    )
    &&& forall|k: int| 0 <= k < r.instruments@.len() ==> has_orders_on(ex.account, (#[trigger] r.instruments@[k]).instrument@)
        && r.instruments@[k].orders@ == orders_on(ex.account, r.instruments@[k].instrument@)
    &&& forall|n: Seq<char>| has_orders_on(ex.account, n) ==> exists|k: int| 0 <= k < r.instruments@.len() && (#[trigger] r.instruments@[k]).instrument@ == n
}

impl MockExchange {
    /// A snapshot of the account: its balances, and its open and cancelled orders
    /// grouped by instrument, instruments in ascending order; each group lists the
    /// instrument's open orders, then its cancelled ones.
    pub fn account_snapshot(&self) -> (r: AccountSnapshot)
        ensures
            snapshot_of(*self, r),
    {
        let mut balances: Vec<AssetBalance> = Vec::new();
        let mut i: usize = 0;
        while i < self.account.balances.len()
            invariant
                i <= self.account.balances.len(),
                balances@ == self.account.balances@.take(i as int),
            decreases self.account.balances.len() - i,
        {
            balances.push(self.account.balances[i].copy());
            proof {
                assert(self.account.balances@.take(i as int + 1) =~= self.account.balances@.take(i as int).push(self.account.balances@[i as int]));
            }
            i = i + 1;
        }
        proof {
            assert(self.account.balances@.take(self.account.balances.len() as int) =~= self.account.balances@);
        }
        let names = order_instruments(&self.account);
        let mut instruments: Vec<InstrumentAccountSnapshot> = Vec::new();
        let mut k: usize = 0;
        while k < names.len()
            invariant
                k <= names.len(),
                instruments@.len() == k,
                forall|j: int| 0 <= j < k ==> (#[trigger] instruments@[j]).instrument == names@[j]
                    && instruments@[j].orders@ == orders_on(self.account, names@[j]@),
            decreases names.len() - k,
        {
            let orders = orders_for(&self.account, &names[k]);
            instruments.push(InstrumentAccountSnapshot { instrument: names[k].clone(), orders });
            k = k + 1;
        }
        let r = AccountSnapshot { exchange: self.exchange, balances, instruments };
        proof {
            assert forall|n: Seq<char>| has_orders_on(self.account, n) implies exists|j: int| 0 <= j < r.instruments@.len() && (#[trigger] r.instruments@[j]).instrument@ == n by {
                let j = choose|j: int| 0 <= j < names@.len() && (#[trigger] names@[j])@ == n;
                assert(r.instruments@[j].instrument == names@[j]);
            }
            assert forall|a: int, b: int| 0 <= a < b < r.instruments@.len() implies text_lt(
                r.instruments@[a].instrument@,
                r.instruments@[b].instrument@,
            ) by {
                assert(r.instruments@[a].instrument == names@[a]);
                assert(r.instruments@[b].instrument == names@[b]);
            }
            assert forall|j: int| 0 <= j < r.instruments@.len() implies has_orders_on(self.account, (#[trigger] r.instruments@[j]).instrument@)
                && r.instruments@[j].orders@ == orders_on(self.account, r.instruments@[j].instrument@) by {
                assert(r.instruments@[j].instrument == names@[j]);
            }
        }
        r
    }
}

} // verus!
