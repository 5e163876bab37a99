//! The account a mock exchange keeps: balances, positions, orders and trades.
use super::order::{AssetBalance, Cancelled, Open, Order, Trade};
use crate::keyed::{lemma_unique_push, lemma_unique_update, unique_by};
use crate::side::Side;
use crate::time::{spec_at_or_before, Timestamp};
use rust_decimal::Decimal;
use vstd::prelude::*;

verus! {

/// An open position on a perpetual instrument.
#[derive(Copy, Clone, Debug, PartialEq)]
pub struct MockPosition {
    pub side: Side,
    pub quantity_abs: Decimal,
    pub entry_price: Decimal,
}

/// The position held on one instrument.
#[derive(Clone, Debug, PartialEq)]
pub struct PositionEntry {
    pub instrument: String,
    pub position: MockPosition,
}

/// Balances (one per asset), positions (one per instrument), orders and trades.
#[derive(Clone, Debug, PartialEq)]
pub struct AccountState {
    pub balances: Vec<AssetBalance>,
    pub positions: Vec<PositionEntry>,
    pub orders_open: Vec<Order<Open>>,
    pub orders_cancelled: Vec<Order<Cancelled>>,
    pub trades: Vec<Trade>,
}

/// No asset has two balances.
pub open spec fn balance_assets_unique(s: Seq<AssetBalance>) -> bool {
    unique_by(s, |b: AssetBalance| b.asset@)
}

/// No instrument has two positions.
pub open spec fn position_instruments_unique(s: Seq<PositionEntry>) -> bool {
    unique_by(s, |p: PositionEntry| p.instrument@)
}

/// Where assets are unique, the balance found under `asset` at `i` is the one `balance_index` names.
pub proof fn lemma_balance_index(s: Seq<AssetBalance>, asset: Seq<char>, i: int)
    requires
        balance_assets_unique(s),
        0 <= i < s.len(),
        s[i].asset@ == asset,
    ensures
        has_balance(s, asset),
        balance_index(s, asset) == i,
{
    let c = balance_index(s, asset);
    assert(0 <= c < s.len() && s[c].asset@ == asset);
    if c < i {
        assert((|b: AssetBalance| b.asset@)(s[c]) != (|b: AssetBalance| b.asset@)(s[i]));
    } else if c > i {
        assert((|b: AssetBalance| b.asset@)(s[i]) != (|b: AssetBalance| b.asset@)(s[c]));
    }
}

/// Where instruments are unique, the position found under `name` at `i` is the one `position_index` names.
pub proof fn lemma_position_index(s: Seq<PositionEntry>, name: Seq<char>, i: int)
    requires
        position_instruments_unique(s),
        0 <= i < s.len(),
        s[i].instrument@ == name,
    ensures
        has_position(s, name),
        position_index(s, name) == i,
{
    let c = position_index(s, name);
    assert(0 <= c < s.len() && s[c].instrument@ == name);
    if c < i {
        assert((|p: PositionEntry| p.instrument@)(s[c]) != (|p: PositionEntry| p.instrument@)(s[i]));
    } else if c > i {
        assert((|p: PositionEntry| p.instrument@)(s[i]) != (|p: PositionEntry| p.instrument@)(s[c]));
    }
}

/// Whether some balance is held of `asset`.
pub open spec fn has_balance(s: Seq<AssetBalance>, asset: Seq<char>) -> bool {
    exists|i: int| 0 <= i < s.len() && s[i].asset@ == asset
}

/// The index of the balance of `asset` (meaningful where `has_balance`).
pub open spec fn balance_index(s: Seq<AssetBalance>, asset: Seq<char>) -> int {
    choose|i: int| 0 <= i < s.len() && s[i].asset@ == asset
}

/// Whether a position is held on `instrument`.
pub open spec fn has_position(s: Seq<PositionEntry>, instrument: Seq<char>) -> bool {
    exists|i: int| 0 <= i < s.len() && s[i].instrument@ == instrument
}

/// The index of the position on `instrument` (meaningful where `has_position`).
pub open spec fn position_index(s: Seq<PositionEntry>, instrument: Seq<char>) -> int {
    choose|i: int| 0 <= i < s.len() && s[i].instrument@ == instrument
}

/// The trades of `s` at or after `since`, in order.
pub open spec fn trades_since_spec(s: Seq<Trade>, since: Timestamp) -> Seq<Trade> {
    s.filter(|t: Trade| spec_at_or_before(since, t.time_exchange))
}

/// The balances of `s` with every time set to `t`.
pub open spec fn balances_at_time(s: Seq<AssetBalance>, t: Timestamp) -> Seq<AssetBalance> {
    Seq::new(s.len(), |i: int| AssetBalance { asset: s[i].asset, balance: s[i].balance, time_exchange: t })
}

/// The open orders of `s` with every exchange time set to `t`.
pub open spec fn open_orders_at_time(s: Seq<Order<Open>>, t: Timestamp) -> Seq<Order<Open>> {
    Seq::new(
        s.len(),
        |i: int|
            Order {
                key: s[i].key,
                side: s[i].side,
                price: s[i].price,
                quantity: s[i].quantity,
                kind: s[i].kind,
                time_in_force: s[i].time_in_force,
                state: Open { id: s[i].state.id, time_exchange: t, filled_quantity: s[i].state.filled_quantity },
            },
    )
}

/// The cancelled orders of `s` with every exchange time set to `t`.
pub open spec fn cancelled_orders_at_time(s: Seq<Order<Cancelled>>, t: Timestamp) -> Seq<Order<Cancelled>> {
    Seq::new(
        s.len(),
        |i: int|
            Order {
                key: s[i].key,
                side: s[i].side,
                price: s[i].price,
                quantity: s[i].quantity,
                kind: s[i].kind,
                time_in_force: s[i].time_in_force,
                state: Cancelled { id: s[i].state.id, time_exchange: t },
            },
    )
}

/// `b` is, in `input`, the last balance listed for its asset.
pub open spec fn is_last_balance(input: Seq<AssetBalance>, b: AssetBalance) -> bool {
    exists|j: int| 0 <= j < input.len() && input[j] == b && last_of_asset(input, j, input.len() as int)
}

/// `input[j]` is the last balance of its asset among the first `n` of `input`.
pub open spec fn last_of_asset(input: Seq<AssetBalance>, j: int, n: int) -> bool {
    forall|j2: int| j < j2 < n ==> input[j2].asset@ != input[j].asset@
}

impl AccountState {
    /// An account holding the given balances and nothing else; where an asset is
    /// listed twice the later balance wins, in the place of the first.
    pub fn from_balances(input: Vec<AssetBalance>) -> (r: Self)
        ensures
            r.wf(),
            r.positions@.len() == 0,
            r.orders_open@.len() == 0,
            r.orders_cancelled@.len() == 0,
            r.trades@.len() == 0,
            forall|j: int| 0 <= j < input@.len() ==> has_balance(r.balances@, (#[trigger] input@[j]).asset@),
            forall|k: int| 0 <= k < r.balances@.len() ==> is_last_balance(input@, #[trigger] r.balances@[k]),
    {
        let mut bals: Vec<AssetBalance> = Vec::new();
        let mut i: usize = 0;
        while i < input.len()
            invariant
                i <= input.len(),
                balance_assets_unique(bals@),
                forall|j: int| 0 <= j < i ==> has_balance(bals@, (#[trigger] input@[j]).asset@),
                forall|k: int| 0 <= k < bals@.len() ==> exists|j: int|
                    0 <= j < i && input@[j] == (#[trigger] bals@[k]) && last_of_asset(input@, j, i as int),
            decreases input.len() - i,
        {
            let x = input[i].copy();
            let acc = AccountState {
                balances: bals,
                positions: Vec::new(),
                orders_open: Vec::new(),
                orders_cancelled: Vec::new(),
                trades: Vec::new(),
            };
            let found = acc.find_balance(&x.asset);
            bals = acc.balances;
            let ghost before = bals@;
            match found {
                Some(k) => {
                    proof {
                        lemma_unique_update(before, |b: AssetBalance| b.asset@, k as int, x);
                    }
                    bals.set(k, x);
                    proof {
                        assert forall|m: int| 0 <= m < bals@.len() implies exists|j: int|
                            0 <= j < i + 1 && input@[j] == (#[trigger] bals@[m]) && last_of_asset(input@, j, i + 1) by {
                            if m == k {
                                assert(input@[i as int] == bals@[m]);
                            } else {
                                let j = choose|j: int| 0 <= j < i && input@[j] == before[m] && last_of_asset(input@, j, i as int);
                                assert((|b: AssetBalance| b.asset@)(before[m]) != (|b: AssetBalance| b.asset@)(before[k as int]))
                                    by {
                                    if m < k {
                                    } else {
                                    }
                                }
                                assert(input@[j] == bals@[m]);
                            }
                        }
                        assert forall|j: int| 0 <= j < i + 1 implies has_balance(bals@, (#[trigger] input@[j]).asset@) by {
                            if j < i {
                                let m = choose|m: int| 0 <= m < before.len() && before[m].asset@ == input@[j].asset@;
                                if m == k {
                                    assert(bals@[k as int].asset@ == input@[j].asset@);
                                } else {
                                    assert(bals@[m] == before[m]);
                                }
                            } else {
                                assert(bals@[k as int] == input@[j]);
                            }
                        }
                    }
                },
                None => {
                    proof {
                        assert forall|m: int| 0 <= m < before.len() implies (|b: AssetBalance| b.asset@)(before[m]) != (|
                            b: AssetBalance,
                        | b.asset@)(x) by {
                            if before[m].asset@ == x.asset@ {
                                assert(has_balance(before, x.asset@));
                            }
                        }
                        lemma_unique_push(before, |b: AssetBalance| b.asset@, x);
                    }
                    bals.push(x);
                    proof {
                        assert forall|m: int| 0 <= m < bals@.len() implies exists|j: int|
                            0 <= j < i + 1 && input@[j] == (#[trigger] bals@[m]) && last_of_asset(input@, j, i + 1) by {
                            if m < before.len() {
                                let j = choose|j: int| 0 <= j < i && input@[j] == before[m] && last_of_asset(input@, j, i as int);
                                assert(bals@[m] == before[m]);
                                assert(input@[i as int].asset@ != input@[j].asset@);
                            } else {
                                assert(input@[i as int] == bals@[m]);
                            }
                        }
                        assert forall|j: int| 0 <= j < i + 1 implies has_balance(bals@, (#[trigger] input@[j]).asset@) by {
                            if j < i {
                                let m = choose|m: int| 0 <= m < before.len() && before[m].asset@ == input@[j].asset@;
                                assert(bals@[m] == before[m]);
                            } else {
                                assert(bals@[before.len() as int] == input@[j]);
                            }
                        }
                    }
                },
            }
            i = i + 1;
        }
        let r = AccountState {
            balances: bals,
            positions: Vec::new(),
            orders_open: Vec::new(),
            orders_cancelled: Vec::new(),
            trades: Vec::new(),
        };
        proof {
            assert forall|k: int| 0 <= k < r.balances@.len() implies is_last_balance(input@, #[trigger] r.balances@[k]) by {
                assert(bals@[k] == r.balances@[k]);
                assert(i == input@.len());
                let j = choose|j: int| 0 <= j < i && input@[j] == bals@[k] && last_of_asset(input@, j, i as int);
                assert(last_of_asset(input@, j, input@.len() as int));
            }
        }
        r
    }

    /// Stamps every balance and order with the exchange time `t`.
    pub fn update_time_exchange(&mut self, t: Timestamp)
        ensures
            final(self).balances@ == balances_at_time(old(self).balances@, t),
            final(self).orders_open@ == open_orders_at_time(old(self).orders_open@, t),
            final(self).orders_cancelled@ == cancelled_orders_at_time(old(self).orders_cancelled@, t),
            final(self).positions == old(self).positions,
            final(self).trades == old(self).trades,
    {
        let mut i: usize = 0;
        while i < self.balances.len()
            invariant
                i <= self.balances.len() == old(self).balances.len(),
                forall|j: int| 0 <= j < i ==> self.balances@[j] == balances_at_time(old(self).balances@, t)[j],
                forall|j: int| i <= j < self.balances.len() ==> self.balances@[j] == old(self).balances@[j],
                self.orders_open == old(self).orders_open,
                self.orders_cancelled == old(self).orders_cancelled,
                self.positions == old(self).positions,
                self.trades == old(self).trades,
            decreases self.balances.len() - i,
        {
            let b = self.balances[i].copy();
            self.balances.set(i, AssetBalance { asset: b.asset, balance: b.balance, time_exchange: t });
            i = i + 1;
        }
        assert(self.balances@ =~= balances_at_time(old(self).balances@, t));
        let mut i: usize = 0;
        while i < self.orders_open.len()
            invariant
                i <= self.orders_open.len() == old(self).orders_open.len(),
                forall|j: int| 0 <= j < i ==> self.orders_open@[j] == open_orders_at_time(old(self).orders_open@, t)[j],
                forall|j: int| i <= j < self.orders_open.len() ==> self.orders_open@[j] == old(self).orders_open@[j],
                self.balances@ == balances_at_time(old(self).balances@, t),
                self.orders_cancelled == old(self).orders_cancelled,
                self.positions == old(self).positions,
                self.trades == old(self).trades,
            decreases self.orders_open.len() - i,
        {
            let o = &self.orders_open[i];
            let n = Order {
                key: o.key.copy(),
                side: o.side,
                price: o.price,
                quantity: o.quantity,
                kind: o.kind,
                time_in_force: o.time_in_force,
                state: Open { id: o.state.id.clone(), time_exchange: t, filled_quantity: o.state.filled_quantity },
            };
            self.orders_open.set(i, n);
            i = i + 1;
        }
        assert(self.orders_open@ =~= open_orders_at_time(old(self).orders_open@, t));
        let mut i: usize = 0;
        while i < self.orders_cancelled.len()
            invariant
                i <= self.orders_cancelled.len() == old(self).orders_cancelled.len(),
                forall|j: int| 0 <= j < i ==> self.orders_cancelled@[j] == cancelled_orders_at_time(old(self).orders_cancelled@, t)[j],
                forall|j: int| i <= j < self.orders_cancelled.len() ==> self.orders_cancelled@[j] == old(self).orders_cancelled@[j],
                self.balances@ == balances_at_time(old(self).balances@, t),
                self.orders_open@ == open_orders_at_time(old(self).orders_open@, t),
                self.positions == old(self).positions,
                self.trades == old(self).trades,
            decreases self.orders_cancelled.len() - i,
        {
            let o = &self.orders_cancelled[i];
            let n = Order {
                key: o.key.copy(),
                side: o.side,
                price: o.price,
                quantity: o.quantity,
                kind: o.kind,
                time_in_force: o.time_in_force,
                state: Cancelled { id: o.state.id.clone(), time_exchange: t },
            };
            self.orders_cancelled.set(i, n);
            i = i + 1;
        }
        assert(self.orders_cancelled@ =~= cancelled_orders_at_time(old(self).orders_cancelled@, t));
    }

    /// Balances are keyed by asset and positions by instrument.
    pub open spec fn wf(&self) -> bool {
        &&& balance_assets_unique(self.balances@)
        &&& position_instruments_unique(self.positions@)
    }

    /// The index of the balance of `asset`, if one is held.
    pub fn find_balance(&self, asset: &String) -> (r: Option<usize>)
        ensures
            r matches Some(i) ==> i < self.balances.len() && self.balances@[i as int].asset@ == asset@,
            r is None <==> !has_balance(self.balances@, asset@),
    {
        let mut i: usize = 0;
        while i < self.balances.len()
            invariant
                i <= self.balances.len(),
                forall|j: int| 0 <= j < i ==> self.balances@[j].asset@ != asset@,
            decreases self.balances.len() - i,
        {
            if self.balances[i].asset == *asset {
                return Some(i);
            }
            i = i + 1;
        }
        None
    }

    /// The index of the position on `instrument`, if one is held.
    pub fn find_position(&self, instrument: &String) -> (r: Option<usize>)
        ensures
            r matches Some(i) ==> i < self.positions.len() && self.positions@[i as int].instrument@
                == instrument@,
            r is None <==> !has_position(self.positions@, instrument@),
    {
        let mut i: usize = 0;
        while i < self.positions.len()
            invariant
                i <= self.positions.len(),
                forall|j: int| 0 <= j < i ==> self.positions@[j].instrument@ != instrument@,
            decreases self.positions.len() - i,
        {
            if self.positions[i].instrument == *instrument {
                return Some(i);
            }
            i = i + 1;
        }
        None
    }

    /// Records a trade.
    pub fn ack_trade(&mut self, trade: Trade)
        ensures
            final(self).trades@ == old(self).trades@.push(trade),
            final(self).balances == old(self).balances,
            final(self).positions == old(self).positions,
            final(self).orders_open == old(self).orders_open,
            final(self).orders_cancelled == old(self).orders_cancelled,
    {
        self.trades.push(trade);
    }

    /// The trades made at or after `since`, in the order they were made.
    pub fn trades_since(&self, since: &Timestamp) -> (r: Vec<Trade>)
        ensures
            r@ == trades_since_spec(self.trades@, *since),
    {
        let mut r: Vec<Trade> = Vec::new();
        let mut i: usize = 0;
        while i < self.trades.len()
            invariant
                i <= self.trades.len(),
                r@ == trades_since_spec(self.trades@.take(i as int), *since),
            decreases self.trades.len() - i,
        {
            let t = self.trades[i].copy();
            proof {
                let f = |t: Trade| spec_at_or_before(*since, t.time_exchange);
                assert(self.trades@.take(i as int + 1).drop_last() =~= self.trades@.take(i as int));
                reveal_with_fuel(Seq::filter, 1);
            }
            if since.at_or_before(&t.time_exchange) {
                r.push(t);
            }
            i = i + 1;
        }
        proof {
            assert(self.trades@.take(self.trades.len() as int) =~= self.trades@);
        }
        r
    }
}

} // verus!
