//! The vault's pooled share ledger.
//!
//! Depositors own shares of a cycle supply that changes over time. A deposit
//! of `delta` cycles mints `delta * index / total_supply` shares (or `delta`
//! shares on an empty ledger); a withdrawal burns them again; revenue raises
//! the supply alone, so every share is worth more.
use vstd::prelude::*;
use vstd::arithmetic::div_mod::*;
use vstd::arithmetic::mul::*;
use crate::principal::PrincipalId;

verus! {

/// A count of cycles, the fabric's base unit.
#[derive(Clone, Copy, Debug, PartialEq, Eq, Structural)]
pub struct Balance(pub u128);

/// A count of ledger shares.
#[derive(Clone, Copy, Debug, PartialEq, Eq, Structural)]
pub struct Index(pub u128);

/// Shares minted for `val` cycles when `index` shares stand against `total` cycles.
pub open spec fn share_for(index: nat, val: nat, total: nat) -> nat {
    if total == 0 {
        val
    } else {
        val * index / total
    }
}

/// Cycles that `share` of `total` shares are worth against `supply` cycles.
pub open spec fn value_of(share: nat, total: nat, supply: nat) -> nat {
    if total == 0 {
        0
    } else {
        share * supply / total
    }
}

impl Balance {
    pub fn add(&self, bal: &Balance) -> (r: Balance)
        requires
            self.0 + bal.0 <= u128::MAX,
        ensures
            r.0 == self.0 + bal.0,
    {
        Balance(self.0 + bal.0)
    }

    pub fn sub(&self, bal: &Balance) -> (r: Balance)
        requires
            bal.0 <= self.0,
        ensures
            r.0 == self.0 - bal.0,
    {
        Balance(self.0 - bal.0)
    }

    pub fn value(&self) -> (r: u128)
        ensures
            r == self.0,
    {
        self.0
    }
}

impl Index {
    pub fn add(&self, val: &Index) -> (r: Index)
        requires
            self.0 + val.0 <= u128::MAX,
        ensures
            r.0 == self.0 + val.0,
    {
        Index(self.0 + val.0)
    }

    pub fn sub(&self, val: &Index) -> (r: Index)
        requires
            val.0 <= self.0,
        ensures
            r.0 == self.0 - val.0,
    {
        Index(self.0 - val.0)
    }

    /// Shares minted for `val` cycles when `self` shares stand against
    /// `total` cycles; on an empty supply, one share per cycle.
    pub fn share(&self, val: &Balance, total: &Balance) -> (r: Index)
        requires
            total.0 != 0 ==> val.0 * self.0 <= u128::MAX,
        ensures
            r.0 == share_for(self.0 as nat, val.0 as nat, total.0 as nat),
    {
        if total.0 == 0 {
            return Index(val.0);
        }
        Index(val.0 * self.0 / total.0)
    }

    /// Cycles that `self` of `total` shares are worth against `supply`
    /// cycles, rounded down; nothing when no share exists. A holding larger
    /// than all shares is a broken ledger and is not admitted.
    pub fn to_balance(&self, total: &Index, supply: &Balance) -> (r: Balance)
        requires
            total.0 != 0 ==> self.0 <= total.0 && self.0 * supply.0 <= u128::MAX,
        ensures
            r.0 == value_of(self.0 as nat, total.0 as nat, supply.0 as nat),
            r.0 <= supply.0,
    {
        if total.0 == 0 {
            return Balance(0);
        }
        proof {
            lemma_value_bounded(self.0 as nat, total.0 as nat, supply.0 as nat);
        }
        Balance(self.0 * supply.0 / total.0)
    }

    pub fn value(&self) -> (r: u128)
        ensures
            r == self.0,
    {
        self.0
    }
}

impl From<u128> for Balance {
    fn from(val: u128) -> (r: Balance) {
        Balance(val)
    }
}

impl vstd::std_specs::convert::FromSpecImpl<u128> for Balance {
    open spec fn obeys_from_spec() -> bool {
        true
    }

    open spec fn from_spec(v: u128) -> Balance {
        Balance(v)
    }
}

impl From<u128> for Index {
    fn from(val: u128) -> (r: Index) {
        Index(val)
    }
}

impl vstd::std_specs::convert::FromSpecImpl<u128> for Index {
    open spec fn obeys_from_spec() -> bool {
        true
    }

    open spec fn from_spec(v: u128) -> Index {
        Index(v)
    }
}

impl Default for Balance {
    fn default() -> (r: Balance)
        ensures
            r.0 == 0,
    {
        Balance(0)
    }
}

impl Default for Index {
    fn default() -> (r: Index)
        ensures
            r.0 == 0,
    {
        Index(0)
    }
}

/// A holding of at most all shares is worth at most the whole supply.
pub proof fn lemma_value_bounded(share: nat, total: nat, supply: nat)
    requires
        share <= total,
    ensures
        value_of(share, total, supply) <= supply,
{
    if total != 0 {
        lemma_mul_inequality(share as int, total as int, supply as int);
        lemma_mul_is_commutative(total as int, supply as int);
        lemma_div_is_ordered((share * supply) as int, (total * supply) as int, total as int);
        lemma_div_by_multiple(supply as int, total as int);
    }
}

// ---------------------------------------------------------------------------
// The abstract ledger: a sequence of (depositor, share) entries, the share
// index, and the total supply.

/// Share held by `d`: the value of its last entry, or zero.
pub open spec fn share_in(e: Seq<(Seq<u8>, nat)>, d: Seq<u8>) -> nat
    decreases e.len(),
{
    if e.len() == 0 {
        0
    } else if e.last().0 == d {
        e.last().1
    } else {
        share_in(e.drop_last(), d)
    }
}

/// Position of the last entry of `d`, or -1.
pub open spec fn pos_of(e: Seq<(Seq<u8>, nat)>, d: Seq<u8>) -> int
    decreases e.len(),
{
    if e.len() == 0 {
        -1
    } else if e.last().0 == d {
        e.len() - 1
    } else {
        pos_of(e.drop_last(), d)
    }
}

pub open spec fn sum_shares(e: Seq<(Seq<u8>, nat)>) -> nat
    decreases e.len(),
{
    if e.len() == 0 {
        0
    } else {
        sum_shares(e.drop_last()) + e.last().1
    }
}

pub open spec fn keys_unique(e: Seq<(Seq<u8>, nat)>) -> bool {
    forall|i: int, j: int| 0 <= i < j < e.len() ==> e[i].0 != e[j].0
}

/// The entries with `d`'s share set to `v`: its entry is overwritten in
/// place, or a new one is appended.
pub open spec fn with_share(e: Seq<(Seq<u8>, nat)>, d: Seq<u8>, v: nat) -> Seq<(Seq<u8>, nat)> {
    if pos_of(e, d) >= 0 {
        e.update(pos_of(e, d), (d, v))
    } else {
        e.push((d, v))
    }
}

pub proof fn lemma_pos_of(e: Seq<(Seq<u8>, nat)>, d: Seq<u8>)
    ensures
        -1 <= pos_of(e, d) < e.len(),
        pos_of(e, d) >= 0 ==> e[pos_of(e, d)].0 == d && share_in(e, d) == e[pos_of(e, d)].1,
        pos_of(e, d) < 0 ==> share_in(e, d) == 0 && forall|i: int| 0 <= i < e.len() ==> e[i].0 != d,
        forall|i: int| pos_of(e, d) < i < e.len() ==> e[i].0 != d,
    decreases e.len(),
{
    if e.len() > 0 {
        let dl = e.drop_last();
        lemma_pos_of(dl, d);
        assert forall|i: int| 0 <= i < dl.len() implies #[trigger] e[i] == dl[i] by {}
    }
}

pub proof fn lemma_pos_of_unique(e: Seq<(Seq<u8>, nat)>, d: Seq<u8>, i: int)
    requires
        keys_unique(e),
        0 <= i < e.len(),
        e[i].0 == d,
    ensures
        pos_of(e, d) == i,
        share_in(e, d) == e[i].1,
    decreases e.len(),
{
    if i < e.len() - 1 {
        lemma_pos_of_unique(e.drop_last(), d, i);
    }
}

pub proof fn lemma_share_le_sum(e: Seq<(Seq<u8>, nat)>, d: Seq<u8>)
    ensures
        share_in(e, d) <= sum_shares(e),
    decreases e.len(),
{
    if e.len() > 0 {
        lemma_share_le_sum(e.drop_last(), d);
    }
}

proof fn lemma_update_sum(e: Seq<(Seq<u8>, nat)>, p: int, x: (Seq<u8>, nat))
    requires
        0 <= p < e.len(),
    ensures
        sum_shares(e.update(p, x)) == sum_shares(e) - e[p].1 + x.1,
    decreases e.len(),
{
    let u = e.update(p, x);
    if p == e.len() - 1 {
        assert(u.drop_last() =~= e.drop_last());
    } else {
        lemma_update_sum(e.drop_last(), p, x);
        assert(u.drop_last() =~= e.drop_last().update(p, x));
    }
}

proof fn lemma_update_lookup(e: Seq<(Seq<u8>, nat)>, d: Seq<u8>, v: nat, x: Seq<u8>)
    requires
        pos_of(e, d) >= 0,
    ensures
        share_in(e.update(pos_of(e, d), (d, v)), x) == if x == d { v } else { share_in(e, x) },
        pos_of(e.update(pos_of(e, d), (d, v)), d) == pos_of(e, d),
    decreases e.len(),
{
    let p = pos_of(e, d);
    let u = e.update(p, (d, v));
    lemma_pos_of(e, d);
    if p == e.len() - 1 {
        assert(u.drop_last() =~= e.drop_last());
    } else {
        assert(u.drop_last() =~= e.drop_last().update(p, (d, v)));
        lemma_update_lookup(e.drop_last(), d, v, x);
    }
}

/// Reading and summing shares after one depositor's share is set.
pub proof fn lemma_with_share(e: Seq<(Seq<u8>, nat)>, d: Seq<u8>, v: nat)
    requires
        keys_unique(e),
    ensures
        keys_unique(with_share(e, d, v)),
        sum_shares(with_share(e, d, v)) == sum_shares(e) - share_in(e, d) + v,
        forall|x: Seq<u8>|
            #[trigger] share_in(with_share(e, d, v), x) == if x == d { v } else { share_in(e, x) },
{
    lemma_pos_of(e, d);
    let w = with_share(e, d, v);
    if pos_of(e, d) >= 0 {
        lemma_update_sum(e, pos_of(e, d), (d, v));
        assert forall|x: Seq<u8>|
            #[trigger] share_in(w, x) == if x == d { v } else { share_in(e, x) } by {
            lemma_update_lookup(e, d, v, x);
        }
    } else {
        assert(w.drop_last() =~= e);
    }
}

/// The ledger as values: entries of (depositor, share), the share index,
/// and the total supply in cycles.
pub struct LedgerView {
    pub entries: Seq<(Seq<u8>, nat)>,
    pub index: nat,
    pub total_supply: nat,
}

/// One operation on the ledger, with the cycles that came with it (and,
/// for a withdrawal, the cycles the vault actually holds).
pub enum LedgerOp {
    Supply { depositor: Seq<u8>, amount: nat },
    Withdraw { depositor: Seq<u8>, amount: nat, live: nat },
    Revenue { amount: nat },
}

impl LedgerView {
    /// Entries are keyed uniquely, the shares add up to the index, and the
    /// index times the supply fits in 128 bits.
    pub open spec fn wf(self) -> bool {
        &&& keys_unique(self.entries)
        &&& sum_shares(self.entries) == self.index
        &&& self.index <= u128::MAX
        &&& self.total_supply <= u128::MAX
        &&& self.index * self.total_supply <= u128::MAX
    }

    pub open spec fn share_of(self, d: Seq<u8>) -> nat {
        share_in(self.entries, d)
    }

    pub open spec fn balance_of(self, d: Seq<u8>) -> nat {
        value_of(self.share_of(d), self.index, self.total_supply)
    }

    /// Shares minted or burnt for `delta` cycles.
    pub open spec fn shares_for(self, delta: nat) -> nat {
        share_for(self.index, delta, self.total_supply)
    }

    pub open spec fn can_deposit(self, delta: nat) -> bool {
        &&& self.total_supply != 0 ==> delta * self.index <= u128::MAX
        &&& self.index + self.shares_for(delta) <= u128::MAX
        &&& self.total_supply + delta <= u128::MAX
        &&& (self.index + self.shares_for(delta)) * (self.total_supply + delta) <= u128::MAX
    }

    pub open spec fn deposit(self, d: Seq<u8>, delta: nat) -> LedgerView {
        LedgerView {
            entries: with_share(self.entries, d, self.share_of(d) + self.shares_for(delta)),
            index: self.index + self.shares_for(delta),
            total_supply: self.total_supply + delta,
        }
    }

    pub open spec fn can_burn(self, d: Seq<u8>, delta: nat) -> bool {
        &&& self.total_supply != 0 ==> delta * self.index <= u128::MAX
        &&& self.shares_for(delta) <= self.share_of(d)
        &&& delta <= self.total_supply
    }

    pub open spec fn burn(self, d: Seq<u8>, delta: nat) -> LedgerView {
        LedgerView {
            entries: with_share(self.entries, d, (self.share_of(d) - self.shares_for(delta)) as nat),
            index: (self.index - self.shares_for(delta)) as nat,
            total_supply: (self.total_supply - delta) as nat,
        }
    }

    pub open spec fn can_salvage(self, live: nat) -> bool {
        live <= self.total_supply || (live <= u128::MAX && self.index * live <= u128::MAX)
    }

    /// Raises the supply to the cycles actually held, never lowers it.
    pub open spec fn salvage(self, live: nat) -> LedgerView {
        if live > self.total_supply {
            LedgerView { total_supply: live, ..self }
        } else {
            self
        }
    }

    /// What `d` may take out, valued against the cycles actually held.
    pub open spec fn withdrawable_of(self, d: Seq<u8>, live: nat) -> nat {
        value_of(self.share_of(d), self.index, live)
    }

    pub open spec fn can_withdraw(self, d: Seq<u8>, delta: nat, live: nat) -> bool {
        self.can_salvage(live) && delta <= self.salvage(live).withdrawable_of(d, live)
    }

    pub open spec fn withdraw(self, d: Seq<u8>, delta: nat, live: nat) -> LedgerView {
        if self.can_withdraw(d, delta, live) {
            self.salvage(live).burn(d, delta)
        } else {
            self
        }
    }

    pub open spec fn can_receive(self, r: nat) -> bool {
        r > 0 && self.total_supply + r <= u128::MAX && self.index * (self.total_supply + r) <= u128::MAX
    }

    pub open spec fn receive(self, r: nat) -> LedgerView {
        LedgerView { total_supply: self.total_supply + r, ..self }
    }

    /// One operation; an operation that is refused leaves the ledger as it was.
    pub open spec fn step(self, op: LedgerOp) -> LedgerView {
        match op {
            LedgerOp::Supply { depositor, amount } => if self.can_deposit(amount) {
                self.deposit(depositor, amount)
            } else {
                self
            },
            LedgerOp::Withdraw { depositor, amount, live } => self.withdraw(depositor, amount, live),
            LedgerOp::Revenue { amount } => if self.can_receive(amount) {
                self.receive(amount)
            } else {
                self
            },
        }
    }

    pub open spec fn run(self, ops: Seq<LedgerOp>) -> LedgerView
        decreases ops.len(),
    {
        if ops.len() == 0 {
            self
        } else {
            self.run(ops.drop_last()).step(ops.last())
        }
    }
}

// ---------------------------------------------------------------------------
// What each operation preserves.

pub proof fn lemma_deposit_wf(v: LedgerView, d: Seq<u8>, delta: nat)
    requires
        v.wf(),
        v.can_deposit(delta),
    ensures
        v.deposit(d, delta).wf(),
        forall|x: Seq<u8>|
            #[trigger] v.deposit(d, delta).share_of(x) == if x == d {
                v.share_of(d) + v.shares_for(delta)
            } else {
                v.share_of(x)
            },
{
    lemma_with_share(v.entries, d, v.share_of(d) + v.shares_for(delta));
}

pub proof fn lemma_burn_wf(v: LedgerView, d: Seq<u8>, delta: nat)
    requires
        v.wf(),
        v.can_burn(d, delta),
    ensures
        v.burn(d, delta).wf(),
        v.burn(d, delta).total_supply == v.total_supply - delta,
        forall|x: Seq<u8>|
            #[trigger] v.burn(d, delta).share_of(x) == if x == d {
                (v.share_of(d) - v.shares_for(delta)) as nat
            } else {
                v.share_of(x)
            },
{
    lemma_with_share(v.entries, d, (v.share_of(d) - v.shares_for(delta)) as nat);
    lemma_share_le_sum(v.entries, d);
    let b = v.burn(d, delta);
    lemma_mul_upper_bound(b.index as int, v.index as int, b.total_supply as int, v.total_supply as int);
}

pub proof fn lemma_salvage_wf(v: LedgerView, live: nat)
    requires
        v.wf(),
        v.can_salvage(live),
    ensures
        v.salvage(live).wf(),
        v.salvage(live).total_supply >= v.total_supply,
        v.salvage(live).total_supply >= live,
        v.salvage(live).index == v.index,
        v.salvage(live).entries == v.entries,
{
}

pub proof fn lemma_receive_wf(v: LedgerView, r: nat)
    requires
        v.wf(),
        v.can_receive(r),
    ensures
        v.receive(r).wf(),
{
}

/// A withdrawal within what the depositor may take can always be booked.
pub proof fn lemma_withdraw_can_burn(v: LedgerView, d: Seq<u8>, delta: nat, live: nat)
    requires
        v.wf(),
        v.can_withdraw(d, delta, live),
    ensures
        v.salvage(live).wf(),
        v.salvage(live).can_burn(d, delta),
        v.withdraw(d, delta, live).wf(),
{
    let w = v.salvage(live);
    lemma_salvage_wf(v, live);
    let s = v.share_of(d) as int;
    let i = v.index as int;
    let t = w.total_supply as int;
    let l = live as int;
    let dl = delta as int;
    lemma_share_le_sum(v.entries, d);
    if i > 0 {
        let sl = s * l;
        let q = sl / i;
        lemma_mul_nonnegative(s, l);
        lemma_fundamental_div_mod(sl, i);
        lemma_mod_pos_bound(sl, i);
        lemma_mul_is_commutative(i, q);
        lemma_mul_inequality(dl, q, i);
        assert(dl * i <= sl);
        lemma_mul_upper_bound(s, i, l, t);
        assert(dl * i <= i * t);
        lemma_mul_is_commutative(dl, i);
        if t > 0 {
            lemma_mul_inequality(l, t, s);
            lemma_mul_is_commutative(l, s);
            lemma_mul_is_commutative(t, s);
            lemma_div_is_ordered(dl * i, s * t, t);
            lemma_div_by_multiple(s, t);
            assert(w.shares_for(delta) <= v.share_of(d));
        } else {
            assert(l == 0);
            lemma_mul_basics(s);
            if dl > 0 {
                lemma_mul_strictly_positive(dl, i);
            }
            assert(dl == 0);
        }
        lemma_mul_inequality(s, i, l);
        lemma_mul_is_commutative(s, l);
        lemma_mul_is_commutative(i, l);
        lemma_div_is_ordered(sl, i * l, i);
        lemma_div_multiples_vanish(l, i);
        assert(dl <= t);
    } else {
        assert(dl == 0);
        lemma_div_basics(t);
        assert(w.shares_for(delta) == 0);
    }
    lemma_burn_wf(w, d, delta);
}

// ---------------------------------------------------------------------------
// Laws of the ledger.

/// Over any sequence of deposits, withdrawals and revenue, the ledger stays
/// well formed: in particular the depositors' shares always add up to the
/// index exactly.
pub proof fn lemma_share_conservation(v: LedgerView, ops: Seq<LedgerOp>)
    requires
        v.wf(),
    ensures
        v.run(ops).wf(),
        sum_shares(v.run(ops).entries) == v.run(ops).index,
    decreases ops.len(),
{
    if ops.len() > 0 {
        lemma_share_conservation(v, ops.drop_last());
        let p = v.run(ops.drop_last());
        match ops.last() {
            LedgerOp::Supply { depositor, amount } => {
                if p.can_deposit(amount) {
                    lemma_deposit_wf(p, depositor, amount);
                }
            },
            LedgerOp::Withdraw { depositor, amount, live } => {
                if p.can_withdraw(depositor, amount, live) {
                    lemma_withdraw_can_burn(p, depositor, amount, live);
                }
            },
            LedgerOp::Revenue { amount } => {
                if p.can_receive(amount) {
                    lemma_receive_wf(p, amount);
                }
            },
        }
    }
}

/// Revenue leaves every depositor's share as it was and never lowers what
/// that share is worth.
pub proof fn lemma_revenue_preserves_value(v: LedgerView, r: nat, d: Seq<u8>)
    requires
        v.wf(),
        v.can_receive(r),
    ensures
        v.receive(r).share_of(d) == v.share_of(d),
        v.receive(r).balance_of(d) >= v.balance_of(d),
{
    if v.index > 0 {
        let s = v.share_of(d) as int;
        lemma_mul_inequality(v.total_supply as int, (v.total_supply + r) as int, s);
        lemma_mul_is_commutative(v.total_supply as int, s);
        lemma_mul_is_commutative((v.total_supply + r) as int, s);
        lemma_div_is_ordered(s * v.total_supply, s * (v.total_supply + r), v.index as int);
    }
}

/// Salvaging stray cycles never lowers the total supply.
pub proof fn lemma_salvage_monotone(v: LedgerView, live: nat)
    ensures
        v.salvage(live).total_supply >= v.total_supply,
{
}

impl LedgerView {
    /// The ledger after each (depositor, amount) in turn asks to withdraw,
    /// with the vault holding exactly the total supply.
    pub open spec fn run_withdrawals(self, ws: Seq<(Seq<u8>, nat)>) -> LedgerView
        decreases ws.len(),
    {
        if ws.len() == 0 {
            self
        } else {
            let p = self.run_withdrawals(ws.drop_last());
            p.withdraw(ws.last().0, ws.last().1, p.total_supply)
        }
    }

    /// The cycles paid out by those withdrawals that were granted.
    pub open spec fn dispatched(self, ws: Seq<(Seq<u8>, nat)>) -> nat
        decreases ws.len(),
    {
        if ws.len() == 0 {
            0
        } else {
            let p = self.run_withdrawals(ws.drop_last());
            self.dispatched(ws.drop_last()) + if p.can_withdraw(
                ws.last().0,
                ws.last().1,
                p.total_supply,
            ) {
                ws.last().1
            } else {
                0
            }
        }
    }
}

/// Withdrawals never pay out more than the supply: over any sequence of
/// them, the cycles paid out plus the supply that remains equal the supply
/// at the start.
pub proof fn lemma_withdrawals_conserve_supply(v: LedgerView, ws: Seq<(Seq<u8>, nat)>)
    requires
        v.wf(),
    ensures
        v.run_withdrawals(ws).wf(),
        v.dispatched(ws) + v.run_withdrawals(ws).total_supply == v.total_supply,
    decreases ws.len(),
{
    if ws.len() > 0 {
        lemma_withdrawals_conserve_supply(v, ws.drop_last());
        let p = v.run_withdrawals(ws.drop_last());
        let (d, delta) = ws.last();
        if p.can_withdraw(d, delta, p.total_supply) {
            lemma_withdraw_can_burn(p, d, delta, p.total_supply);
            lemma_burn_wf(p.salvage(p.total_supply), d, delta);
        }
    }
}

/// A depositor holding every share who withdraws all it may take receives
/// the whole supply and leaves the ledger empty.
pub proof fn lemma_sole_depositor_round_trip(v: LedgerView, d: Seq<u8>)
    requires
        v.wf(),
        v.index > 0,
        v.total_supply > 0,
        v.share_of(d) == v.index,
    ensures
        v.withdrawable_of(d, v.total_supply) == v.total_supply,
        v.can_withdraw(d, v.total_supply, v.total_supply),
        v.withdraw(d, v.total_supply, v.total_supply).index == 0,
        v.withdraw(d, v.total_supply, v.total_supply).total_supply == 0,
        v.withdraw(d, v.total_supply, v.total_supply).share_of(d) == 0,
{
    let i = v.index as int;
    let t = v.total_supply as int;
    lemma_mul_is_commutative(i, t);
    lemma_div_multiples_vanish(t, i);
    lemma_div_multiples_vanish(i, t);
    lemma_withdraw_can_burn(v, d, v.total_supply, v.total_supply);
    lemma_burn_wf(v, d, v.total_supply);
}

// ---------------------------------------------------------------------------
// The executable ledger.

/// Why a ledger operation was refused. A refused operation changes nothing.
#[derive(Clone, Copy, Debug, PartialEq, Eq, Structural)]
pub enum LedgerError {
    /// The depositor may not take that much.
    InsufficientBalance,
    /// No cycles came with the call.
    NoCycles,
    /// The result would not fit in 128 bits.
    Overflow,
}

pub open spec fn entry_view(e: (PrincipalId, u128)) -> (Seq<u8>, nat) {
    (e.0@, e.1 as nat)
}

/// Whether no identity appears twice among the entries.
pub fn keys_distinct(v: &Vec<(PrincipalId, u128)>) -> (r: bool)
    ensures
        r == keys_unique(v@.map_values(|e: (PrincipalId, u128)| entry_view(e))),
{
    let ghost s = v@.map_values(|e: (PrincipalId, u128)| entry_view(e));
    let mut i: usize = 0;
    while i < v.len()
        invariant
            i <= v@.len(),
            s == v@.map_values(|e: (PrincipalId, u128)| entry_view(e)),
            forall|a: int, b: int| 0 <= a < b < i ==> s[a].0 != s[b].0,
        decreases v@.len() - i,
    {
        let mut j: usize = 0;
        while j < i
            invariant
                j <= i < v@.len(),
                s == v@.map_values(|e: (PrincipalId, u128)| entry_view(e)),
                forall|a: int, b: int| 0 <= a < b < i ==> s[a].0 != s[b].0,
                forall|a: int| 0 <= a < j ==> s[a].0 != s[i as int].0,
            decreases i - j,
        {
            assert(s[j as int].0 == v@[j as int].0@ && s[i as int].0 == v@[i as int].0@);
            if v[j].0.same_as(&v[i].0) {
                return false;
            }
            j = j + 1;
        }
        i = i + 1;
    }
    true
}

proof fn lemma_sum_prefix(s: Seq<(Seq<u8>, nat)>, k: int)
    requires
        0 <= k <= s.len(),
    ensures
        sum_shares(s.subrange(0, k)) <= sum_shares(s),
    decreases s.len(),
{
    if k < s.len() {
        lemma_sum_prefix(s.drop_last(), k);
        assert(s.drop_last().subrange(0, k) =~= s.subrange(0, k));
    } else {
        assert(s.subrange(0, k) =~= s);
    }
}

/// The pooled-deposit ledger: each depositor's shares, the share index and
/// the total supply of cycles.
#[derive(Debug)]
pub struct ShareLedger {
    shares: Vec<(PrincipalId, u128)>,
    index: Index,
    total_supply: Balance,
}

impl View for ShareLedger {
    type V = LedgerView;

    closed spec fn view(&self) -> LedgerView {
        LedgerView {
            entries: self.shares@.map_values(|e: (PrincipalId, u128)| entry_view(e)),
            index: self.index.0 as nat,
            total_supply: self.total_supply.0 as nat,
        }
    }
}

impl ShareLedger {
    pub open spec fn wf(&self) -> bool {
        self@.wf()
    }

    pub open spec fn empty_view() -> LedgerView {
        LedgerView { entries: Seq::empty(), index: 0, total_supply: 0 }
    }

    /// An empty ledger: no depositor, no share, no supply.
    pub fn new() -> (r: ShareLedger)
        ensures
            r.wf(),
            r@ == ShareLedger::empty_view(),
    {
        let r = ShareLedger { shares: Vec::new(), index: Index(0), total_supply: Balance(0) };
        assert(r@.entries =~= Seq::<(Seq<u8>, nat)>::empty());
        r
    }

    /// A ledger read back from durable storage; `None` unless the parts
    /// form a well-formed ledger.
    pub fn restore(shares: Vec<(PrincipalId, u128)>, index: u128, total_supply: u128) -> (r: Option<ShareLedger>)
        ensures
            ({
                let v = LedgerView {
                    entries: shares@.map_values(|e: (PrincipalId, u128)| entry_view(e)),
                    index: index as nat,
                    total_supply: total_supply as nat,
                };
                &&& r is Some <==> v.wf()
                &&& r is Some ==> r->Some_0@ == v
            }),
    {
        let ghost s = shares@.map_values(|e: (PrincipalId, u128)| entry_view(e));
        if !keys_distinct(&shares) {
            return None;
        }
        if index.checked_mul(total_supply).is_none() {
            return None;
        }
        let mut acc: u128 = 0;
        let mut i: usize = 0;
        while i < shares.len()
            invariant
                i <= shares@.len(),
                s == shares@.map_values(|e: (PrincipalId, u128)| entry_view(e)),
                acc == sum_shares(s.subrange(0, i as int)),
            decreases shares@.len() - i,
        {
            assert(s.subrange(0, i + 1).drop_last() =~= s.subrange(0, i as int));
            assert(s[i as int].1 == shares@[i as int].1);
            match acc.checked_add(shares[i].1) {
                Some(x) => {
                    acc = x;
                },
                None => {
                    proof {
                        lemma_sum_prefix(s, i + 1);
                    }
                    return None;
                },
            }
            i = i + 1;
        }
        assert(s.subrange(0, i as int) =~= s);
        if acc != index {
            return None;
        }
        let r = ShareLedger { shares, index: Index(index), total_supply: Balance(total_supply) };
        Some(r)
    }

    /// Every depositor's shares, in order of first deposit.
    pub fn entries(&self) -> (r: Vec<(PrincipalId, u128)>)
        ensures
            r@.map_values(|e: (PrincipalId, u128)| entry_view(e)) == self@.entries,
    {
        let mut r: Vec<(PrincipalId, u128)> = Vec::new();
        let mut i: usize = 0;
        while i < self.shares.len()
            invariant
                i <= self.shares@.len(),
                r@.len() == i,
                self@.entries.len() == self.shares@.len(),
                forall|k: int| 0 <= k < i ==> entry_view(#[trigger] r@[k]) == self@.entries[k],
            decreases self.shares@.len() - i,
        {
            r.push((self.shares[i].0.duplicate(), self.shares[i].1));
            assert(self@.entries[i as int] == entry_view(self.shares@[i as int]));
            i = i + 1;
        }
        assert(r@.map_values(|e: (PrincipalId, u128)| entry_view(e)) =~= self@.entries);
        r
    }

    fn position_of(&self, d: &PrincipalId) -> (r: Option<usize>)
        ensures
            match r {
                Some(i) => i < self@.entries.len() && self@.entries[i as int].0 == d@,
                None => forall|j: int| 0 <= j < self@.entries.len() ==> self@.entries[j].0 != d@,
            },
    {
        let mut i: usize = 0;
        while i < self.shares.len()
            invariant
                i <= self.shares@.len(),
                self@.entries.len() == self.shares@.len(),
                forall|j: int| 0 <= j < i ==> self@.entries[j].0 != d@,
            decreases self.shares@.len() - i,
        {
            if self.shares[i].0.same_as(d) {
                return Some(i);
            }
            i = i + 1;
        }
        None
    }

    /// Sets `d`'s share, in place when it already has an entry.
    fn set_share(&mut self, d: &PrincipalId, v: u128)
        requires
            keys_unique(old(self)@.entries),
        ensures
            final(self)@.entries == with_share(old(self)@.entries, d@, v as nat),
            final(self)@.index == old(self)@.index,
            final(self)@.total_supply == old(self)@.total_supply,
    {
        let ghost e = self@.entries;
        proof {
            lemma_pos_of(e, d@);
        }
        match self.position_of(d) {
            Some(i) => {
                proof {
                    lemma_pos_of_unique(e, d@, i as int);
                }
                self.shares.set(i, (d.duplicate(), v));
                assert(self@.entries =~= e.update(i as int, (d@, v as nat)));
            },
            None => {
                self.shares.push((d.duplicate(), v));
                assert(self@.entries =~= e.push((d@, v as nat)));
            },
        }
    }

    /// Shares held by `d`; zero for an identity that never deposited.
    pub fn share_of(&self, d: &PrincipalId) -> (r: Index)
        requires
            self.wf(),
        ensures
            r.0 == self@.share_of(d@),
            r.0 <= self@.index,
    {
        proof {
            lemma_pos_of(self@.entries, d@);
            lemma_share_le_sum(self@.entries, d@);
        }
        match self.position_of(d) {
            Some(i) => {
                proof {
                    lemma_pos_of_unique(self@.entries, d@, i as int);
                }
                Index(self.shares[i].1)
            },
            None => Index(0),
        }
    }

    pub fn index(&self) -> (r: Index)
        ensures
            r.0 == self@.index,
    {
        self.index
    }

    pub fn total_supply(&self) -> (r: Balance)
        ensures
            r.0 == self@.total_supply,
    {
        self.total_supply
    }

    /// Cycles that `d`'s shares are worth against the total supply, rounded
    /// down; never more than the supply.
    pub fn balance_of(&self, d: &PrincipalId) -> (r: Balance)
        requires
            self.wf(),
        ensures
            r.0 == self@.balance_of(d@),
            r.0 <= self@.total_supply,
    {
        let share = self.share_of(d);
        proof {
            lemma_mul_inequality(share.0 as int, self.index.0 as int, self.total_supply.0 as int);
        }
        share.to_balance(&self.index, &self.total_supply)
    }

    /// Credits `d` with the shares that `delta` cycles buy and adds `delta`
    /// to the supply.
    pub fn increase_index(&mut self, delta: &Balance, d: &PrincipalId) -> (r: Result<(), LedgerError>)
        requires
            old(self).wf(),
        ensures
            final(self).wf(),
            r is Ok <==> old(self)@.can_deposit(delta.0 as nat),
            r is Ok ==> final(self)@ == old(self)@.deposit(d@, delta.0 as nat),
            r is Err ==> r == Err::<(), LedgerError>(LedgerError::Overflow) && final(self)@ == old(self)@,
    {
        let ghost v = self@;
        let minted: u128;
        if self.total_supply.0 == 0 {
            minted = delta.0;
        } else {
            match delta.0.checked_mul(self.index.0) {
                Some(p) => {
                    minted = p / self.total_supply.0;
                },
                None => {
                    return Err(LedgerError::Overflow);
                },
            }
        }
        assert(minted == v.shares_for(delta.0 as nat));
        let new_index = match self.index.0.checked_add(minted) {
            Some(x) => x,
            None => {
                return Err(LedgerError::Overflow);
            },
        };
        let new_total = match self.total_supply.0.checked_add(delta.0) {
            Some(x) => x,
            None => {
                return Err(LedgerError::Overflow);
            },
        };
        if new_index.checked_mul(new_total).is_none() {
            return Err(LedgerError::Overflow);
        }
        let share = self.share_of(d);
        self.set_share(d, share.0 + minted);
        self.index = Index(new_index);
        self.total_supply = Balance(new_total);
        proof {
            lemma_deposit_wf(v, d@, delta.0 as nat);
        }
        assert(self@ == v.deposit(d@, delta.0 as nat));
        Ok(())
    }

    /// Takes from `d` the shares that `delta` cycles stand for and removes
    /// `delta` from the supply.
    pub fn decrease_index(&mut self, delta: &Balance, d: &PrincipalId) -> (r: Result<(), LedgerError>)
        requires
            old(self).wf(),
        ensures
            final(self).wf(),
            r is Ok <==> old(self)@.can_burn(d@, delta.0 as nat),
            r is Ok ==> final(self)@ == old(self)@.burn(d@, delta.0 as nat),
            r is Err ==> final(self)@ == old(self)@,
            r == Err::<(), LedgerError>(LedgerError::Overflow) <==> (old(self)@.total_supply != 0
                && delta.0 * old(self)@.index > u128::MAX),
    {
        let ghost v = self@;
        let burnt: u128;
        if self.total_supply.0 == 0 {
            burnt = delta.0;
        } else {
            match delta.0.checked_mul(self.index.0) {
                Some(p) => {
                    burnt = p / self.total_supply.0;
                },
                None => {
                    return Err(LedgerError::Overflow);
                },
            }
        }
        let share = self.share_of(d);
        if burnt > share.0 || delta.0 > self.total_supply.0 {
            return Err(LedgerError::InsufficientBalance);
        }
        proof {
            lemma_share_le_sum(v.entries, d@);
        }
        self.set_share(d, share.0 - burnt);
        self.index = Index(self.index.0 - burnt);
        self.total_supply = Balance(self.total_supply.0 - delta.0);
        proof {
            lemma_burn_wf(v, d@, delta.0 as nat);
        }
        assert(self@ == v.burn(d@, delta.0 as nat));
        Ok(())
    }

    /// Adds `value` to the supply, or takes it away when `neg` holds; the
    /// shares stay as they are.
    pub fn add_total_supply(&mut self, value: &Balance, neg: bool) -> (r: Result<(), LedgerError>)
        requires
            old(self).wf(),
        ensures
            final(self).wf(),
            final(self)@.entries == old(self)@.entries,
            final(self)@.index == old(self)@.index,
            neg ==> (r is Ok <==> value.0 <= old(self)@.total_supply),
            !neg ==> (r is Ok <==> (old(self)@.total_supply + value.0 <= u128::MAX && old(self)@.index * (
            old(self)@.total_supply + value.0) <= u128::MAX)),
            r is Ok ==> final(self)@.total_supply == if neg {
                old(self)@.total_supply - value.0
            } else {
                old(self)@.total_supply + value.0
            },
            r is Err ==> final(self)@ == old(self)@,
    {
        if neg {
            if value.0 > self.total_supply.0 {
                return Err(LedgerError::InsufficientBalance);
            }
            let after = self.total_supply.0 - value.0;
            proof {
                lemma_mul_inequality(after as int, self.total_supply.0 as int, self.index.0 as int);
                lemma_mul_is_commutative(after as int, self.index.0 as int);
                lemma_mul_is_commutative(self.total_supply.0 as int, self.index.0 as int);
            }
            self.total_supply = Balance(after);
            Ok(())
        } else {
            let after = match self.total_supply.0.checked_add(value.0) {
                Some(x) => x,
                None => {
                    return Err(LedgerError::Overflow);
                },
            };
            if self.index.0.checked_mul(after).is_none() {
                return Err(LedgerError::Overflow);
            }
            self.total_supply = Balance(after);
            Ok(())
        }
    }

    /// Books revenue: the cycles raise the supply alone, so every share is
    /// worth more.
    pub fn receive_revenue(&mut self, accepted: u128) -> (r: Result<(), LedgerError>)
        requires
            old(self).wf(),
        ensures
            final(self).wf(),
            r is Ok <==> old(self)@.can_receive(accepted as nat),
            r is Ok ==> final(self)@ == old(self)@.receive(accepted as nat),
            r is Err ==> final(self)@ == old(self)@,
            accepted == 0 ==> r == Err::<(), LedgerError>(LedgerError::NoCycles),
            forall|d: Seq<u8>|
                #![trigger final(self)@.balance_of(d)]
                final(self)@.share_of(d) == old(self)@.share_of(d) && final(self)@.balance_of(d)
                    >= old(self)@.balance_of(d),
    {
        let ghost v = self@;
        if accepted == 0 {
            return Err(LedgerError::NoCycles);
        }
        let r = self.add_total_supply(&Balance(accepted), false);
        proof {
            if r is Ok {
                assert(self@ == v.receive(accepted as nat));
                assert forall|d: Seq<u8>|
                    #![trigger self@.balance_of(d)]
                    self@.share_of(d) == v.share_of(d) && self@.balance_of(d) >= v.balance_of(d) by {
                    lemma_revenue_preserves_value(v, accepted as nat, d);
                }
            } else {
                assert(self@ == v);
            }
        }
        r
    }

    /// Raises the supply to the cycles the vault actually holds, when they
    /// are more; never lowers it.
    pub fn salvage_stray_cycles(&mut self, live: u128) -> (r: Result<(), LedgerError>)
        requires
            old(self).wf(),
        ensures
            final(self).wf(),
            r is Ok <==> old(self)@.can_salvage(live as nat),
            r is Ok ==> final(self)@ == old(self)@.salvage(live as nat),
            r is Err ==> final(self)@ == old(self)@,
            final(self)@.total_supply >= old(self)@.total_supply,
    {
        if live > self.total_supply.0 {
            if self.index.0.checked_mul(live).is_none() {
                return Err(LedgerError::Overflow);
            }
            self.total_supply = Balance(live);
        }
        Ok(())
    }

    /// Cycles `d` may take out, valued against the cycles the vault actually
    /// holds; stray cycles are salvaged first.
    pub fn withdrawable_of(&mut self, d: &PrincipalId, live: u128) -> (r: Result<Balance, LedgerError>)
        requires
            old(self).wf(),
        ensures
            final(self).wf(),
            r is Ok <==> old(self)@.can_salvage(live as nat),
            r is Ok ==> final(self)@ == old(self)@.salvage(live as nat) && r->Ok_0.0
                == old(self)@.withdrawable_of(d@, live as nat),
            r is Err ==> final(self)@ == old(self)@,
    {
        let s = self.salvage_stray_cycles(live);
        if s.is_err() {
            return Err(LedgerError::Overflow);
        }
        let share = self.share_of(d);
        proof {
            lemma_mul_upper_bound(share.0 as int, self.index.0 as int, live as int, self.total_supply.0 as int);
        }
        Ok(share.to_balance(&self.index, &Balance(live)))
    }

    /// `d` takes out `delta` cycles: granted exactly when `delta` is within
    /// what `d` may take against the cycles actually held. A refused
    /// withdrawal changes nothing.
    pub fn withdraw(&mut self, d: &PrincipalId, delta: &Balance, live: u128) -> (r: Result<(), LedgerError>)
        requires
            old(self).wf(),
        ensures
            final(self).wf(),
            final(self)@ == old(self)@.withdraw(d@, delta.0 as nat, live as nat),
            r is Ok <==> old(self)@.can_withdraw(d@, delta.0 as nat, live as nat),
            r == Err::<(), LedgerError>(LedgerError::Overflow) <==> !old(self)@.can_salvage(live as nat),
            r == Err::<(), LedgerError>(LedgerError::InsufficientBalance) <==> (old(self)@.can_salvage(
                live as nat) && delta.0 > old(self)@.withdrawable_of(d@, live as nat)),
    {
        let ghost v = self@;
        if live > self.total_supply.0 && self.index.0.checked_mul(live).is_none() {
            return Err(LedgerError::Overflow);
        }
        let share = self.share_of(d);
        proof {
            lemma_salvage_wf(v, live as nat);
            lemma_mul_upper_bound(share.0 as int, self.index.0 as int, live as int, v.salvage(live as nat).total_supply as int);
        }
        let withdrawable = share.to_balance(&self.index, &Balance(live));
        if delta.0 > withdrawable.0 {
            return Err(LedgerError::InsufficientBalance);
        }
        proof {
            lemma_withdraw_can_burn(v, d@, delta.0 as nat, live as nat);
        }
        let s = self.salvage_stray_cycles(live);
        let b = self.decrease_index(delta, d);
        assert(b is Ok);
        Ok(())
    }
}

} // verus!
