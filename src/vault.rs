//! The vault: the share ledger plus refueling of sibling programs, the audit
//! of cycles handed out, and snapshots of the triplet's cycle balances.
use vstd::prelude::*;
use crate::ledger::{
    LedgerView, Index,
    keys_unique, lemma_pos_of, lemma_pos_of_unique, lemma_with_share, share_in, with_share,
    entry_view, keys_distinct, Balance, LedgerError, ShareLedger,
};
use crate::principal::PrincipalId;

verus! {

/// A sibling program that the vault keeps funded: when its balance is at or
/// below `threshold`, it receives exactly `amount` cycles.
#[derive(Debug)]
pub struct RefuelTarget {
    pub id: PrincipalId,
    pub amount: u128,
    pub threshold: u128,
}

/// The triplet's cycles at one moment.
#[derive(Clone, Copy, Debug, PartialEq, Eq, Structural)]
pub struct ComponentMetricsSnapshot {
    pub timestamp: u64,
    pub cycles: u128,
}

/// The cycle balance observed for one program.
#[derive(Debug)]
pub struct CycleBalance {
    pub id: PrincipalId,
    pub amount: u128,
}

#[derive(Clone, Copy, Debug, PartialEq, Eq, Structural)]
pub enum VaultError {
    Ledger(LedgerError),
    /// The caller is not a controller of the vault.
    NotPermitted,
    /// No snapshot has been taken yet.
    NoMetrics,
    /// A cumulative counter would exceed 128 bits.
    Overflow,
}

pub open spec fn target_view(t: RefuelTarget) -> (Seq<u8>, u128, u128) {
    (t.id@, t.amount, t.threshold)
}

/// Whether a target whose balance was observed as `observed` (nothing when
/// the observation failed) is to be refueled: only a balance above the
/// threshold is left alone.
pub open spec fn refuel_due(threshold: u128, observed: Option<u128>) -> bool {
    match observed {
        Some(b) => b <= threshold,
        None => true,
    }
}

/// The cumulative counters after each (target, amount) dispense in turn.
pub open spec fn replay_dispenses(c: Seq<(Seq<u8>, nat)>, ds: Seq<(Seq<u8>, nat)>) -> Seq<(Seq<u8>, nat)>
    decreases ds.len(),
{
    if ds.len() == 0 {
        c
    } else {
        let p = replay_dispenses(c, ds.drop_last());
        with_share(p, ds.last().0, share_in(p, ds.last().0) + ds.last().1)
    }
}

/// The cycles dispensed to `t` among `ds`.
pub open spec fn dispensed_to(ds: Seq<(Seq<u8>, nat)>, t: Seq<u8>) -> nat
    decreases ds.len(),
{
    if ds.len() == 0 {
        0
    } else {
        dispensed_to(ds.drop_last(), t) + if ds.last().0 == t {
            ds.last().1
        } else {
            0
        }
    }
}

/// After any sequence of successful dispenses, each target's cumulative
/// counter equals what it held before plus the sum of the dispenses to it.
pub proof fn lemma_cumulative_is_sum_of_dispenses(
    c: Seq<(Seq<u8>, nat)>,
    ds: Seq<(Seq<u8>, nat)>,
    t: Seq<u8>,
)
    requires
        keys_unique(c),
    ensures
        keys_unique(replay_dispenses(c, ds)),
        share_in(replay_dispenses(c, ds), t) == share_in(c, t) + dispensed_to(ds, t),
    decreases ds.len(),
{
    if ds.len() > 0 {
        lemma_cumulative_is_sum_of_dispenses(c, ds.drop_last(), t);
        let p = replay_dispenses(c, ds.drop_last());
        lemma_with_share(p, ds.last().0, share_in(p, ds.last().0) + ds.last().1);
    }
}

impl RefuelTarget {
    pub fn duplicate(&self) -> (r: RefuelTarget)
        ensures
            target_view(r) == target_view(*self),
    {
        RefuelTarget { id: self.id.duplicate(), amount: self.amount, threshold: self.threshold }
    }

    /// Whether this target is to be refueled after its balance was observed
    /// as `observed` (`None`: the observation failed).
    pub fn needs_refuel(&self, observed: Option<u128>) -> (r: bool)
        ensures
            r == refuel_due(self.threshold, observed),
    {
        match observed {
            Some(b) => b <= self.threshold,
            None => true,
        }
    }

    /// Cycles to dispense to this target in one tick: exactly `amount` when
    /// it is due, nothing otherwise.
    pub fn dispense_for(&self, observed: Option<u128>) -> (r: u128)
        ensures
            refuel_due(self.threshold, observed) ==> r == self.amount,
            !refuel_due(self.threshold, observed) ==> r == 0,
    {
        if self.needs_refuel(observed) {
            self.amount
        } else {
            0
        }
    }
}

impl CycleBalance {
    pub fn duplicate(&self) -> (r: CycleBalance)
        ensures
            r.id@ == self.id@,
            r.amount == self.amount,
    {
        CycleBalance { id: self.id.duplicate(), amount: self.amount }
    }
}

pub open spec fn sum_cycles(s: Seq<CycleBalance>) -> nat
    decreases s.len(),
{
    if s.len() == 0 {
        0
    } else {
        sum_cycles(s.drop_last()) + s.last().amount as nat
    }
}

/// The sum of the observed balances; `None` when it exceeds 128 bits.
pub fn total_cycles(balances: &Vec<CycleBalance>) -> (r: Option<u128>)
    ensures
        match r {
            Some(x) => x == sum_cycles(balances@),
            None => sum_cycles(balances@) > u128::MAX,
        },
{
    let mut acc: u128 = 0;
    let mut i: usize = 0;
    while i < balances.len()
        invariant
            i <= balances@.len(),
            acc == sum_cycles(balances@.subrange(0, i as int)),
        decreases balances@.len() - i,
    {
        assert(balances@.subrange(0, i + 1).drop_last() =~= balances@.subrange(0, i as int));
        match acc.checked_add(balances[i].amount) {
            Some(x) => {
                acc = x;
            },
            None => {
                proof {
                    lemma_sum_cycles_prefix(balances@, i + 1);
                }
                return None;
            },
        }
        i = i + 1;
    }
    assert(balances@.subrange(0, i as int) =~= balances@);
    Some(acc)
}

proof fn lemma_sum_cycles_prefix(s: Seq<CycleBalance>, k: int)
    requires
        0 <= k <= s.len(),
    ensures
        sum_cycles(s.subrange(0, k)) <= sum_cycles(s),
    decreases s.len(),
{
    if k < s.len() {
        lemma_sum_cycles_prefix(s.drop_last(), k);
        assert(s.drop_last().subrange(0, k) =~= s.subrange(0, k));
    } else {
        assert(s.subrange(0, k) =~= s);
    }
}

/// The snapshot a monitoring tick records: the sum of the balances it
/// observed, taken at `timestamp`; `None` when the sum exceeds 128 bits.
pub fn monitoring_snapshot(timestamp: u64, balances: &Vec<CycleBalance>) -> (r: Option<ComponentMetricsSnapshot>)
    ensures
        match r {
            Some(s) => s.timestamp == timestamp && s.cycles == sum_cycles(balances@),
            None => sum_cycles(balances@) > u128::MAX,
        },
{
    match total_cycles(balances) {
        Some(cycles) => Some(ComponentMetricsSnapshot { timestamp, cycles }),
        None => None,
    }
}

/// Seconds from `now_secs` to the next multiple of `interval_secs` (zero
/// when `now_secs` is one): the first monitoring tick is phase aligned.
pub fn first_monitoring_delay(now_secs: u64, interval_secs: u64) -> (r: u64)
    requires
        interval_secs > 0,
    ensures
        r < interval_secs,
        (now_secs + r) % (interval_secs as int) == 0,
{
    let rem = now_secs % interval_secs;
    if rem == 0 {
        0
    } else {
        proof {
            vstd::arithmetic::div_mod::lemma_fundamental_div_mod(now_secs as int, interval_secs as int);
            let q = now_secs as int / interval_secs as int;
            assert(now_secs + (interval_secs - rem) == interval_secs * q + interval_secs);
            vstd::arithmetic::div_mod::lemma_mod_multiples_basic(q + 1, interval_secs as int);
            vstd::arithmetic::mul::lemma_mul_is_distributive_add(interval_secs as int, q, 1);
            vstd::arithmetic::mul::lemma_mul_is_commutative(interval_secs as int, q + 1);
        }
        interval_secs - rem
    }
}

pub open spec fn ids_unique(ts: Seq<(Seq<u8>, u128, u128)>) -> bool {
    forall|i: int, j: int| 0 <= i < j < ts.len() ==> ts[i].0 != ts[j].0
}

/// The targets with `t` put in: it replaces the entry with its id, in
/// place, or is appended.
pub open spec fn upserted(ts: Seq<(Seq<u8>, u128, u128)>, t: (Seq<u8>, u128, u128)) -> Seq<
    (Seq<u8>, u128, u128),
> {
    if exists|i: int| 0 <= i < ts.len() && ts[i].0 == t.0 {
        ts.update(choose|i: int| 0 <= i < ts.len() && ts[i].0 == t.0, t)
    } else {
        ts.push(t)
    }
}

pub open spec fn upserted_all(ts: Seq<(Seq<u8>, u128, u128)>, news: Seq<(Seq<u8>, u128, u128)>) -> Seq<
    (Seq<u8>, u128, u128),
>
    decreases news.len(),
{
    if news.len() == 0 {
        ts
    } else {
        upserted(upserted_all(ts, news.drop_last()), news.last())
    }
}

/// Whether every dispense of `ds`, booked in turn onto `c`, keeps its
/// target's counter within 128 bits.
pub open spec fn dispenses_fit(c: Seq<(Seq<u8>, nat)>, ds: Seq<(Seq<u8>, nat)>) -> bool {
    forall|k: int|
        0 <= k < ds.len() ==> #[trigger] share_in(replay_dispenses(c, ds.subrange(0, k)), ds[k].0)
            + ds[k].1 <= u128::MAX
}

/// The vault's whole state: the ledger, the refuel targets in the order
/// they were first put, the cumulative cycles dispensed to each target,
/// the metrics snapshots oldest first, and the program it serves.
#[derive(Debug)]
pub struct VaultState {
    ledger: ShareLedger,
    refuel_targets: Vec<RefuelTarget>,
    cumulative: Vec<(PrincipalId, u128)>,
    metrics: Vec<ComponentMetricsSnapshot>,
    target: PrincipalId,
}

impl VaultState {
    pub closed spec fn targets(&self) -> Seq<(Seq<u8>, u128, u128)> {
        self.refuel_targets@.map_values(|t: RefuelTarget| target_view(t))
    }

    pub closed spec fn cumulative(&self) -> Seq<(Seq<u8>, nat)> {
        self.cumulative@.map_values(|e: (PrincipalId, u128)| entry_view(e))
    }

    pub closed spec fn snapshots(&self) -> Seq<ComponentMetricsSnapshot> {
        self.metrics@
    }

    pub closed spec fn target_id(&self) -> Seq<u8> {
        self.target@
    }

    pub closed spec fn ledger_view(&self) -> LedgerView {
        self.ledger@
    }

    pub open spec fn wf(&self) -> bool {
        &&& self.ledger_view().wf()
        &&& ids_unique(self.targets())
        &&& keys_unique(self.cumulative())
    }

    /// A vault for `target`: `deployer` is credited with `initial_supply`,
    /// the refuel targets are put in order, and the cycles each sibling was
    /// already given are booked as dispensed.
    pub fn new(
        target: PrincipalId,
        deployer: &PrincipalId,
        initial_supply: &Balance,
        refuel_targets: &Vec<RefuelTarget>,
        initial_refueled: &Vec<(PrincipalId, u128)>,
    ) -> (r: Result<VaultState, VaultError>)
        ensures
            r is Ok <==> (ShareLedger::empty_view().can_deposit(initial_supply.0 as nat)
                && dispenses_fit(Seq::empty(), initial_refueled@.map_values(|e: (PrincipalId, u128)| entry_view(e)))),
            !ShareLedger::empty_view().can_deposit(initial_supply.0 as nat) ==> r == Err::<
                VaultState,
                VaultError,
            >(VaultError::Ledger(LedgerError::Overflow)),
            r is Ok ==> {
                let v = r->Ok_0;
                &&& v.wf()
                &&& v.ledger_view() == ShareLedger::empty_view().deposit(deployer@, initial_supply.0 as nat)
                &&& v.targets() == upserted_all(Seq::empty(), refuel_targets@.map_values(|t: RefuelTarget| target_view(t)))
                &&& v.cumulative() == replay_dispenses(Seq::empty(), initial_refueled@.map_values(|e: (PrincipalId, u128)| entry_view(e)))
                &&& v.snapshots().len() == 0
                &&& v.target_id() == target@
            },
    {
        let mut ledger = ShareLedger::new();
        assert(ledger@ == ShareLedger::empty_view());
        if ledger.increase_index(initial_supply, deployer).is_err() {
            return Err(VaultError::Ledger(LedgerError::Overflow));
        }
        let mut v = VaultState {
            ledger,
            refuel_targets: Vec::new(),
            cumulative: Vec::new(),
            metrics: Vec::new(),
            target,
        };
        assert(v.targets() =~= Seq::empty());
        assert(v.cumulative() =~= Seq::empty());
        let ghost news = refuel_targets@.map_values(|t: RefuelTarget| target_view(t));
        let mut i: usize = 0;
        while i < refuel_targets.len()
            invariant
                i <= refuel_targets@.len(),
                news == refuel_targets@.map_values(|t: RefuelTarget| target_view(t)),
                v.wf(),
                v.targets() == upserted_all(Seq::empty(), news.subrange(0, i as int)),
                v.cumulative() =~= Seq::<(Seq<u8>, nat)>::empty(),
                v.snapshots().len() == 0,
                v.target_id() == target@,
                v.ledger_view() == ShareLedger::empty_view().deposit(deployer@, initial_supply.0 as nat),
            decreases refuel_targets@.len() - i,
        {
            assert(news.subrange(0, i + 1).drop_last() =~= news.subrange(0, i as int));
            v.upsert_refuel_target(refuel_targets[i].duplicate());
            i = i + 1;
        }
        assert(news.subrange(0, i as int) =~= news);
        let ghost ds = initial_refueled@.map_values(|e: (PrincipalId, u128)| entry_view(e));
        let mut j: usize = 0;
        while j < initial_refueled.len()
            invariant
                j <= initial_refueled@.len(),
                ds == initial_refueled@.map_values(|e: (PrincipalId, u128)| entry_view(e)),
                v.wf(),
                v.targets() == upserted_all(Seq::empty(), news),
                v.cumulative() == replay_dispenses(Seq::empty(), ds.subrange(0, j as int)),
                dispenses_fit(Seq::empty(), ds.subrange(0, j as int)),
                v.snapshots().len() == 0,
                v.target_id() == target@,
                v.ledger_view() == ShareLedger::empty_view().deposit(deployer@, initial_supply.0 as nat),
            decreases initial_refueled@.len() - j,
        {
            assert(ds.subrange(0, j + 1).drop_last() =~= ds.subrange(0, j as int));
            assert(ds.subrange(0, j as int) =~= ds.subrange(0, j + 1).subrange(0, j as int));
            let ghost before = v.cumulative();
            let rec = v.record_cumulative_refueled(&initial_refueled[j as usize].0, initial_refueled[j as usize].1);
            if rec.is_err() {
                proof {
                    assert(share_in(replay_dispenses(Seq::empty(), ds.subrange(0, j as int)), ds[j as int].0)
                        + ds[j as int].1 > u128::MAX);
                    assert(!dispenses_fit(Seq::empty(), ds));
                }
                return Err(VaultError::Overflow);
            }
            proof {
                assert forall|k: int| 0 <= k < j + 1 implies #[trigger] share_in(
                    replay_dispenses(Seq::empty(), ds.subrange(0, j + 1).subrange(0, k)),
                    ds.subrange(0, j + 1)[k].0,
                ) + ds.subrange(0, j + 1)[k].1 <= u128::MAX by {
                    assert(ds.subrange(0, j + 1).subrange(0, k) =~= ds.subrange(0, k));
                    if k < j {
                        assert(ds.subrange(0, j as int).subrange(0, k) =~= ds.subrange(0, k));
                        assert(ds.subrange(0, j as int)[k] == ds[k]);
                    }
                }
            }
            j = j + 1;
        }
        assert(ds.subrange(0, j as int) =~= ds);
        Ok(v)
    }

    /// A vault read back from durable storage; `None` unless target ids
    /// and counter keys are each distinct.
    pub fn restore(
        ledger: ShareLedger,
        refuel_targets: Vec<RefuelTarget>,
        cumulative: Vec<(PrincipalId, u128)>,
        metrics: Vec<ComponentMetricsSnapshot>,
        target: PrincipalId,
    ) -> (r: Option<VaultState>)
        requires
            ledger.wf(),
        ensures
            r is Some <==> (ids_unique(refuel_targets@.map_values(|t: RefuelTarget| target_view(t)))
                && keys_unique(cumulative@.map_values(|e: (PrincipalId, u128)| entry_view(e)))),
            r is Some ==> {
                let v = r->Some_0;
                &&& v.wf()
                &&& v.ledger_view() == ledger@
                &&& v.targets() == refuel_targets@.map_values(|t: RefuelTarget| target_view(t))
                &&& v.cumulative() == cumulative@.map_values(|e: (PrincipalId, u128)| entry_view(e))
                &&& v.snapshots() == metrics@
                &&& v.target_id() == target@
            },
    {
        if !keys_distinct(&cumulative) {
            return None;
        }
        let ghost ts = refuel_targets@.map_values(|t: RefuelTarget| target_view(t));
        let mut i: usize = 0;
        while i < refuel_targets.len()
            invariant
                i <= refuel_targets@.len(),
                ts == refuel_targets@.map_values(|t: RefuelTarget| target_view(t)),
                forall|a: int, b: int| 0 <= a < b < i ==> ts[a].0 != ts[b].0,
            decreases refuel_targets@.len() - i,
        {
            let mut j: usize = 0;
            while j < i
                invariant
                    j <= i < refuel_targets@.len(),
                    ts == refuel_targets@.map_values(|t: RefuelTarget| target_view(t)),
                    forall|a: int, b: int| 0 <= a < b < i ==> ts[a].0 != ts[b].0,
                    forall|a: int| 0 <= a < j ==> ts[a].0 != ts[i as int].0,
                decreases i - j,
            {
                assert(ts[j as int].0 == refuel_targets@[j as int].id@ && ts[i as int].0 == refuel_targets@[i as int].id@);
                if refuel_targets[j].id.same_as(&refuel_targets[i].id) {
                    return None;
                }
                j = j + 1;
            }
            i = i + 1;
        }
        Some(VaultState { ledger, refuel_targets, cumulative, metrics, target })
    }

    /// Every depositor's shares, in order of first deposit.
    pub fn ledger_entries(&self) -> (r: Vec<(PrincipalId, u128)>)
        ensures
            r@.map_values(|e: (PrincipalId, u128)| entry_view(e)) == self.ledger_view().entries,
    {
        self.ledger.entries()
    }

    /// Every snapshot, oldest first.
    pub fn all_metrics(&self) -> (r: Vec<ComponentMetricsSnapshot>)
        ensures
            r@ == self.snapshots(),
    {
        let mut r: Vec<ComponentMetricsSnapshot> = Vec::new();
        let mut i: usize = 0;
        while i < self.metrics.len()
            invariant
                i <= self.metrics@.len(),
                r@ == self.metrics@.subrange(0, i as int),
            decreases self.metrics@.len() - i,
        {
            r.push(self.metrics[i]);
            i = i + 1;
        }
        assert(self.metrics@.subrange(0, i as int) =~= self.metrics@);
        r
    }

    /// Puts a refuel target: replaces the one with the same id, in place,
    /// or appends it.
    pub fn upsert_refuel_target(&mut self, t: RefuelTarget)
        requires
            old(self).wf(),
        ensures
            final(self).wf(),
            final(self).targets() == upserted(old(self).targets(), target_view(t)),
            final(self).cumulative() == old(self).cumulative(),
            final(self).snapshots() == old(self).snapshots(),
            final(self).target_id() == old(self).target_id(),
            final(self).ledger_view() == old(self).ledger_view(),
    {
        let ghost ts = self.targets();
        let ghost tv = target_view(t);
        let mut i: usize = 0;
        while i < self.refuel_targets.len()
            invariant
                i <= self.refuel_targets@.len(),
                ts == self.targets(),
                ts == old(self).targets(),
                tv == target_view(t),
                forall|k: int| 0 <= k < i ==> ts[k].0 != tv.0,
                self.wf(),
                self.cumulative() == old(self).cumulative(),
                self.snapshots() == old(self).snapshots(),
                self.target_id() == old(self).target_id(),
                self.ledger_view() == old(self).ledger_view(),
            decreases self.refuel_targets@.len() - i,
        {
            assert(ts[i as int] == target_view(self.refuel_targets@[i as int]));
            if self.refuel_targets[i].id.same_as(&t.id) {
                proof {
                    let c = choose|k: int| 0 <= k < ts.len() && ts[k].0 == tv.0;
                    assert(ts[i as int].0 == tv.0);
                    assert(c == i);
                }
                self.refuel_targets.set(i, t);
                assert(self.targets() =~= ts.update(i as int, tv));
                assert(exists|k: int| 0 <= k < ts.len() && ts[k].0 == tv.0);
                assert(upserted(ts, tv) == ts.update(i as int, tv));
                assert(ids_unique(self.targets())) by {
                    assert forall|a: int, b: int| 0 <= a < b < self.targets().len() implies
                        self.targets()[a].0 != self.targets()[b].0 by {
                        assert(ts[a].0 == self.targets()[a].0);
                        assert(ts[b].0 == self.targets()[b].0);
                    }
                }
                return;
            }
            i = i + 1;
        }
        self.refuel_targets.push(t);
        assert(self.targets() =~= ts.push(tv));
        assert(upserted(ts, tv) == ts.push(tv));
        assert(!(exists|k: int| 0 <= k < ts.len() && ts[k].0 == tv.0));
        assert(ids_unique(self.targets())) by {
            assert forall|a: int, b: int| 0 <= a < b < self.targets().len() implies
                self.targets()[a].0 != self.targets()[b].0 by {
                if b < ts.len() {
                    assert(ts[a].0 == self.targets()[a].0);
                    assert(ts[b].0 == self.targets()[b].0);
                }
            }
        }
    }

    /// Puts a refuel target on behalf of a caller; only a controller of the
    /// vault may.
    pub fn put_refuel_target(&mut self, caller_is_controller: bool, t: RefuelTarget) -> (r: Result<(), VaultError>)
        requires
            old(self).wf(),
        ensures
            final(self).wf(),
            r is Ok <==> caller_is_controller,
            r is Ok ==> final(self).targets() == upserted(old(self).targets(), target_view(t)),
            r is Err ==> r == Err::<(), VaultError>(VaultError::NotPermitted) && final(self).targets()
                == old(self).targets(),
            final(self).cumulative() == old(self).cumulative(),
            final(self).snapshots() == old(self).snapshots(),
            final(self).target_id() == old(self).target_id(),
            final(self).ledger_view() == old(self).ledger_view(),
    {
        if !caller_is_controller {
            return Err(VaultError::NotPermitted);
        }
        self.upsert_refuel_target(t);
        Ok(())
    }

    /// The refuel targets, in the order they were first put.
    pub fn get_refuel_targets(&self) -> (r: Vec<RefuelTarget>)
        ensures
            r@.map_values(|t: RefuelTarget| target_view(t)) == self.targets(),
    {
        let mut r: Vec<RefuelTarget> = Vec::new();
        let mut i: usize = 0;
        while i < self.refuel_targets.len()
            invariant
                i <= self.refuel_targets@.len(),
                r@.len() == i,
                self.targets().len() == self.refuel_targets@.len(),
                forall|k: int| 0 <= k < i ==> target_view(#[trigger] r@[k]) == self.targets()[k],
            decreases self.refuel_targets@.len() - i,
        {
            r.push(self.refuel_targets[i].duplicate());
            assert(self.targets()[i as int] == target_view(self.refuel_targets@[i as int]));
            i = i + 1;
        }
        assert(r@.map_values(|t: RefuelTarget| target_view(t)) =~= self.targets());
        r
    }

    fn cumulative_position(&self, t: &PrincipalId) -> (r: Option<usize>)
        ensures
            match r {
                Some(i) => i < self.cumulative().len() && self.cumulative()[i as int].0 == t@,
                None => forall|j: int| 0 <= j < self.cumulative().len() ==> self.cumulative()[j].0 != t@,
            },
    {
        let mut i: usize = 0;
        while i < self.cumulative.len()
            invariant
                i <= self.cumulative@.len(),
                forall|j: int| 0 <= j < i ==> self.cumulative()[j].0 != t@,
            decreases self.cumulative@.len() - i,
        {
            assert(self.cumulative()[i as int] == entry_view(self.cumulative@[i as int]));
            if self.cumulative[i].0.same_as(t) {
                return Some(i);
            }
            i = i + 1;
        }
        None
    }

    /// Cycles dispensed to `t` so far; zero for a program never refueled.
    pub fn get_cumulative_refueled(&self, t: &PrincipalId) -> (r: u128)
        requires
            self.wf(),
        ensures
            r == share_in(self.cumulative(), t@),
    {
        proof {
            lemma_pos_of(self.cumulative(), t@);
        }
        match self.cumulative_position(t) {
            Some(i) => {
                proof {
                    lemma_pos_of_unique(self.cumulative(), t@, i as int);
                }
                self.cumulative[i].1
            },
            None => 0,
        }
    }

    /// Every target's cumulative counter, in the order first booked.
    pub fn get_cumulative_refueled_all(&self) -> (r: Vec<(PrincipalId, u128)>)
        ensures
            r@.map_values(|e: (PrincipalId, u128)| entry_view(e)) == self.cumulative(),
    {
        let mut r: Vec<(PrincipalId, u128)> = Vec::new();
        let mut i: usize = 0;
        while i < self.cumulative.len()
            invariant
                i <= self.cumulative@.len(),
                r@.len() == i,
                self.cumulative().len() == self.cumulative@.len(),
                forall|k: int| 0 <= k < i ==> entry_view(#[trigger] r@[k]) == self.cumulative()[k],
            decreases self.cumulative@.len() - i,
        {
            r.push((self.cumulative[i].0.duplicate(), self.cumulative[i].1));
            assert(self.cumulative()[i as int] == entry_view(self.cumulative@[i as int]));
            i = i + 1;
        }
        assert(r@.map_values(|e: (PrincipalId, u128)| entry_view(e)) =~= self.cumulative());
        r
    }

    /// Books `amount` cycles as dispensed to `t`.
    pub fn record_cumulative_refueled(&mut self, t: &PrincipalId, amount: u128) -> (r: Result<(), VaultError>)
        requires
            old(self).wf(),
        ensures
            final(self).wf(),
            r is Ok <==> share_in(old(self).cumulative(), t@) + amount <= u128::MAX,
            r is Ok ==> final(self).cumulative() == with_share(
                old(self).cumulative(),
                t@,
                share_in(old(self).cumulative(), t@) + amount as nat,
            ),
            r is Err ==> r == Err::<(), VaultError>(VaultError::Overflow) && final(self).cumulative()
                == old(self).cumulative(),
            final(self).targets() == old(self).targets(),
            final(self).snapshots() == old(self).snapshots(),
            final(self).target_id() == old(self).target_id(),
            final(self).ledger_view() == old(self).ledger_view(),
    {
        let ghost c = self.cumulative();
        let before = self.get_cumulative_refueled(t);
        let after = match before.checked_add(amount) {
            Some(x) => x,
            None => {
                return Err(VaultError::Overflow);
            },
        };
        proof {
            lemma_pos_of(c, t@);
            lemma_with_share(c, t@, after as nat);
        }
        match self.cumulative_position(t) {
            Some(i) => {
                proof {
                    lemma_pos_of_unique(c, t@, i as int);
                }
                self.cumulative.set(i, (t.duplicate(), after));
                assert(self.cumulative() =~= c.update(i as int, (t@, after as nat)));
            },
            None => {
                self.cumulative.push((t.duplicate(), after));
                assert(self.cumulative() =~= c.push((t@, after as nat)));
            },
        }
        Ok(())
    }

    /// Appends a metrics snapshot.
    pub fn add_component_metrics_snapshot(&mut self, datum: ComponentMetricsSnapshot)
        requires
            old(self).wf(),
        ensures
            final(self).wf(),
            final(self).snapshots() == old(self).snapshots().push(datum),
            final(self).target_id() == old(self).target_id(),
            final(self).targets() == old(self).targets(),
            final(self).cumulative() == old(self).cumulative(),
            final(self).ledger_view() == old(self).ledger_view(),
    {
        self.metrics.push(datum);
    }

    /// The latest snapshot.
    pub fn metric(&self) -> (r: Result<ComponentMetricsSnapshot, VaultError>)
        ensures
            self.snapshots().len() == 0 ==> r == Err::<ComponentMetricsSnapshot, VaultError>(VaultError::NoMetrics),
            self.snapshots().len() > 0 ==> r == Ok::<ComponentMetricsSnapshot, VaultError>(self.snapshots().last()),
    {
        if self.metrics.len() == 0 {
            return Err(VaultError::NoMetrics);
        }
        Ok(self.metrics[self.metrics.len() - 1])
    }

    /// The last `n` snapshots (all of them when fewer), newest first.
    pub fn metrics(&self, n: u64) -> (r: Vec<ComponentMetricsSnapshot>)
        ensures
            r@.len() == if n < self.snapshots().len() { n as int } else { self.snapshots().len() as int },
            forall|k: int| 0 <= k < r@.len() ==> r@[k] == self.snapshots()[self.snapshots().len() - 1 - k],
    {
        let len = self.metrics.len();
        let mut r: Vec<ComponentMetricsSnapshot> = Vec::new();
        let mut i: usize = 0;
        while i < len && (i as u64) < n
            invariant
                len == self.metrics@.len(),
                i <= len,
                i as int <= n,
                r@.len() == i,
                forall|k: int| 0 <= k < i ==> r@[k] == self.metrics@[len - 1 - k],
            decreases len - i,
        {
            r.push(self.metrics[len - i - 1]);
            i = i + 1;
        }
        r
    }

    /// The program this vault serves.
    pub fn target_canister(&self) -> (r: PrincipalId)
        ensures
            r@ == self.target_id(),
    {
        self.target.duplicate()
    }

    pub fn set_canister(&mut self, p: PrincipalId)
        requires
            old(self).wf(),
        ensures
            final(self).wf(),
            final(self).target_id() == p@,
            final(self).targets() == old(self).targets(),
            final(self).cumulative() == old(self).cumulative(),
            final(self).snapshots() == old(self).snapshots(),
            final(self).ledger_view() == old(self).ledger_view(),
    {
        self.target = p;
    }

    pub fn share_of(&self, d: &PrincipalId) -> (r: Index)
        requires
            self.wf(),
        ensures
            r.0 == self.ledger_view().share_of(d@),
    {
        self.ledger.share_of(d)
    }

    pub fn balance_of(&self, d: &PrincipalId) -> (r: Balance)
        requires
            self.wf(),
        ensures
            r.0 == self.ledger_view().balance_of(d@),
            r.0 <= self.ledger_view().total_supply,
    {
        self.ledger.balance_of(d)
    }

    pub fn total_supply(&self) -> (r: Balance)
        ensures
            r.0 == self.ledger_view().total_supply,
    {
        self.ledger.total_supply()
    }

    pub fn index(&self) -> (r: Index)
        ensures
            r.0 == self.ledger_view().index,
    {
        self.ledger.index()
    }

    /// See [`ShareLedger::increase_index`].
    pub fn increase_index(&mut self, delta: &Balance, d: &PrincipalId) -> (r: Result<(), LedgerError>)
        requires
            old(self).wf(),
        ensures
            final(self).wf(),
            r is Ok <==> old(self).ledger_view().can_deposit(delta.0 as nat),
            r is Ok ==> final(self).ledger_view() == old(self).ledger_view().deposit(d@, delta.0 as nat),
            r is Err ==> final(self).ledger_view() == old(self).ledger_view(),
            final(self).targets() == old(self).targets(),
            final(self).cumulative() == old(self).cumulative(),
            final(self).snapshots() == old(self).snapshots(),
            final(self).target_id() == old(self).target_id(),
    {
        self.ledger.increase_index(delta, d)
    }

    /// See [`ShareLedger::decrease_index`].
    pub fn decrease_index(&mut self, delta: &Balance, d: &PrincipalId) -> (r: Result<(), LedgerError>)
        requires
            old(self).wf(),
        ensures
            final(self).wf(),
            r is Ok <==> old(self).ledger_view().can_burn(d@, delta.0 as nat),
            r is Ok ==> final(self).ledger_view() == old(self).ledger_view().burn(d@, delta.0 as nat),
            r is Err ==> final(self).ledger_view() == old(self).ledger_view(),
            final(self).targets() == old(self).targets(),
            final(self).cumulative() == old(self).cumulative(),
            final(self).snapshots() == old(self).snapshots(),
            final(self).target_id() == old(self).target_id(),
    {
        self.ledger.decrease_index(delta, d)
    }

    /// See [`ShareLedger::add_total_supply`].
    pub fn add_total_supply(&mut self, value: &Balance, neg: bool) -> (r: Result<(), LedgerError>)
        requires
            old(self).wf(),
        ensures
            final(self).wf(),
            final(self).ledger_view().entries == old(self).ledger_view().entries,
            final(self).ledger_view().index == old(self).ledger_view().index,
            neg ==> (r is Ok <==> value.0 <= old(self).ledger_view().total_supply),
            !neg ==> (r is Ok <==> (old(self).ledger_view().total_supply + value.0 <= u128::MAX
                && old(self).ledger_view().index * (old(self).ledger_view().total_supply + value.0) <= u128::MAX)),
            r is Ok ==> final(self).ledger_view().total_supply == if neg {
                old(self).ledger_view().total_supply - value.0
            } else {
                old(self).ledger_view().total_supply + value.0
            },
            r is Err ==> final(self).ledger_view() == old(self).ledger_view(),
            final(self).targets() == old(self).targets(),
            final(self).cumulative() == old(self).cumulative(),
            final(self).snapshots() == old(self).snapshots(),
            final(self).target_id() == old(self).target_id(),
    {
        self.ledger.add_total_supply(value, neg)
    }

    /// See [`ShareLedger::receive_revenue`].
    pub fn receive_revenue(&mut self, accepted: u128) -> (r: Result<(), LedgerError>)
        requires
            old(self).wf(),
        ensures
            final(self).wf(),
            r is Ok <==> old(self).ledger_view().can_receive(accepted as nat),
            r is Ok ==> final(self).ledger_view() == old(self).ledger_view().receive(accepted as nat),
            r is Err ==> final(self).ledger_view() == old(self).ledger_view(),
            accepted == 0 ==> r == Err::<(), LedgerError>(LedgerError::NoCycles),
            final(self).targets() == old(self).targets(),
            final(self).cumulative() == old(self).cumulative(),
            final(self).snapshots() == old(self).snapshots(),
            final(self).target_id() == old(self).target_id(),
    {
        self.ledger.receive_revenue(accepted)
    }

    /// See [`ShareLedger::salvage_stray_cycles`].
    pub fn salvage_stray_cycles(&mut self, live: u128) -> (r: Result<(), LedgerError>)
        requires
            old(self).wf(),
        ensures
            final(self).wf(),
            r is Ok <==> old(self).ledger_view().can_salvage(live as nat),
            r is Ok ==> final(self).ledger_view() == old(self).ledger_view().salvage(live as nat),
            r is Err ==> final(self).ledger_view() == old(self).ledger_view(),
            final(self).ledger_view().total_supply >= old(self).ledger_view().total_supply,
            final(self).targets() == old(self).targets(),
            final(self).cumulative() == old(self).cumulative(),
            final(self).snapshots() == old(self).snapshots(),
            final(self).target_id() == old(self).target_id(),
    {
        self.ledger.salvage_stray_cycles(live)
    }

    /// See [`ShareLedger::withdrawable_of`].
    pub fn withdrawable_of(&mut self, d: &PrincipalId, live: u128) -> (r: Result<Balance, LedgerError>)
        requires
            old(self).wf(),
        ensures
            final(self).wf(),
            r is Ok <==> old(self).ledger_view().can_salvage(live as nat),
            r is Ok ==> final(self).ledger_view() == old(self).ledger_view().salvage(live as nat)
                && r->Ok_0.0 == old(self).ledger_view().withdrawable_of(d@, live as nat),
            r is Err ==> final(self).ledger_view() == old(self).ledger_view(),
            final(self).targets() == old(self).targets(),
            final(self).cumulative() == old(self).cumulative(),
            final(self).snapshots() == old(self).snapshots(),
            final(self).target_id() == old(self).target_id(),
    {
        self.ledger.withdrawable_of(d, live)
    }

    /// The caller takes out `delta` cycles; see [`ShareLedger::withdraw`].
    /// On success the caller is owed `delta` cycles.
    pub fn withdraw(&mut self, caller: &PrincipalId, delta: &Balance, live: u128) -> (r: Result<(), LedgerError>)
        requires
            old(self).wf(),
        ensures
            final(self).wf(),
            final(self).ledger_view() == old(self).ledger_view().withdraw(caller@, delta.0 as nat, live as nat),
            r is Ok <==> old(self).ledger_view().can_withdraw(caller@, delta.0 as nat, live as nat),
            r == Err::<(), LedgerError>(LedgerError::Overflow) <==> !old(self).ledger_view().can_salvage(live as nat),
            r == Err::<(), LedgerError>(LedgerError::InsufficientBalance) <==> (old(self).ledger_view().can_salvage(
                live as nat) && delta.0 > old(self).ledger_view().withdrawable_of(caller@, live as nat)),
            final(self).targets() == old(self).targets(),
            final(self).cumulative() == old(self).cumulative(),
            final(self).snapshots() == old(self).snapshots(),
            final(self).target_id() == old(self).target_id(),
    {
        self.ledger.withdraw(caller, delta, live)
    }

    /// Credits the cycles that came with a call to the nominated depositor,
    /// or to the caller when none is nominated.
    pub fn supply(&mut self, caller: &PrincipalId, nominee: Option<PrincipalId>, accepted: u128) -> (r: Result<(), LedgerError>)
        requires
            old(self).wf(),
        ensures
            final(self).wf(),
            ({
                let d = match nominee {
                    Some(p) => p@,
                    None => caller@,
                };
                &&& r is Ok <==> old(self).ledger_view().can_deposit(accepted as nat)
                &&& r is Ok ==> final(self).ledger_view() == old(self).ledger_view().deposit(d, accepted as nat)
                &&& r is Err ==> final(self).ledger_view() == old(self).ledger_view()
            }),
            final(self).targets() == old(self).targets(),
            final(self).cumulative() == old(self).cumulative(),
            final(self).snapshots() == old(self).snapshots(),
            final(self).target_id() == old(self).target_id(),
    {
        let amount = Balance(accepted);
        match nominee {
            Some(p) => self.ledger.increase_index(&amount, &p),
            None => self.ledger.increase_index(&amount, caller),
        }
    }

    /// The balances a monitoring tick reports: the vault's own first, then
    /// each refuel target's in order.
    pub fn get_cycle_balances(&self, self_id: &PrincipalId, own: u128, observed: &Vec<u128>) -> (r: Vec<CycleBalance>)
        requires
            observed@.len() == self.targets().len(),
        ensures
            r@.len() == observed@.len() + 1,
            r@[0].id@ == self_id@ && r@[0].amount == own,
            forall|k: int|
                1 <= k <= observed@.len() ==> #[trigger] r@[k].id@ == self.targets()[k - 1].0 && r@[k].amount
                    == observed@[k - 1],
    {
        let mut r: Vec<CycleBalance> = Vec::new();
        r.push(CycleBalance { id: self_id.duplicate(), amount: own });
        let mut i: usize = 0;
        while i < observed.len()
            invariant
                i <= observed@.len(),
                observed@.len() == self.targets().len(),
                self.targets().len() == self.refuel_targets@.len(),
                r@.len() == i + 1,
                r@[0].id@ == self_id@ && r@[0].amount == own,
                forall|k: int|
                    1 <= k <= i ==> #[trigger] r@[k].id@ == self.targets()[k - 1].0 && r@[k].amount == observed@[k - 1],
            decreases observed@.len() - i,
        {
            r.push(CycleBalance { id: self.refuel_targets[i].id.duplicate(), amount: observed[i] });
            assert(self.targets()[i as int] == target_view(self.refuel_targets@[i as int]));
            i = i + 1;
        }
        r
    }
}

} // verus!
