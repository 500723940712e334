//! The proxy: the triplet's identities and the indexing scheduler, which
//! calls a method of the target program periodically and survives upgrades.
//!
//! The fabric's timers cannot be kept across an upgrade, so the scheduler
//! here decides and records; the caller arms the timers it is told to.
use vstd::prelude::*;
use crate::principal::{copy_bytes, PrincipalId};

verus! {

/// What the scheduler keeps across upgrades.
#[derive(Debug)]
pub struct IndexingConfig {
    pub task_interval_secs: u32,
    pub method: String,
    pub args: Vec<u8>,
    pub delay_secs: Option<u32>,
    pub is_rounded_start_time: Option<bool>,
}

/// Why an indexing call failed.
#[derive(Debug)]
pub struct Error {
    pub message: String,
}

/// The outcome of the last indexing tick.
#[derive(Debug)]
pub struct ExecutionResult {
    pub is_succeeded: bool,
    pub timestamp: u64,
    pub error: Option<Error>,
}

/// The identities the initializer needs to upgrade a triplet.
#[derive(Debug)]
pub struct ComponentInfo {
    pub target: PrincipalId,
    pub vault: PrincipalId,
    pub db: PrincipalId,
}

#[derive(Clone, Copy, Debug, PartialEq, Eq, Structural)]
pub enum IndexingError {
    /// The caller may not do this.
    NotPermitted,
    /// Indexing was started before.
    AlreadyStarted,
    /// No indexing configuration has been set.
    NotConfigured,
    /// The first firing time cannot be computed: a rounded start with a
    /// zero interval, or a time beyond 32 bits.
    InvalidSchedule,
}

/// The timers to arm.
#[derive(Clone, Copy, Debug, PartialEq, Eq, Structural)]
pub enum TimerPlan {
    /// Arm a one-shot timer for `delay_secs`; when it fires, run one tick
    /// and arm the periodic timer.
    Delayed { delay_secs: u32, interval_secs: u32 },
    /// Run one tick now and arm the periodic timer.
    Immediate { interval_secs: u32 },
}

impl Default for IndexingConfig {
    fn default() -> (r: IndexingConfig)
        ensures
            r.task_interval_secs == 0,
            r.method@.len() == 0,
            r.args@.len() == 0,
            r.delay_secs is None,
            r.is_rounded_start_time is None,
    {
        IndexingConfig {
            task_interval_secs: 0,
            method: String::new(),
            args: Vec::new(),
            delay_secs: None,
            is_rounded_start_time: None,
        }
    }
}

impl IndexingConfig {
    pub fn duplicate(&self) -> (r: IndexingConfig)
        ensures
            r.task_interval_secs == self.task_interval_secs,
            r.method@ == self.method@,
            r.args@ == self.args@,
            r.delay_secs == self.delay_secs,
            r.is_rounded_start_time == self.is_rounded_start_time,
    {
        IndexingConfig {
            task_interval_secs: self.task_interval_secs,
            method: self.method.clone(),
            args: copy_bytes(&self.args),
            delay_secs: self.delay_secs,
            is_rounded_start_time: self.is_rounded_start_time,
        }
    }
}

impl Default for ExecutionResult {
    fn default() -> (r: ExecutionResult)
        ensures
            !r.is_succeeded,
            r.timestamp == 0,
            r.error is None,
    {
        ExecutionResult { is_succeeded: false, timestamp: 0, error: None }
    }
}

impl ExecutionResult {
    pub fn duplicate(&self) -> (r: ExecutionResult)
        ensures
            r.is_succeeded == self.is_succeeded,
            r.timestamp == self.timestamp,
            r.error is Some <==> self.error is Some,
            r.error is Some ==> r.error->Some_0.message@ == self.error->Some_0.message@,
    {
        let error = match &self.error {
            Some(e) => Some(Error { message: e.message.clone() }),
            None => None,
        };
        ExecutionResult { is_succeeded: self.is_succeeded, timestamp: self.timestamp, error }
    }
}

/// Seconds from `current` to the grid point after the one at or before it
/// (grid of step `interval`), plus `delay`.
pub open spec fn aligned_delay(current: int, interval: int, delay: int) -> int {
    (current / interval) * interval + interval + delay - current
}

/// Whether the aligned delay can be computed in 32 bits.
pub open spec fn aligned_delay_fits(current: u32, interval: u32, delay: u32) -> bool {
    interval > 0 && (current / interval) * interval + interval + delay <= u32::MAX
}

/// Seconds to wait before the first tick, aligned to the next multiple of
/// `interval` after `current` and then `delay` seconds more.
pub fn calculate_delay_secs_from_current_secs(current: u32, interval: u32, delay_secs: u32) -> (r: u32)
    requires
        aligned_delay_fits(current, interval, delay_secs),
    ensures
        r == aligned_delay(current as int, interval as int, delay_secs as int),
        r >= delay_secs + 1,
        r <= interval + delay_secs,
{
    proof {
        vstd::arithmetic::div_mod::lemma_fundamental_div_mod(current as int, interval as int);
        vstd::arithmetic::div_mod::lemma_mod_pos_bound(current as int, interval as int);
        vstd::arithmetic::mul::lemma_mul_is_commutative(interval as int, current as int / interval as int);
    }
    let base = current / interval * interval;
    base + interval + delay_secs - current
}

/// The first firing lands `delay` seconds after a grid point: its time is
/// congruent to `delay` modulo the interval.
pub proof fn lemma_rounded_start_phase(current: u32, interval: u32, delay: u32)
    requires
        aligned_delay_fits(current, interval, delay),
    ensures
        (current + aligned_delay(current as int, interval as int, delay as int)) % (interval as int)
            == (delay as int) % (interval as int),
{
    let q = current as int / interval as int;
    let i = interval as int;
    assert(current + aligned_delay(current as int, i, delay as int) == q * i + i + delay);
    vstd::arithmetic::mul::lemma_mul_is_distributive_add_other_way(i, q, 1);
    vstd::arithmetic::div_mod::lemma_mod_multiples_vanish(q + 1, delay as int, i);
    vstd::arithmetic::mul::lemma_mul_is_commutative(i, q + 1);
}

/// The next-schedule time a tick records.
pub open spec fn tick_schedule(now: u32, interval: u32) -> nat {
    now as nat + interval as nat
}

/// A later tick never records an earlier next-schedule time.
pub proof fn lemma_next_schedule_monotone(interval: u32, now1: u32, now2: u32)
    requires
        now1 <= now2,
    ensures
        tick_schedule(now1, interval) <= tick_schedule(now2, interval),
{
}

/// The delay configured, zero when none is.
pub open spec fn delay_or_zero(delay: Option<u32>) -> u32 {
    match delay {
        Some(d) => d,
        None => 0,
    }
}

/// Seconds before the first tick: phase aligned when the start is rounded,
/// else the configured delay.
pub open spec fn effective_delay(now: u32, interval: u32, delay: Option<u32>, rounded: Option<bool>) -> int {
    if rounded == Some(true) {
        aligned_delay(now as int, interval as int, delay_or_zero(delay) as int)
    } else {
        delay_or_zero(delay) as int
    }
}

pub open spec fn schedulable(now: u32, interval: u32, delay: Option<u32>, rounded: Option<bool>) -> bool {
    rounded == Some(true) ==> aligned_delay_fits(now, interval, delay_or_zero(delay))
}

/// The timers that a schedule with that first delay arms.
pub open spec fn plan_for(delay: int, interval: u32) -> TimerPlan {
    if delay > 0 {
        TimerPlan::Delayed { delay_secs: delay as u32, interval_secs: interval }
    } else {
        TimerPlan::Immediate { interval_secs: interval }
    }
}

/// Indexing may be started only while nothing is scheduled.
pub open spec fn start_permitted(next_schedule: u64) -> bool {
    next_schedule == 0
}

/// Once indexing has started at a time after the epoch, any further start
/// is refused.
pub proof fn lemma_start_is_one_shot(now: u32, interval: u32, delay: Option<u32>, rounded: Option<bool>)
    requires
        now > 0,
        schedulable(now, interval, delay, rounded),
    ensures
        !start_permitted((now + effective_delay(now, interval, delay, rounded)) as u64),
{
    if rounded == Some(true) {
        let d = delay_or_zero(delay);
        vstd::arithmetic::div_mod::lemma_fundamental_div_mod(now as int, interval as int);
        vstd::arithmetic::div_mod::lemma_mod_pos_bound(now as int, interval as int);
        vstd::arithmetic::mul::lemma_mul_is_commutative(interval as int, now as int / interval as int);
    }
}

/// The proxy's whole state but its timer handle.
#[derive(Debug)]
pub struct ProxyState {
    target: PrincipalId,
    db: PrincipalId,
    vault: PrincipalId,
    registry: PrincipalId,
    initializer: PrincipalId,
    indexing_config: IndexingConfig,
    last_succeeded: u64,
    last_execution_result: ExecutionResult,
    next_schedule: u64,
}

impl ProxyState {
    pub closed spec fn target_id(&self) -> Seq<u8> {
        self.target@
    }

    pub closed spec fn db_id(&self) -> Seq<u8> {
        self.db@
    }

    pub closed spec fn vault_id(&self) -> Seq<u8> {
        self.vault@
    }

    pub closed spec fn registry_id(&self) -> Seq<u8> {
        self.registry@
    }

    pub closed spec fn initializer_id(&self) -> Seq<u8> {
        self.initializer@
    }

    pub closed spec fn interval(&self) -> u32 {
        self.indexing_config.task_interval_secs
    }

    pub closed spec fn config_method(&self) -> Seq<char> {
        self.indexing_config.method@
    }

    pub closed spec fn config_args(&self) -> Seq<u8> {
        self.indexing_config.args@
    }

    pub closed spec fn config_delay(&self) -> Option<u32> {
        self.indexing_config.delay_secs
    }

    pub closed spec fn config_rounded(&self) -> Option<bool> {
        self.indexing_config.is_rounded_start_time
    }

    pub closed spec fn next_schedule_at(&self) -> u64 {
        self.next_schedule
    }

    pub closed spec fn last_succeeded_at(&self) -> u64 {
        self.last_succeeded
    }

    pub closed spec fn last_result(&self) -> (bool, u64, Option<Seq<char>>) {
        (
            self.last_execution_result.is_succeeded,
            self.last_execution_result.timestamp,
            match self.last_execution_result.error {
                Some(e) => Some(e.message@),
                None => None,
            },
        )
    }

    /// The triplet's identities and the proxy's managers.
    pub open spec fn identities(&self) -> (Seq<u8>, Seq<u8>, Seq<u8>, Seq<u8>, Seq<u8>) {
        (self.target_id(), self.db_id(), self.vault_id(), self.registry_id(), self.initializer_id())
    }

    /// Everything the scheduler keeps, for comparing two states.
    pub open spec fn schedule_state(&self) -> (u32, Seq<char>, Seq<u8>, Option<u32>, Option<bool>, u64, u64, (bool, u64, Option<Seq<char>>)) {
        (
            self.interval(),
            self.config_method(),
            self.config_args(),
            self.config_delay(),
            self.config_rounded(),
            self.next_schedule_at(),
            self.last_succeeded_at(),
            self.last_result(),
        )
    }

    /// A proxy installed by `initializer` for `target`, with its database,
    /// vault and registry; nothing is scheduled yet.
    pub fn new(
        registry: PrincipalId,
        target: PrincipalId,
        db: PrincipalId,
        vault: PrincipalId,
        initializer: PrincipalId,
    ) -> (r: ProxyState)
        ensures
            r.target_id() == target@,
            r.db_id() == db@,
            r.vault_id() == vault@,
            r.registry_id() == registry@,
            r.initializer_id() == initializer@,
            r.interval() == 0,
            r.next_schedule_at() == 0,
            r.last_succeeded_at() == 0,
            r.last_result() == (false, 0u64, None::<Seq<char>>),
    {
        ProxyState {
            target,
            db,
            vault,
            registry,
            initializer,
            indexing_config: IndexingConfig::default(),
            last_succeeded: 0,
            last_execution_result: ExecutionResult::default(),
            next_schedule: 0,
        }
    }

    /// A proxy read back from durable storage.
    pub fn restore(
        registry: PrincipalId,
        target: PrincipalId,
        db: PrincipalId,
        vault: PrincipalId,
        initializer: PrincipalId,
        indexing_config: IndexingConfig,
        last_succeeded: u64,
        last_execution_result: ExecutionResult,
        next_schedule: u64,
    ) -> (r: ProxyState)
        ensures
            r.target_id() == target@,
            r.db_id() == db@,
            r.vault_id() == vault@,
            r.registry_id() == registry@,
            r.initializer_id() == initializer@,
            r.interval() == indexing_config.task_interval_secs,
            r.config_method() == indexing_config.method@,
            r.config_args() == indexing_config.args@,
            r.config_delay() == indexing_config.delay_secs,
            r.config_rounded() == indexing_config.is_rounded_start_time,
            r.next_schedule_at() == next_schedule,
            r.last_succeeded_at() == last_succeeded,
            r.last_result() == (last_execution_result.is_succeeded, last_execution_result.timestamp, match last_execution_result.error {
                Some(e) => Some(e.message@),
                None => None::<Seq<char>>,
            }),
    {
        ProxyState {
            target,
            db,
            vault,
            registry,
            initializer,
            indexing_config,
            last_succeeded,
            last_execution_result,
            next_schedule,
        }
    }

    pub fn target(&self) -> (r: PrincipalId)
        ensures
            r@ == self.target_id(),
    {
        self.target.duplicate()
    }

    pub fn db(&self) -> (r: PrincipalId)
        ensures
            r@ == self.db_id(),
    {
        self.db.duplicate()
    }

    pub fn vault(&self) -> (r: PrincipalId)
        ensures
            r@ == self.vault_id(),
    {
        self.vault.duplicate()
    }

    pub fn registry(&self) -> (r: PrincipalId)
        ensures
            r@ == self.registry_id(),
    {
        self.registry.duplicate()
    }

    pub fn initializer(&self) -> (r: PrincipalId)
        ensures
            r@ == self.initializer_id(),
    {
        self.initializer.duplicate()
    }

    pub fn set_registry(&mut self, id: PrincipalId)
        ensures
            final(self).registry_id() == id@,
            final(self).target_id() == old(self).target_id(),
            final(self).db_id() == old(self).db_id(),
            final(self).vault_id() == old(self).vault_id(),
            final(self).initializer_id() == old(self).initializer_id(),
            final(self).schedule_state() == old(self).schedule_state(),
    {
        self.registry = id;
    }

    /// The identities the initializer reads when it upgrades the triplet.
    pub fn get_component_info(&self) -> (r: ComponentInfo)
        ensures
            r.target@ == self.target_id(),
            r.vault@ == self.vault_id(),
            r.db@ == self.db_id(),
    {
        ComponentInfo { target: self.target.duplicate(), vault: self.vault.duplicate(), db: self.db.duplicate() }
    }

    /// Whether calls from `id` are forwarded. Every caller is accepted:
    /// checking against the registry is not part of this proxy.
    pub fn canister_exists(&self, id: &PrincipalId) -> (r: bool)
        ensures
            r,
    {
        true
    }

    pub fn last_succeeded(&self) -> (r: u64)
        ensures
            r == self.last_succeeded_at(),
    {
        self.last_succeeded
    }

    pub fn set_last_succeeded(&mut self, v: u64)
        ensures
            final(self).last_succeeded_at() == v,
            final(self).next_schedule_at() == old(self).next_schedule_at(),
            final(self).interval() == old(self).interval(),
            final(self).last_result() == old(self).last_result(),
            final(self).identities() == old(self).identities(),
    {
        self.last_succeeded = v;
    }

    pub fn last_execution_result(&self) -> (r: ExecutionResult)
        ensures
            (r.is_succeeded, r.timestamp, match r.error {
                Some(e) => Some(e.message@),
                None => None,
            }) == self.last_result(),
    {
        self.last_execution_result.duplicate()
    }

    pub fn next_schedule(&self) -> (r: u64)
        ensures
            r == self.next_schedule_at(),
    {
        self.next_schedule
    }

    pub fn set_next_schedule(&mut self, time: u64)
        ensures
            final(self).next_schedule_at() == time,
            final(self).last_succeeded_at() == old(self).last_succeeded_at(),
            final(self).interval() == old(self).interval(),
            final(self).last_result() == old(self).last_result(),
            final(self).identities() == old(self).identities(),
    {
        self.next_schedule = time;
    }

    pub fn get_indexing_config(&self) -> (r: IndexingConfig)
        ensures
            r.task_interval_secs == self.interval(),
            r.method@ == self.config_method(),
            r.args@ == self.config_args(),
            r.delay_secs == self.config_delay(),
            r.is_rounded_start_time == self.config_rounded(),
    {
        self.indexing_config.duplicate()
    }

    pub fn set_indexing_config(&mut self, config: IndexingConfig)
        ensures
            final(self).interval() == config.task_interval_secs,
            final(self).config_method() == config.method@,
            final(self).config_args() == config.args@,
            final(self).config_delay() == config.delay_secs,
            final(self).config_rounded() == config.is_rounded_start_time,
            final(self).next_schedule_at() == old(self).next_schedule_at(),
            final(self).last_succeeded_at() == old(self).last_succeeded_at(),
            final(self).last_result() == old(self).last_result(),
            final(self).identities() == old(self).identities(),
    {
        self.indexing_config = config;
    }

    /// Sets the next-schedule time for a start `now` and says which timers
    /// to arm; the configuration is left as it is.
    fn arm(&mut self, interval: u32, delay: Option<u32>, rounded: Option<bool>, now: u32) -> (r: Result<TimerPlan, IndexingError>)
        ensures
            r is Ok <==> schedulable(now, interval, delay, rounded),
            r is Ok ==> r->Ok_0 == plan_for(effective_delay(now, interval, delay, rounded), interval)
                && final(self).next_schedule_at() == now + effective_delay(now, interval, delay, rounded),
            r is Err ==> r == Err::<TimerPlan, IndexingError>(IndexingError::InvalidSchedule)
                && final(self).next_schedule_at() == old(self).next_schedule_at(),
            final(self).interval() == old(self).interval(),
            final(self).config_method() == old(self).config_method(),
            final(self).config_args() == old(self).config_args(),
            final(self).config_delay() == old(self).config_delay(),
            final(self).config_rounded() == old(self).config_rounded(),
            final(self).last_succeeded_at() == old(self).last_succeeded_at(),
            final(self).last_result() == old(self).last_result(),
            final(self).identities() == old(self).identities(),
    {
        let d: u32 = match delay {
            Some(x) => x,
            None => 0,
        };
        let eff: u32;
        if rounded == Some(true) {
            if interval == 0 {
                return Err(IndexingError::InvalidSchedule);
            }
            proof {
                vstd::arithmetic::div_mod::lemma_fundamental_div_mod(now as int, interval as int);
                vstd::arithmetic::div_mod::lemma_mod_pos_bound(now as int, interval as int);
                vstd::arithmetic::mul::lemma_mul_is_commutative(interval as int, now as int / interval as int);
            }
            let base = now / interval * interval;
            if base > u32::MAX - interval || base + interval > u32::MAX - d {
                return Err(IndexingError::InvalidSchedule);
            }
            eff = calculate_delay_secs_from_current_secs(now, interval, d);
        } else {
            eff = d;
        }
        self.next_schedule = now as u64 + eff as u64;
        if eff > 0 {
            Ok(TimerPlan::Delayed { delay_secs: eff, interval_secs: interval })
        } else {
            Ok(TimerPlan::Immediate { interval_secs: interval })
        }
    }

    /// Starts indexing: only the target may, and only once. On success the
    /// configuration is kept, the next-schedule time is the first firing,
    /// and the timers to arm are returned. A refused start changes nothing.
    pub fn start_indexing_with_is_rounded(
        &mut self,
        caller: &PrincipalId,
        task_interval_secs: u32,
        delay_secs: u32,
        is_rounded_start_time: bool,
        method: String,
        args: Vec<u8>,
        now: u32,
    ) -> (r: Result<TimerPlan, IndexingError>)
        ensures
            caller@ != old(self).target_id() ==> r == Err::<TimerPlan, IndexingError>(IndexingError::NotPermitted),
            caller@ == old(self).target_id() && !start_permitted(old(self).next_schedule_at()) ==> r == Err::<
                TimerPlan,
                IndexingError,
            >(IndexingError::AlreadyStarted),
            r is Ok <==> (caller@ == old(self).target_id() && start_permitted(old(self).next_schedule_at())
                && schedulable(now, task_interval_secs, Some(delay_secs), Some(is_rounded_start_time))),
            r is Ok ==> {
                &&& r->Ok_0 == plan_for(
                    effective_delay(now, task_interval_secs, Some(delay_secs), Some(is_rounded_start_time)),
                    task_interval_secs,
                )
                &&& final(self).next_schedule_at() == now + effective_delay(
                    now,
                    task_interval_secs,
                    Some(delay_secs),
                    Some(is_rounded_start_time),
                )
                &&& final(self).interval() == task_interval_secs
                &&& final(self).config_method() == method@
                &&& final(self).config_args() == args@
                &&& final(self).config_delay() == Some(delay_secs)
                &&& final(self).config_rounded() == Some(is_rounded_start_time)
                &&& final(self).last_succeeded_at() == old(self).last_succeeded_at()
                &&& final(self).last_result() == old(self).last_result()
            },
            r is Err ==> final(self).schedule_state() == old(self).schedule_state(),
            final(self).identities() == old(self).identities(),
    {
        if !caller.same_as(&self.target) {
            return Err(IndexingError::NotPermitted);
        }
        if self.next_schedule != 0 {
            return Err(IndexingError::AlreadyStarted);
        }
        let plan = self.arm(task_interval_secs, Some(delay_secs), Some(is_rounded_start_time), now);
        if plan.is_err() {
            return plan;
        }
        self.indexing_config = IndexingConfig {
            task_interval_secs,
            method,
            args,
            delay_secs: Some(delay_secs),
            is_rounded_start_time: Some(is_rounded_start_time),
        };
        plan
    }

    /// Starts indexing without rounding the start time.
    pub fn start_indexing(
        &mut self,
        caller: &PrincipalId,
        task_interval_secs: u32,
        delay_secs: u32,
        method: String,
        args: Vec<u8>,
        now: u32,
    ) -> (r: Result<TimerPlan, IndexingError>)
        ensures
            r is Ok <==> (caller@ == old(self).target_id() && start_permitted(old(self).next_schedule_at())),
            caller@ != old(self).target_id() ==> r == Err::<TimerPlan, IndexingError>(IndexingError::NotPermitted),
            caller@ == old(self).target_id() && !start_permitted(old(self).next_schedule_at()) ==> r == Err::<
                TimerPlan,
                IndexingError,
            >(IndexingError::AlreadyStarted),
            r is Ok ==> {
                &&& r->Ok_0 == plan_for(delay_secs as int, task_interval_secs)
                &&& final(self).next_schedule_at() == now + delay_secs
                &&& final(self).interval() == task_interval_secs
                &&& final(self).config_method() == method@
                &&& final(self).config_args() == args@
                &&& final(self).config_delay() == Some(delay_secs)
                &&& final(self).config_rounded() == Some(false)
            },
            r is Err ==> final(self).schedule_state() == old(self).schedule_state(),
            final(self).identities() == old(self).identities(),
    {
        self.start_indexing_with_is_rounded(caller, task_interval_secs, delay_secs, false, method, args, now)
    }

    /// Opens an indexing tick at `now`: the next-schedule time moves to
    /// `now + interval` before the target is called, and the method and
    /// arguments to call it with are returned.
    pub fn begin_tick(&mut self, now: u32) -> (r: (String, Vec<u8>))
        ensures
            final(self).next_schedule_at() == tick_schedule(now, old(self).interval()),
            r.0@ == old(self).config_method(),
            r.1@ == old(self).config_args(),
            final(self).interval() == old(self).interval(),
            final(self).config_method() == old(self).config_method(),
            final(self).config_args() == old(self).config_args(),
            final(self).config_delay() == old(self).config_delay(),
            final(self).config_rounded() == old(self).config_rounded(),
            final(self).last_succeeded_at() == old(self).last_succeeded_at(),
            final(self).last_result() == old(self).last_result(),
            final(self).identities() == old(self).identities(),
    {
        self.next_schedule = now as u64 + self.indexing_config.task_interval_secs as u64;
        (self.indexing_config.method.clone(), copy_bytes(&self.indexing_config.args))
    }

    /// Records the outcome of a tick finished at `now`: a success also moves
    /// the last-succeeded time.
    pub fn update_last_execution_result(&mut self, now: u64, error: Option<Error>)
        ensures
            final(self).last_result() == (error is None, now, match error {
                Some(e) => Some(e.message@),
                None => None::<Seq<char>>,
            }),
            error is None ==> final(self).last_succeeded_at() == now,
            error is Some ==> final(self).last_succeeded_at() == old(self).last_succeeded_at(),
            final(self).next_schedule_at() == old(self).next_schedule_at(),
            final(self).interval() == old(self).interval(),
            final(self).config_method() == old(self).config_method(),
            final(self).config_args() == old(self).config_args(),
            final(self).config_delay() == old(self).config_delay(),
            final(self).config_rounded() == old(self).config_rounded(),
            final(self).identities() == old(self).identities(),
    {
        let ok = error.is_none();
        if ok {
            self.last_succeeded = now;
        }
        self.last_execution_result = ExecutionResult { is_succeeded: ok, timestamp: now, error };
    }

    /// Restarts a stalled scheduler: only a controller may, and only once
    /// `now` is more than two intervals past the next-schedule time. The
    /// stored configuration is scheduled again. A refused restart changes
    /// nothing.
    pub fn restart_indexing(&mut self, caller_is_controller: bool, now: u32) -> (r: Result<TimerPlan, IndexingError>)
        ensures
            old(self).interval() == 0 ==> r == Err::<TimerPlan, IndexingError>(IndexingError::NotConfigured),
            old(self).interval() > 0 && !(caller_is_controller && now > old(self).next_schedule_at() + 2
                * old(self).interval()) ==> r == Err::<TimerPlan, IndexingError>(IndexingError::NotPermitted),
            r is Ok <==> (old(self).interval() > 0 && caller_is_controller && now > old(self).next_schedule_at()
                + 2 * old(self).interval() && schedulable(
                now,
                old(self).interval(),
                old(self).config_delay(),
                old(self).config_rounded(),
            )),
            r is Ok ==> r->Ok_0 == plan_for(
                effective_delay(now, old(self).interval(), old(self).config_delay(), old(self).config_rounded()),
                old(self).interval(),
            ) && final(self).next_schedule_at() == now + effective_delay(
                now,
                old(self).interval(),
                old(self).config_delay(),
                old(self).config_rounded(),
            ),
            r is Err ==> final(self).schedule_state() == old(self).schedule_state(),
            final(self).interval() == old(self).interval(),
            final(self).config_method() == old(self).config_method(),
            final(self).config_args() == old(self).config_args(),
            final(self).identities() == old(self).identities(),
    {
        let interval = self.indexing_config.task_interval_secs;
        if interval == 0 {
            return Err(IndexingError::NotConfigured);
        }
        if !caller_is_controller || (now as u128) <= self.next_schedule as u128 + 2 * interval as u128 {
            return Err(IndexingError::NotPermitted);
        }
        let delay = self.indexing_config.delay_secs;
        let rounded = self.indexing_config.is_rounded_start_time;
        self.arm(interval, delay, rounded, now)
    }

    /// After an upgrade, schedules the stored configuration again one second
    /// later (or one second past the next grid point when rounded); nothing
    /// when indexing was never configured.
    pub fn post_upgrade(&mut self, now: u32) -> (r: Result<Option<TimerPlan>, IndexingError>)
        ensures
            old(self).interval() == 0 ==> r == Ok::<Option<TimerPlan>, IndexingError>(None)
                && final(self).schedule_state() == old(self).schedule_state(),
            old(self).interval() > 0 ==> {
                &&& r is Ok <==> schedulable(now, old(self).interval(), Some(1u32), old(self).config_rounded())
                &&& r is Ok ==> r->Ok_0 == Some(
                    plan_for(
                        effective_delay(now, old(self).interval(), Some(1u32), old(self).config_rounded()),
                        old(self).interval(),
                    ),
                ) && final(self).next_schedule_at() == now + effective_delay(
                    now,
                    old(self).interval(),
                    Some(1u32),
                    old(self).config_rounded(),
                )
                &&& r is Err ==> final(self).schedule_state() == old(self).schedule_state()
            },
            final(self).interval() == old(self).interval(),
            final(self).config_method() == old(self).config_method(),
            final(self).config_args() == old(self).config_args(),
            final(self).config_delay() == old(self).config_delay(),
            final(self).config_rounded() == old(self).config_rounded(),
            final(self).identities() == old(self).identities(),
    {
        let interval = self.indexing_config.task_interval_secs;
        if interval == 0 {
            return Ok(None);
        }
        let rounded = self.indexing_config.is_rounded_start_time;
        match self.arm(interval, Some(1), rounded, now) {
            Ok(plan) => Ok(Some(plan)),
            Err(e) => Err(e),
        }
    }
}

} // verus!
