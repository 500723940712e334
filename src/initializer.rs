//! The initializer: provisions a triplet (vault, database, proxy) for an
//! indexer, wires it up and registers it, and coordinates upgrades.
//!
//! Provisioning is a fixed sequence of fabric calls. [`Orchestration`]
//! decides the next call from the results so far; whoever runs it performs
//! the call and reports back.
use vstd::prelude::*;
use crate::principal::PrincipalId;
use crate::proxy::ComponentInfo;
use crate::vault::{target_view, RefuelTarget};

verus! {

/// Cycles handed to one component at creation, and its refuel policy.
#[derive(Clone, Copy, Debug, PartialEq, Eq, Structural)]
pub struct CycleManagement {
    pub initial_supply: u128,
    pub refueling_amount: u128,
    pub refueling_threshold: u128,
}

/// The cycle budget of a whole triplet.
#[derive(Clone, Copy, Debug, PartialEq, Eq, Structural)]
pub struct CycleManagements {
    pub refueling_interval: u64,
    pub vault_intial_supply: u128,
    pub indexer: CycleManagement,
    pub db: CycleManagement,
    pub proxy: CycleManagement,
}

/// The initializer's own cycles at one moment.
#[derive(Clone, Copy, Debug, PartialEq, Eq, Structural)]
pub struct MetricsSnapshot {
    pub timestamp: u64,
    pub cycles: u128,
}

/// The identities of a provisioned triplet.
#[derive(Debug)]
pub struct InitializeOutput {
    pub vault: PrincipalId,
    pub proxy: PrincipalId,
    pub db: PrincipalId,
}

/// A registry entry: a registered indexer and its vault.
#[derive(Debug)]
pub struct RegisteredCanisterInRegistry {
    pub principal: PrincipalId,
    pub vault: PrincipalId,
}

pub open spec fn total_initial_supply(c: CycleManagements) -> int {
    c.vault_intial_supply + c.indexer.initial_supply + c.db.initial_supply + c.proxy.initial_supply
}

impl CycleManagements {
    /// The cycles a caller must attach to provision the triplet.
    pub fn initial_supply(&self) -> (r: u128)
        requires
            total_initial_supply(*self) <= u128::MAX,
        ensures
            r == total_initial_supply(*self),
    {
        self.vault_intial_supply + self.indexer.initial_supply + self.db.initial_supply
            + self.proxy.initial_supply
    }
}

#[derive(Clone, Copy, Debug, PartialEq, Eq, Structural)]
pub enum InitError {
    /// Fewer cycles were accepted than the budget asks for.
    InsufficientCycles,
    /// The budget does not fit in 128 bits.
    BudgetOverflow,
}

/// Checks the cycles accepted from the caller against the budget; returns
/// the budget when they cover it.
pub fn check_accepted_cycles(cycles: &CycleManagements, accepted: u128) -> (r: Result<u128, InitError>)
    ensures
        total_initial_supply(*cycles) > u128::MAX ==> r == Err::<u128, InitError>(InitError::BudgetOverflow),
        total_initial_supply(*cycles) <= u128::MAX ==> (r is Ok <==> accepted >= total_initial_supply(*cycles)),
        r is Ok ==> r->Ok_0 == total_initial_supply(*cycles),
        r is Err && total_initial_supply(*cycles) <= u128::MAX ==> r == Err::<u128, InitError>(
            InitError::InsufficientCycles,
        ),
{
    let a = match cycles.vault_intial_supply.checked_add(cycles.indexer.initial_supply) {
        Some(x) => x,
        None => {
            return Err(InitError::BudgetOverflow);
        },
    };
    let b = match a.checked_add(cycles.db.initial_supply) {
        Some(x) => x,
        None => {
            return Err(InitError::BudgetOverflow);
        },
    };
    let total = match b.checked_add(cycles.proxy.initial_supply) {
        Some(x) => x,
        None => {
            return Err(InitError::BudgetOverflow);
        },
    };
    if accepted < total {
        return Err(InitError::InsufficientCycles);
    }
    Ok(total)
}

/// The arguments a vault is installed with.
#[derive(Debug)]
pub struct VaultInstallArgs {
    pub target: PrincipalId,
    pub deployer: PrincipalId,
    pub initial_supply: u128,
    pub refueling_interval: u64,
    pub refuel_targets: Vec<RefuelTarget>,
    pub initial_refueled: Vec<(PrincipalId, u128)>,
}

/// The vault's wiring: it serves the indexer, credits the deployer with
/// the whole budget, and refuels the indexer, the database and the proxy
/// under their own policies, each already given its initial supply.
pub fn vault_install_args(
    indexer: &PrincipalId,
    db: &PrincipalId,
    proxy: &PrincipalId,
    deployer: &PrincipalId,
    cycles: &CycleManagements,
) -> (r: VaultInstallArgs)
    requires
        total_initial_supply(*cycles) <= u128::MAX,
    ensures
        r.target@ == indexer@,
        r.deployer@ == deployer@,
        r.initial_supply == total_initial_supply(*cycles),
        r.refueling_interval == cycles.refueling_interval,
        r.refuel_targets@.map_values(|t: RefuelTarget| target_view(t)) == seq![
            (indexer@, cycles.indexer.refueling_amount, cycles.indexer.refueling_threshold),
            (db@, cycles.db.refueling_amount, cycles.db.refueling_threshold),
            (proxy@, cycles.proxy.refueling_amount, cycles.proxy.refueling_threshold),
        ],
        r.initial_refueled@.len() == 3,
        r.initial_refueled@[0].0@ == indexer@ && r.initial_refueled@[0].1 == cycles.indexer.initial_supply,
        r.initial_refueled@[1].0@ == db@ && r.initial_refueled@[1].1 == cycles.db.initial_supply,
        r.initial_refueled@[2].0@ == proxy@ && r.initial_refueled@[2].1 == cycles.proxy.initial_supply,
{
    let mut refuel_targets: Vec<RefuelTarget> = Vec::new();
    refuel_targets.push(
        RefuelTarget {
            id: indexer.duplicate(),
            amount: cycles.indexer.refueling_amount,
            threshold: cycles.indexer.refueling_threshold,
        },
    );
    refuel_targets.push(
        RefuelTarget {
            id: db.duplicate(),
            amount: cycles.db.refueling_amount,
            threshold: cycles.db.refueling_threshold,
        },
    );
    refuel_targets.push(
        RefuelTarget {
            id: proxy.duplicate(),
            amount: cycles.proxy.refueling_amount,
            threshold: cycles.proxy.refueling_threshold,
        },
    );
    let mut initial_refueled: Vec<(PrincipalId, u128)> = Vec::new();
    initial_refueled.push((indexer.duplicate(), cycles.indexer.initial_supply));
    initial_refueled.push((db.duplicate(), cycles.db.initial_supply));
    initial_refueled.push((proxy.duplicate(), cycles.proxy.initial_supply));
    let r = VaultInstallArgs {
        target: indexer.duplicate(),
        deployer: deployer.duplicate(),
        initial_supply: cycles.initial_supply(),
        refueling_interval: cycles.refueling_interval,
        refuel_targets,
        initial_refueled,
    };
    assert(r.refuel_targets@.map_values(|t: RefuelTarget| target_view(t)) =~= seq![
        (indexer@, cycles.indexer.refueling_amount, cycles.indexer.refueling_threshold),
        (db@, cycles.db.refueling_amount, cycles.db.refueling_threshold),
        (proxy@, cycles.proxy.refueling_amount, cycles.proxy.refueling_threshold),
    ]);
    r
}

/// The steps of provisioning, in their strict order.
#[derive(Clone, Copy, Debug, PartialEq, Eq, Structural)]
pub enum InitPhase {
    CreateVault,
    ControlIndexer,
    ControlVault,
    CreateDb,
    ControlDb,
    InstallDb,
    InitDb,
    CreateProxy,
    ControlProxy,
    InstallProxy,
    InstallVault,
    Register,
    Done,
    Failed,
}

pub open spec fn next_phase(p: InitPhase) -> InitPhase {
    match p {
        InitPhase::CreateVault => InitPhase::ControlIndexer,
        InitPhase::ControlIndexer => InitPhase::ControlVault,
        InitPhase::ControlVault => InitPhase::CreateDb,
        InitPhase::CreateDb => InitPhase::ControlDb,
        InitPhase::ControlDb => InitPhase::InstallDb,
        InitPhase::InstallDb => InitPhase::InitDb,
        InitPhase::InitDb => InitPhase::CreateProxy,
        InitPhase::CreateProxy => InitPhase::ControlProxy,
        InitPhase::ControlProxy => InitPhase::InstallProxy,
        InitPhase::InstallProxy => InitPhase::InstallVault,
        InitPhase::InstallVault => InitPhase::Register,
        InitPhase::Register => InitPhase::Done,
        InitPhase::Done => InitPhase::Done,
        InitPhase::Failed => InitPhase::Failed,
    }
}

pub open spec fn is_create(p: InitPhase) -> bool {
    p == InitPhase::CreateVault || p == InitPhase::CreateDb || p == InitPhase::CreateProxy
}

/// The next fabric call to make.
#[derive(Debug)]
pub enum InitAction {
    /// Create an empty program holding `deposit` cycles (on the subnet
    /// given at the start, if any).
    Create { deposit: u128 },
    /// Make `controllers` the controllers of `canister`.
    SetControllers { canister: PrincipalId, controllers: Vec<PrincipalId> },
    /// Install the database code on `db`.
    InstallDb { db: PrincipalId },
    /// Call the database's `init`.
    InitDb { db: PrincipalId },
    /// Install the proxy code with its wiring.
    InstallProxy { proxy: PrincipalId, target: PrincipalId, db: PrincipalId, vault: PrincipalId },
    /// Install the vault code with its wiring.
    InstallVault { vault: PrincipalId, args: VaultInstallArgs },
    /// Register the indexer and its vault in the registry.
    Register { indexer: PrincipalId, vault: PrincipalId },
    /// Provisioning is over.
    Finished,
}

/// Why provisioning stopped, with every identity created before it did, so
/// the caller can reclaim them.
#[derive(Debug)]
pub struct OrchestrationFailure {
    pub phase: InitPhase,
    pub vault: Option<PrincipalId>,
    pub db: Option<PrincipalId>,
    pub proxy: Option<PrincipalId>,
}

pub open spec fn opt_view(o: Option<PrincipalId>) -> Option<Seq<u8>> {
    match o {
        Some(p) => Some(p@),
        None => None,
    }
}

pub open spec fn ids_view(s: Seq<PrincipalId>) -> Seq<Seq<u8>> {
    s.map_values(|p: PrincipalId| p@)
}

pub fn opt_duplicate(o: &Option<PrincipalId>) -> (r: Option<PrincipalId>)
    ensures
        opt_view(r) == opt_view(*o),
{
    match o {
        Some(p) => Some(p.duplicate()),
        None => None,
    }
}

/// Provisioning of one triplet for `indexer`, as a state machine.
#[derive(Debug)]
pub struct Orchestration {
    indexer: PrincipalId,
    deployer: PrincipalId,
    initializer: PrincipalId,
    cycles: CycleManagements,
    phase: InitPhase,
    vault: Option<PrincipalId>,
    db: Option<PrincipalId>,
    proxy: Option<PrincipalId>,
    failure: Option<InitPhase>,
}

impl Orchestration {
    pub closed spec fn phase_of(&self) -> InitPhase {
        self.phase
    }

    pub closed spec fn deployed(&self) -> (Option<Seq<u8>>, Option<Seq<u8>>, Option<Seq<u8>>) {
        (opt_view(self.vault), opt_view(self.db), opt_view(self.proxy))
    }

    pub closed spec fn failed_at(&self) -> Option<InitPhase> {
        self.failure
    }

    pub closed spec fn budget(&self) -> CycleManagements {
        self.cycles
    }

    pub closed spec fn indexer_id(&self) -> Seq<u8> {
        self.indexer@
    }

    pub closed spec fn deployer_id(&self) -> Seq<u8> {
        self.deployer@
    }

    pub closed spec fn initializer_id(&self) -> Seq<u8> {
        self.initializer@
    }

    /// The controllers every created program gets: the deployer, the vault
    /// and the initializer.
    pub open spec fn controllers_view(&self) -> Seq<Seq<u8>> {
        seq![self.deployer_id(), self.deployed().0->Some_0, self.initializer_id()]
    }

    /// Each phase past a creation holds the identity it created, and none
    /// other.
    pub open spec fn wf(&self) -> bool {
        let (v, d, p) = self.deployed();
        let ph = self.phase_of();
        &&& (ph == InitPhase::CreateVault) ==> v is None
        &&& (ph == InitPhase::CreateVault || ph == InitPhase::ControlIndexer || ph == InitPhase::ControlVault
            || ph == InitPhase::CreateDb) ==> d is None
        &&& (ph != InitPhase::Failed && ph != InitPhase::CreateVault) ==> v is Some
        &&& (ph == InitPhase::ControlDb || ph == InitPhase::InstallDb || ph == InitPhase::InitDb
            || ph == InitPhase::CreateProxy || ph == InitPhase::ControlProxy || ph == InitPhase::InstallProxy
            || ph == InitPhase::InstallVault || ph == InitPhase::Register || ph == InitPhase::Done) ==> d is Some
        &&& (ph == InitPhase::ControlProxy || ph == InitPhase::InstallProxy || ph == InitPhase::InstallVault
            || ph == InitPhase::Register || ph == InitPhase::Done) ==> p is Some
        &&& (ph != InitPhase::ControlProxy && ph != InitPhase::InstallProxy && ph != InitPhase::InstallVault
            && ph != InitPhase::Register && ph != InitPhase::Done && ph != InitPhase::Failed) ==> p is None
        &&& (ph == InitPhase::Failed) <==> self.failed_at() is Some
        &&& total_initial_supply(self.budget()) <= u128::MAX
    }

    /// Provisioning for `indexer` (the caller), paid for by `deployer`, run
    /// by the initializer `initializer`, within the budget `cycles`.
    pub fn new(indexer: PrincipalId, deployer: PrincipalId, initializer: PrincipalId, cycles: CycleManagements) -> (r: Orchestration)
        requires
            total_initial_supply(cycles) <= u128::MAX,
        ensures
            r.wf(),
            r.indexer_id() == indexer@,
            r.deployer_id() == deployer@,
            r.initializer_id() == initializer@,
            r.phase_of() == InitPhase::CreateVault,
            r.deployed() == (None::<Seq<u8>>, None::<Seq<u8>>, None::<Seq<u8>>),
            r.budget() == cycles,
    {
        Orchestration {
            indexer,
            deployer,
            initializer,
            cycles,
            phase: InitPhase::CreateVault,
            vault: None,
            db: None,
            proxy: None,
            failure: None,
        }
    }

    pub fn phase(&self) -> (r: InitPhase)
        ensures
            r == self.phase_of(),
    {
        self.phase
    }

    fn controllers(&self) -> (r: Vec<PrincipalId>)
        requires
            self.vault is Some,
        ensures
            ids_view(r@) == self.controllers_view(),
    {
        let mut r: Vec<PrincipalId> = Vec::new();
        r.push(self.deployer.duplicate());
        match &self.vault {
            Some(v) => r.push(v.duplicate()),
            None => r.push(self.initializer.duplicate()),
        }
        r.push(self.initializer.duplicate());
        assert(ids_view(r@) =~= self.controllers_view());
        r
    }

    /// The call to make in the current phase.
    pub fn next_action(&self) -> (r: InitAction)
        requires
            self.wf(),
        ensures
            ({
                let ph = self.phase_of();
                let (v, d, p) = self.deployed();
                &&& ph == InitPhase::CreateVault ==> r == (InitAction::Create { deposit: self.budget().vault_intial_supply })
                &&& ph == InitPhase::CreateDb ==> r == (InitAction::Create { deposit: self.budget().db.initial_supply })
                &&& ph == InitPhase::CreateProxy ==> r == (InitAction::Create { deposit: self.budget().proxy.initial_supply })
                &&& (ph == InitPhase::Done || ph == InitPhase::Failed) ==> r is Finished
                &&& ph == InitPhase::ControlIndexer ==> (r matches InitAction::SetControllers { canister, controllers }
                    && canister@ == self.indexer_id() && ids_view(controllers@) == self.controllers_view())
                &&& ph == InitPhase::ControlVault ==> (r matches InitAction::SetControllers { canister, controllers }
                    && Some(canister@) == v && ids_view(controllers@) == self.controllers_view())
                &&& ph == InitPhase::ControlDb ==> (r matches InitAction::SetControllers { canister, controllers }
                    && Some(canister@) == d && ids_view(controllers@) == self.controllers_view())
                &&& ph == InitPhase::ControlProxy ==> (r matches InitAction::SetControllers { canister, controllers }
                    && Some(canister@) == p && ids_view(controllers@) == self.controllers_view())
                &&& ph == InitPhase::InstallDb ==> (r matches InitAction::InstallDb { db } && Some(db@) == d)
                &&& ph == InitPhase::InitDb ==> (r matches InitAction::InitDb { db } && Some(db@) == d)
                &&& ph == InitPhase::InstallProxy ==> (r matches InitAction::InstallProxy { proxy, target, db, vault }
                    && Some(proxy@) == p && target@ == self.indexer_id() && Some(db@) == d && Some(vault@) == v)
                &&& ph == InitPhase::InstallVault ==> (r matches InitAction::InstallVault { vault, args }
                    && Some(vault@) == v && args.target@ == self.indexer_id() && args.deployer@
                    == self.deployer_id() && args.initial_supply == total_initial_supply(self.budget())
                    && args.refueling_interval == self.budget().refueling_interval
                    && args.refuel_targets@.map_values(|t: RefuelTarget| target_view(t)) == seq![
                        (self.indexer_id(), self.budget().indexer.refueling_amount, self.budget().indexer.refueling_threshold),
                        (d->Some_0, self.budget().db.refueling_amount, self.budget().db.refueling_threshold),
                        (p->Some_0, self.budget().proxy.refueling_amount, self.budget().proxy.refueling_threshold),
                    ])
                &&& ph == InitPhase::Register ==> (r matches InitAction::Register { indexer, vault }
                    && indexer@ == self.indexer_id() && Some(vault@) == v)
            }),
    {
        match self.phase {
            InitPhase::CreateVault => InitAction::Create { deposit: self.cycles.vault_intial_supply },
            InitPhase::CreateDb => InitAction::Create { deposit: self.cycles.db.initial_supply },
            InitPhase::CreateProxy => InitAction::Create { deposit: self.cycles.proxy.initial_supply },
            InitPhase::ControlIndexer => InitAction::SetControllers {
                canister: self.indexer.duplicate(),
                controllers: self.controllers(),
            },
            InitPhase::ControlVault => InitAction::SetControllers {
                canister: opt_duplicate(&self.vault).unwrap(),
                controllers: self.controllers(),
            },
            InitPhase::ControlDb => InitAction::SetControllers {
                canister: opt_duplicate(&self.db).unwrap(),
                controllers: self.controllers(),
            },
            InitPhase::ControlProxy => InitAction::SetControllers {
                canister: opt_duplicate(&self.proxy).unwrap(),
                controllers: self.controllers(),
            },
            InitPhase::InstallDb => InitAction::InstallDb { db: opt_duplicate(&self.db).unwrap() },
            InitPhase::InitDb => InitAction::InitDb { db: opt_duplicate(&self.db).unwrap() },
            InitPhase::InstallProxy => InitAction::InstallProxy {
                proxy: opt_duplicate(&self.proxy).unwrap(),
                target: self.indexer.duplicate(),
                db: opt_duplicate(&self.db).unwrap(),
                vault: opt_duplicate(&self.vault).unwrap(),
            },
            InitPhase::InstallVault => {
                let vault = opt_duplicate(&self.vault).unwrap();
                let db = opt_duplicate(&self.db).unwrap();
                let proxy = opt_duplicate(&self.proxy).unwrap();
                let args = vault_install_args(&self.indexer, &db, &proxy, &self.deployer, &self.cycles);
                InitAction::InstallVault { vault, args }
            },
            InitPhase::Register => InitAction::Register {
                indexer: self.indexer.duplicate(),
                vault: opt_duplicate(&self.vault).unwrap(),
            },
            InitPhase::Done => InitAction::Finished,
            InitPhase::Failed => InitAction::Finished,
        }
    }

    /// Reports the outcome of the current call: `Ok` with the identity it
    /// created (for a creation), or `Err`. Success moves to the next phase;
    /// a failure ends provisioning in the failed state, keeping what was
    /// created so far.
    pub fn advance(&mut self, outcome: Result<Option<PrincipalId>, ()>)
        requires
            old(self).wf(),
            old(self).phase_of() != InitPhase::Done,
            old(self).phase_of() != InitPhase::Failed,
            outcome is Ok && is_create(old(self).phase_of()) ==> outcome->Ok_0 is Some,
        ensures
            final(self).wf(),
            final(self).budget() == old(self).budget(),
            final(self).indexer_id() == old(self).indexer_id(),
            final(self).deployer_id() == old(self).deployer_id(),
            final(self).initializer_id() == old(self).initializer_id(),
            outcome is Err ==> final(self).phase_of() == InitPhase::Failed && final(self).failed_at() == Some(
                old(self).phase_of(),
            ) && final(self).deployed() == old(self).deployed(),
            outcome is Ok ==> final(self).phase_of() == next_phase(old(self).phase_of()),
            outcome is Ok && old(self).phase_of() == InitPhase::CreateVault ==> final(self).deployed() == (
                opt_view(outcome->Ok_0),
                old(self).deployed().1,
                old(self).deployed().2,
            ),
            outcome is Ok && old(self).phase_of() == InitPhase::CreateDb ==> final(self).deployed() == (
                old(self).deployed().0,
                opt_view(outcome->Ok_0),
                old(self).deployed().2,
            ),
            outcome is Ok && old(self).phase_of() == InitPhase::CreateProxy ==> final(self).deployed() == (
                old(self).deployed().0,
                old(self).deployed().1,
                opt_view(outcome->Ok_0),
            ),
            outcome is Ok && !is_create(old(self).phase_of()) ==> final(self).deployed() == old(self).deployed(),
    {
        match outcome {
            Err(_) => {
                self.failure = Some(self.phase);
                self.phase = InitPhase::Failed;
            },
            Ok(created) => {
                match self.phase {
                    InitPhase::CreateVault => {
                        self.vault = created;
                        self.phase = InitPhase::ControlIndexer;
                    },
                    InitPhase::ControlIndexer => {
                        self.phase = InitPhase::ControlVault;
                    },
                    InitPhase::ControlVault => {
                        self.phase = InitPhase::CreateDb;
                    },
                    InitPhase::CreateDb => {
                        self.db = created;
                        self.phase = InitPhase::ControlDb;
                    },
                    InitPhase::ControlDb => {
                        self.phase = InitPhase::InstallDb;
                    },
                    InitPhase::InstallDb => {
                        self.phase = InitPhase::InitDb;
                    },
                    InitPhase::InitDb => {
                        self.phase = InitPhase::CreateProxy;
                    },
                    InitPhase::CreateProxy => {
                        self.proxy = created;
                        self.phase = InitPhase::ControlProxy;
                    },
                    InitPhase::ControlProxy => {
                        self.phase = InitPhase::InstallProxy;
                    },
                    InitPhase::InstallProxy => {
                        self.phase = InitPhase::InstallVault;
                    },
                    InitPhase::InstallVault => {
                        self.phase = InitPhase::Register;
                    },
                    InitPhase::Register => {
                        self.phase = InitPhase::Done;
                    },
                    InitPhase::Done => {},
                    InitPhase::Failed => {},
                }
            },
        }
    }

    /// The provisioned triplet, once every phase succeeded.
    pub fn output(&self) -> (r: Option<InitializeOutput>)
        requires
            self.wf(),
        ensures
            r is Some <==> self.phase_of() == InitPhase::Done,
            r is Some ==> (Some(r->Some_0.vault@), Some(r->Some_0.db@), Some(r->Some_0.proxy@))
                == self.deployed(),
    {
        if self.phase != InitPhase::Done {
            return None;
        }
        Some(
            InitializeOutput {
                vault: opt_duplicate(&self.vault).unwrap(),
                proxy: opt_duplicate(&self.proxy).unwrap(),
                db: opt_duplicate(&self.db).unwrap(),
            },
        )
    }

    /// The diagnostic of a failed provisioning: the phase that failed and
    /// every identity created before it.
    pub fn failure(&self) -> (r: Option<OrchestrationFailure>)
        requires
            self.wf(),
        ensures
            r is Some <==> self.failed_at() is Some,
            r is Some ==> Some(r->Some_0.phase) == self.failed_at() && (opt_view(r->Some_0.vault), opt_view(
                r->Some_0.db,
            ), opt_view(r->Some_0.proxy)) == self.deployed(),
    {
        match self.failure {
            Some(phase) => Some(
                OrchestrationFailure {
                    phase,
                    vault: opt_duplicate(&self.vault),
                    db: opt_duplicate(&self.db),
                    proxy: opt_duplicate(&self.proxy),
                },
            ),
            None => None,
        }
    }
}

#[derive(Clone, Copy, Debug, PartialEq, Eq, Structural)]
pub enum UpgradeError {
    /// The caller's target is not registered: it is no registered proxy.
    NotRegisteredProxy,
}

/// What to upgrade for a proxy that asks, given its component info and
/// the registry's entry for its target: the database, then the vault, then
/// the proxy itself. An unregistered caller is refused.
pub fn upgrade_plan(
    caller_proxy: &PrincipalId,
    info: &ComponentInfo,
    registered: &Option<RegisteredCanisterInRegistry>,
) -> (r: Result<Vec<PrincipalId>, UpgradeError>)
    ensures
        registered is None ==> r == Err::<Vec<PrincipalId>, UpgradeError>(UpgradeError::NotRegisteredProxy),
        registered is Some ==> r is Ok && r->Ok_0@.len() == 3 && r->Ok_0@[0]@ == info.db@ && r->Ok_0@[1]@
            == info.vault@ && r->Ok_0@[2]@ == caller_proxy@,
{
    if registered.is_none() {
        return Err(UpgradeError::NotRegisteredProxy);
    }
    let mut order: Vec<PrincipalId> = Vec::new();
    order.push(info.db.duplicate());
    order.push(info.vault.duplicate());
    order.push(caller_proxy.duplicate());
    Ok(order)
}

/// The initializer's state: the registry it registers triplets in, and
/// its own metrics, of which exactly the latest is kept.
#[derive(Debug)]
pub struct InitializerState {
    registry: PrincipalId,
    last_metrics: Option<MetricsSnapshot>,
    metrics_interval_secs: Option<u64>,
}

impl InitializerState {
    pub closed spec fn registry_id(&self) -> Seq<u8> {
        self.registry@
    }

    pub closed spec fn latest(&self) -> Option<MetricsSnapshot> {
        self.last_metrics
    }

    pub closed spec fn interval(&self) -> Option<u64> {
        self.metrics_interval_secs
    }

    pub fn new(registry: PrincipalId) -> (r: InitializerState)
        ensures
            r.registry_id() == registry@,
            r.latest() is None,
            r.interval() is None,
    {
        InitializerState { registry, last_metrics: None, metrics_interval_secs: None }
    }

    pub fn get_registry(&self) -> (r: PrincipalId)
        ensures
            r@ == self.registry_id(),
    {
        self.registry.duplicate()
    }

    pub fn set_registry(&mut self, id: PrincipalId)
        ensures
            final(self).registry_id() == id@,
            final(self).latest() == old(self).latest(),
            final(self).interval() == old(self).interval(),
    {
        self.registry = id;
    }

    /// Saves a snapshot; it replaces the one kept before.
    pub fn save_current_metrics(&mut self, snapshot: MetricsSnapshot)
        ensures
            final(self).latest() == Some(snapshot),
            final(self).registry_id() == old(self).registry_id(),
            final(self).interval() == old(self).interval(),
    {
        self.last_metrics = Some(snapshot);
    }

    pub fn get_last_metrics(&self) -> (r: Option<MetricsSnapshot>)
        ensures
            r == self.latest(),
    {
        self.last_metrics
    }

    /// Records the interval of a (re)started metrics timer.
    pub fn set_metrics_interval_secs(&mut self, interval_secs: u64)
        ensures
            final(self).interval() == Some(interval_secs),
            final(self).latest() == old(self).latest(),
            final(self).registry_id() == old(self).registry_id(),
    {
        self.metrics_interval_secs = Some(interval_secs);
    }

    pub fn get_metrics_interval_secs(&self) -> (r: Option<u64>)
        ensures
            r == self.interval(),
    {
        self.metrics_interval_secs
    }
}

} // verus!
