use chainsight_management::deployment::CanisterInstallMode;
use chainsight_management::initializer::{
    check_accepted_cycles, upgrade_plan, vault_install_args, CycleManagement, CycleManagements, InitAction,
    InitError, InitPhase, InitializerState, MetricsSnapshot, Orchestration, RegisteredCanisterInRegistry,
    UpgradeError,
};
use chainsight_management::principal::PrincipalId;
use chainsight_management::proxy::ComponentInfo;
use chainsight_management::registry::{
    check_only, frame_state, unframe_state, AccessError, CanisterRegisterInput, ChainsightCanister, Registry, ID,
};
use chainsight_management::rpc::{flatten_call_result, CallProvider, Message, MessageResult, RejectionCode};

fn pid(text: &str) -> PrincipalId {
    PrincipalId::from_text(text).unwrap()
}

fn budget() -> CycleManagements {
    let m = |initial_supply: u128, amount: u128, threshold: u128| CycleManagement {
        initial_supply,
        refueling_amount: amount,
        refueling_threshold: threshold,
    };
    CycleManagements {
        refueling_interval: 86_400,
        vault_intial_supply: 1_000,
        indexer: m(100, 10, 1),
        db: m(200, 20, 2),
        proxy: m(300, 30, 3),
    }
}

#[test]
fn initial_supply_is_the_whole_budget() {
    assert_eq!(budget().initial_supply(), 1_600);
    assert_eq!(check_accepted_cycles(&budget(), 1_600), Ok(1_600));
    assert_eq!(check_accepted_cycles(&budget(), 1_599), Err(InitError::InsufficientCycles));
    let mut huge = budget();
    huge.vault_intial_supply = u128::MAX;
    assert_eq!(check_accepted_cycles(&huge, u128::MAX), Err(InitError::BudgetOverflow));
}

#[test]
fn vault_is_wired_to_refuel_the_triplet() {
    let indexer = pid("vvqfh-4aaaa-aaaao-a2mua-cai");
    let db = pid("vsrdt-ryaaa-aaaao-a2muq-cai");
    let proxy = pid("rrkah-fqaaa-aaaaa-aaaaq-cai");
    let deployer = PrincipalId::anonymous();
    let args = vault_install_args(&indexer, &db, &proxy, &deployer, &budget());
    assert_eq!(args.target, indexer);
    assert_eq!(args.initial_supply, 1_600);
    assert_eq!(args.refueling_interval, 86_400);
    assert_eq!(args.refuel_targets.len(), 3);
    assert_eq!((&args.refuel_targets[1].id, args.refuel_targets[1].amount, args.refuel_targets[1].threshold), (&db, 20, 2));
    assert_eq!((&args.initial_refueled[2].0, args.initial_refueled[2].1), (&proxy, 300));
}

fn run_until(o: &mut Orchestration, phase: InitPhase) {
    let ids = ["vvqfh-4aaaa-aaaao-a2mua-cai", "vsrdt-ryaaa-aaaao-a2muq-cai", "rrkah-fqaaa-aaaaa-aaaaq-cai"];
    let mut next = 0;
    while o.phase() != phase {
        let created = match o.next_action() {
            InitAction::Create { .. } => {
                next += 1;
                Some(pid(ids[next - 1]))
            }
            _ => None,
        };
        o.advance(Ok(created));
    }
}

#[test]
fn orchestration_runs_every_phase_in_order() {
    let mut o = Orchestration::new(PrincipalId::anonymous(), PrincipalId::anonymous(), PrincipalId::anonymous(), budget());
    match o.next_action() {
        InitAction::Create { deposit } => assert_eq!(deposit, 1_000),
        other => panic!("unexpected {:?}", other),
    }
    let mut phases = vec![o.phase()];
    let ids = ["vvqfh-4aaaa-aaaao-a2mua-cai", "vsrdt-ryaaa-aaaao-a2muq-cai", "rrkah-fqaaa-aaaaa-aaaaq-cai"];
    let mut next = 0;
    while o.phase() != InitPhase::Done {
        let created = match o.next_action() {
            InitAction::Create { .. } => {
                next += 1;
                Some(pid(ids[next - 1]))
            }
            InitAction::SetControllers { controllers, .. } => {
                assert_eq!(controllers.len(), 3);
                assert_eq!(controllers[1], pid(ids[0]));
                None
            }
            _ => None,
        };
        o.advance(Ok(created));
        phases.push(o.phase());
    }
    assert_eq!(phases.len(), 13);
    assert_eq!(phases[3], InitPhase::CreateDb);
    assert_eq!(phases[11], InitPhase::Register);
    let out = o.output().unwrap();
    assert_eq!((out.vault, out.db, out.proxy), (pid(ids[0]), pid(ids[1]), pid(ids[2])));
    assert!(o.failure().is_none());
}

#[test]
fn orchestration_failure_names_what_was_created() {
    let mut o = Orchestration::new(PrincipalId::anonymous(), PrincipalId::anonymous(), PrincipalId::anonymous(), budget());
    run_until(&mut o, InitPhase::InstallProxy);
    match o.next_action() {
        InitAction::InstallProxy { proxy, db, vault, .. } => {
            assert_eq!(proxy, pid("rrkah-fqaaa-aaaaa-aaaaq-cai"));
            assert_eq!(db, pid("vsrdt-ryaaa-aaaao-a2muq-cai"));
            assert_eq!(vault, pid("vvqfh-4aaaa-aaaao-a2mua-cai"));
        }
        other => panic!("unexpected {:?}", other),
    }
    o.advance(Err(()));
    assert_eq!(o.phase(), InitPhase::Failed);
    assert!(o.output().is_none());
    let f = o.failure().unwrap();
    assert_eq!(f.phase, InitPhase::InstallProxy);
    assert_eq!(f.vault, Some(pid("vvqfh-4aaaa-aaaao-a2mua-cai")));
    assert_eq!(f.db, Some(pid("vsrdt-ryaaa-aaaao-a2muq-cai")));
    assert_eq!(f.proxy, Some(pid("rrkah-fqaaa-aaaaa-aaaaq-cai")));

    let mut early = Orchestration::new(PrincipalId::anonymous(), PrincipalId::anonymous(), PrincipalId::anonymous(), budget());
    run_until(&mut early, InitPhase::CreateDb);
    early.advance(Err(()));
    let f = early.failure().unwrap();
    assert_eq!((f.phase, f.db, f.proxy), (InitPhase::CreateDb, None, None));
    assert_eq!(f.vault, Some(pid("vvqfh-4aaaa-aaaao-a2mua-cai")));
}

#[test]
fn upgrades_go_db_vault_then_proxy() {
    let caller = pid("rrkah-fqaaa-aaaaa-aaaaq-cai");
    let info = ComponentInfo {
        target: PrincipalId::anonymous(),
        vault: pid("vvqfh-4aaaa-aaaao-a2mua-cai"),
        db: pid("vsrdt-ryaaa-aaaao-a2muq-cai"),
    };
    assert_eq!(upgrade_plan(&caller, &info, &None).err(), Some(UpgradeError::NotRegisteredProxy));
    let entry = Some(RegisteredCanisterInRegistry { principal: PrincipalId::anonymous(), vault: pid("vvqfh-4aaaa-aaaao-a2mua-cai") });
    let order = upgrade_plan(&caller, &info, &entry).unwrap();
    assert_eq!(order, vec![pid("vsrdt-ryaaa-aaaao-a2muq-cai"), pid("vvqfh-4aaaa-aaaao-a2mua-cai"), caller]);
}

#[test]
fn initializer_keeps_exactly_the_latest_metrics() {
    let mut s = InitializerState::new(PrincipalId::anonymous());
    assert_eq!(s.get_last_metrics(), None);
    assert_eq!(s.get_metrics_interval_secs(), None);
    s.save_current_metrics(MetricsSnapshot { timestamp: 1, cycles: 10 });
    s.save_current_metrics(MetricsSnapshot { timestamp: 2, cycles: 9 });
    assert_eq!(s.get_last_metrics(), Some(MetricsSnapshot { timestamp: 2, cycles: 9 }));
    s.set_metrics_interval_secs(3_600);
    assert_eq!(s.get_metrics_interval_secs(), Some(3_600));
    s.set_registry(pid("rrkah-fqaaa-aaaaa-aaaaq-cai"));
    assert_eq!(s.get_registry(), pid("rrkah-fqaaa-aaaaa-aaaaq-cai"));
}

#[test]
fn call_results_are_flattened() {
    let ok = flatten_call_result(Ok(Ok(vec![1, 2, 3]))).unwrap();
    assert_eq!(ok.reply_bytes(), vec![1, 2, 3]);
    let inner = flatten_call_result(Ok(Err((RejectionCode::CanisterError, "trapped".to_string()))));
    assert_eq!(inner.err().unwrap(), (RejectionCode::CanisterError, "trapped".to_string()));
    let outer = flatten_call_result(Err((RejectionCode::DestinationInvalid, "no proxy".to_string())));
    assert_eq!(outer.err().unwrap(), (RejectionCode::DestinationInvalid, "no proxy".to_string()));
    assert_eq!(MessageResult::new(vec![7]).reply_bytes(), vec![7]);
    assert_eq!(CallProvider::new(PrincipalId::anonymous()).proxy(), PrincipalId::anonymous());
}

fn test_struct_json() -> Vec<u8> {
    let mut m = serde_json::Map::new();
    m.insert("uint".to_string(), serde_json::Value::from(42u32));
    m.insert("string".to_string(), serde_json::Value::from("Hello, World!"));
    m.insert("vector".to_string(), serde_json::Value::from(vec![0u8, 1, 2, 3, 4, 5]));
    serde_json::to_vec(&serde_json::Value::Object(m)).unwrap()
}

#[test]
fn message_test_new() {
    let recipient = PrincipalId::anonymous();
    let message = Message::new(test_struct_json(), PrincipalId::anonymous(), "");
    assert_eq!(message.recipient(), recipient);
    let content: serde_json::Value = serde_json::from_slice(&message.content_bytes()).unwrap();
    assert_eq!(content["uint"], 42);
    assert_eq!(content["string"], "Hello, World!".to_string());
    assert_eq!(content["vector"], serde_json::Value::from(vec![0u8, 1, 2, 3, 4, 5]));
}

#[test]
fn message_test_reply() {
    let result = MessageResult::new(test_struct_json());
    let content: serde_json::Value = serde_json::from_slice(&result.reply_bytes()).unwrap();
    assert_eq!(content["uint"], 42);
    assert_eq!(content["string"], "Hello, World!".to_string());
    assert_eq!(content["vector"], serde_json::Value::from(vec![0u8, 1, 2, 3, 4, 5]));
}

#[test]
fn install_modes_in_order() {
    assert_eq!(
        CanisterInstallMode::iter(),
        vec![CanisterInstallMode::Install, CanisterInstallMode::Reinstall, CanisterInstallMode::Upgrade]
    );
    assert_eq!(CanisterInstallMode::default(), CanisterInstallMode::Install);
}

#[test]
fn principal_text_round_trip() {
    let p = pid("vvqfh-4aaaa-aaaao-a2mua-cai");
    assert_eq!(p.to_text(), "vvqfh-4aaaa-aaaao-a2mua-cai");
    assert_eq!(PrincipalId::anonymous().to_text(), "2vxsx-fae");
    assert_eq!(pid("2vxsx-fae").as_bytes(), vec![4]);
    assert!(PrincipalId::from_text("not a principal").is_none());
    assert!(PrincipalId::from_bytes(vec![0; 30]).is_none());
    assert_eq!(PrincipalId::from_bytes(vec![4]).unwrap(), PrincipalId::anonymous());
    let id = ID::new(&p);
    assert_eq!(id.to_principal(), Some(pid("vvqfh-4aaaa-aaaao-a2mua-cai")));
}

#[test]
fn registry_admits_only_its_administrators() {
    let proxy = pid("vvqfh-4aaaa-aaaao-a2mua-cai");
    let stranger = pid("vsrdt-ryaaa-aaaao-a2muq-cai");
    assert_eq!(check_only(&PrincipalId::anonymous(), &stranger), Err(AccessError::PrincipalNotSet));
    let mut r = Registry::new(pid("vvqfh-4aaaa-aaaao-a2mua-cai"));
    assert_eq!(r.only_proxy(&proxy), Ok(()));
    assert_eq!(r.only_proxy(&stranger), Err(AccessError::Unauthorized));
    assert_eq!(r.only_owner(&proxy), Err(AccessError::PrincipalNotSet));
    assert_eq!(r.set_owner(&proxy, stranger.duplicate()), Err(AccessError::PrincipalNotSet));
    let input = CanisterRegisterInput::new(stranger.duplicate(), proxy.duplicate());
    assert_eq!(r.register(&stranger, CanisterRegisterInput::new(stranger.duplicate(), proxy.duplicate()), 5), Err(AccessError::Unauthorized));
    assert!(!r.is_registered(&stranger));
    assert_eq!(r.register(&proxy, input, 5), Ok(()));
    assert!(r.is_registered(&stranger));
    assert_eq!(r.unregister(&proxy, &stranger), Ok(()));
    assert!(!r.is_registered(&stranger));
    let c = ChainsightCanister::new(ID::new(&proxy), 9);
    assert!(format!("{:?}", c).contains("9"));
}

#[test]
fn state_frames_round_trip() {
    let data = b"vvqfh-4aaaa-aaaao-a2mua-cai".to_vec();
    let framed = frame_state(&data);
    assert_eq!(&framed[..4], &[27, 0, 0, 0]);
    let mut memory = framed.clone();
    memory.extend_from_slice(&[0; 16]);
    assert_eq!(unframe_state(&memory), Some(data));
    assert_eq!(unframe_state(&vec![1, 0]), None);
    assert_eq!(unframe_state(&vec![9, 0, 0, 0, 1]), None);
    let long = vec![7u8; 300];
    assert_eq!(&frame_state(&long)[..4], &[44, 1, 0, 0]);
}
