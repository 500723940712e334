use chainsight_management::principal::PrincipalId;
use chainsight_management::proxy::{
    calculate_delay_secs_from_current_secs, Error, IndexingConfig, IndexingError, ProxyState, TimerPlan,
};

fn pid(text: &str) -> PrincipalId {
    PrincipalId::from_text(text).unwrap()
}

fn proxy() -> ProxyState {
    ProxyState::new(
        pid("rrkah-fqaaa-aaaaa-aaaaq-cai"),
        pid("vvqfh-4aaaa-aaaao-a2mua-cai"),
        pid("vsrdt-ryaaa-aaaao-a2muq-cai"),
        PrincipalId::anonymous(),
        PrincipalId::anonymous(),
    )
}

#[test]
fn test_calculate_delay_secs_from_current_secs() {
    let secs_20200101_000000 = 946684800;
    assert_eq!(calculate_delay_secs_from_current_secs(secs_20200101_000000 + 15, 60, 0), 45);
    assert_eq!(calculate_delay_secs_from_current_secs(secs_20200101_000000 + 15, 90, 0), 75);
    assert_eq!(calculate_delay_secs_from_current_secs(secs_20200101_000000 + 10 * 60, 60 * 60, 30), 50 * 60 + 30);
}

#[test]
fn only_the_target_may_start_indexing() {
    let mut p = proxy();
    let r = p.start_indexing(&PrincipalId::anonymous(), 60, 0, "index".to_string(), vec![], 1_000);
    assert_eq!(r, Err(IndexingError::NotPermitted));
    assert_eq!(p.next_schedule(), 0);
}

#[test]
fn start_indexing_is_one_shot() {
    let mut p = proxy();
    let target = pid("vvqfh-4aaaa-aaaao-a2mua-cai");
    let plan = p.start_indexing(&target, 60, 10, "index".to_string(), vec![1, 2], 1_000).unwrap();
    assert_eq!(plan, TimerPlan::Delayed { delay_secs: 10, interval_secs: 60 });
    assert_eq!(p.next_schedule(), 1_010);
    let again = p.start_indexing_with_is_rounded(&target, 30, 0, true, "other".to_string(), vec![], 2_000);
    assert_eq!(again, Err(IndexingError::AlreadyStarted));
    assert_eq!(p.next_schedule(), 1_010);
    let c = p.get_indexing_config();
    assert_eq!((c.task_interval_secs, c.method.as_str(), c.args, c.delay_secs), (60, "index", vec![1, 2], Some(10)));
}

#[test]
fn rounded_start_fires_on_the_grid_plus_delay() {
    let mut p = proxy();
    let target = pid("vvqfh-4aaaa-aaaao-a2mua-cai");
    let now = 946_684_815u32;
    let plan = p.start_indexing_with_is_rounded(&target, 60, 7, true, "index".to_string(), vec![], now).unwrap();
    assert_eq!(plan, TimerPlan::Delayed { delay_secs: 52, interval_secs: 60 });
    assert_eq!(p.next_schedule(), now as u64 + 52);
    assert_eq!(p.next_schedule() % 60, 7);
}

#[test]
fn zero_delay_runs_a_tick_immediately() {
    let mut p = proxy();
    let target = pid("vvqfh-4aaaa-aaaao-a2mua-cai");
    let plan = p.start_indexing(&target, 60, 0, "index".to_string(), vec![], 500).unwrap();
    assert_eq!(plan, TimerPlan::Immediate { interval_secs: 60 });
    assert_eq!(p.next_schedule(), 500);
}

#[test]
fn rounded_start_with_zero_interval_is_refused() {
    let mut p = proxy();
    let target = pid("vvqfh-4aaaa-aaaao-a2mua-cai");
    let r = p.start_indexing_with_is_rounded(&target, 0, 0, true, "index".to_string(), vec![], 500);
    assert_eq!(r, Err(IndexingError::InvalidSchedule));
    assert_eq!(p.next_schedule(), 0);
}

#[test]
fn ticks_move_the_next_schedule_forward() {
    let mut p = proxy();
    let target = pid("vvqfh-4aaaa-aaaao-a2mua-cai");
    p.start_indexing(&target, 60, 5, "index".to_string(), vec![9], 100).unwrap();
    let (method, args) = p.begin_tick(105);
    assert_eq!((method.as_str(), args), ("index", vec![9]));
    assert_eq!(p.next_schedule(), 165);
    let first = p.next_schedule();
    p.begin_tick(166);
    assert_eq!(p.next_schedule(), 226);
    assert!(p.next_schedule() >= first);
}

#[test]
fn tick_outcomes_are_recorded() {
    let mut p = proxy();
    p.update_last_execution_result(70, None);
    assert_eq!(p.last_succeeded(), 70);
    let r = p.last_execution_result();
    assert!(r.is_succeeded && r.timestamp == 70 && r.error.is_none());
    p.update_last_execution_result(80, Some(Error { message: "trap".to_string() }));
    assert_eq!(p.last_succeeded(), 70);
    let r = p.last_execution_result();
    assert!(!r.is_succeeded && r.timestamp == 80);
    assert_eq!(r.error.unwrap().message, "trap");
}

#[test]
fn restart_only_after_the_stall_window() {
    let mut p = proxy();
    assert_eq!(p.restart_indexing(true, 10_000), Err(IndexingError::NotConfigured));
    let target = pid("vvqfh-4aaaa-aaaao-a2mua-cai");
    p.start_indexing(&target, 60, 0, "index".to_string(), vec![], 1_000).unwrap();
    p.begin_tick(1_000);
    assert_eq!(p.next_schedule(), 1_060);
    assert_eq!(p.restart_indexing(true, 1_180), Err(IndexingError::NotPermitted));
    assert_eq!(p.restart_indexing(false, 5_000), Err(IndexingError::NotPermitted));
    assert_eq!(p.next_schedule(), 1_060);
    assert_eq!(p.restart_indexing(true, 1_181), Ok(TimerPlan::Immediate { interval_secs: 60 }));
    assert_eq!(p.next_schedule(), 1_181);
}

#[test]
fn post_upgrade_reschedules_one_second_later() {
    let mut p = proxy();
    assert_eq!(p.post_upgrade(100), Ok(None));
    let target = pid("vvqfh-4aaaa-aaaao-a2mua-cai");
    p.start_indexing(&target, 60, 0, "index".to_string(), vec![], 1_000).unwrap();
    assert_eq!(p.post_upgrade(2_000), Ok(Some(TimerPlan::Delayed { delay_secs: 1, interval_secs: 60 })));
    assert_eq!(p.next_schedule(), 2_001);
    assert_eq!(p.get_indexing_config().delay_secs, Some(0));
}

#[test]
fn component_info_and_identities() {
    let mut p = proxy();
    let info = p.get_component_info();
    assert_eq!(info.target, pid("vvqfh-4aaaa-aaaao-a2mua-cai"));
    assert_eq!(info.db, pid("vsrdt-ryaaa-aaaao-a2muq-cai"));
    assert_eq!(info.vault, PrincipalId::anonymous());
    assert_eq!(p.registry(), pid("rrkah-fqaaa-aaaaa-aaaaq-cai"));
    p.set_registry(PrincipalId::anonymous());
    assert_eq!(p.registry(), PrincipalId::anonymous());
    assert!(p.canister_exists(&PrincipalId::anonymous()));
    p.set_next_schedule(9);
    p.set_last_succeeded(8);
    assert_eq!((p.next_schedule(), p.last_succeeded()), (9, 8));
    p.set_indexing_config(IndexingConfig { task_interval_secs: 5, ..IndexingConfig::default() });
    assert_eq!(p.get_indexing_config().task_interval_secs, 5);
}
