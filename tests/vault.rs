use chainsight_management::ledger::{Balance, Index, LedgerError, ShareLedger};
use chainsight_management::principal::PrincipalId;
use chainsight_management::vault::{
    first_monitoring_delay, monitoring_snapshot, total_cycles, ComponentMetricsSnapshot, CycleBalance,
    RefuelTarget, VaultError, VaultState,
};

fn pid(text: &str) -> PrincipalId {
    PrincipalId::from_text(text).unwrap()
}

fn empty_vault() -> VaultState {
    VaultState::new(pid("vvqfh-4aaaa-aaaao-a2mua-cai"), &PrincipalId::anonymous(), &Balance(0), &vec![], &vec![]).unwrap()
}

#[test]
fn test_index() {
    let mut v = empty_vault();
    let depositor1 = pid("vvqfh-4aaaa-aaaao-a2mua-cai");

    // initial supply
    let initial = 1_000;
    v.increase_index(&Balance::from(initial), &depositor1).unwrap();
    assert_eq!(v.index(), Index::from(initial));
    assert_eq!(v.share_of(&depositor1), v.index());
    assert_eq!(v.total_supply(), Balance::from(initial));
    assert_eq!(v.balance_of(&depositor1), v.total_supply());

    // withdraw
    v.decrease_index(&Balance::from(400), &depositor1).unwrap();
    assert_eq!(v.index(), Index::from(600));
    assert_eq!(v.share_of(&depositor1), v.index());
    assert_eq!(v.total_supply(), Balance::from(600));
    assert_eq!(v.balance_of(&depositor1), v.total_supply());

    // receive revenue
    v.add_total_supply(&Balance::from(300), false).unwrap();
    assert_eq!(v.index(), Index::from(600));
    assert_eq!(v.share_of(&depositor1), v.index());
    assert_eq!(v.total_supply(), Balance::from(900));
    assert_eq!(v.balance_of(&depositor1), v.total_supply());

    let depositor2 = pid("vsrdt-ryaaa-aaaao-a2muq-cai");
    // supply
    v.increase_index(&Balance::from(300), &depositor2).unwrap();
    assert_eq!(v.index(), Index::from(800));
    assert_eq!(v.share_of(&depositor1), Index::from(600));
    assert_eq!(v.share_of(&depositor2), Index::from(200));
    assert_eq!(v.total_supply(), Balance::from(1200));
    assert_eq!(v.balance_of(&depositor1), Balance::from(900));
    assert_eq!(v.balance_of(&depositor2), Balance::from(300));

    // withdraw
    v.decrease_index(&Balance::from(150), &depositor2).unwrap();
    assert_eq!(v.index(), Index::from(700));
    assert_eq!(v.share_of(&depositor1), Index::from(600));
    assert_eq!(v.share_of(&depositor2), Index::from(100));
    assert_eq!(v.total_supply(), Balance::from(1050));
    assert_eq!(v.balance_of(&depositor1), Balance::from(900));
    assert_eq!(v.balance_of(&depositor2), Balance::from(150));
}

fn target(text: &str, threshold: u128, amount: u128) -> RefuelTarget {
    RefuelTarget { id: pid(text), threshold, amount }
}

#[test]
fn test_put_refuel_target() {
    let mut v = empty_vault();
    v.upsert_refuel_target(target("vvqfh-4aaaa-aaaao-a2mua-cai", 100, 200));
    let got = v.get_refuel_targets();
    assert_eq!(got[0].id, pid("vvqfh-4aaaa-aaaao-a2mua-cai"));
    assert_eq!((got[0].threshold, got[0].amount), (100, 200));
    assert_eq!(got.len(), 1);

    v.upsert_refuel_target(target("vsrdt-ryaaa-aaaao-a2muq-cai", 1000, 2000));
    let got = v.get_refuel_targets();
    assert_eq!(got[1].id, pid("vsrdt-ryaaa-aaaao-a2muq-cai"));
    assert_eq!((got[1].threshold, got[1].amount), (1000, 2000));
    assert_eq!(got.len(), 2);

    v.upsert_refuel_target(target("vvqfh-4aaaa-aaaao-a2mua-cai", 100, 300));
    let got = v.get_refuel_targets();
    assert_eq!(got[0].amount, 300);
    assert_eq!(got[0].id, pid("vvqfh-4aaaa-aaaao-a2mua-cai"));
    assert_eq!(got.len(), 2);
}

#[test]
fn put_refuel_target_needs_a_controller() {
    let mut v = empty_vault();
    let r = v.put_refuel_target(false, target("vvqfh-4aaaa-aaaao-a2mua-cai", 100, 200));
    assert_eq!(r, Err(VaultError::NotPermitted));
    assert_eq!(v.get_refuel_targets().len(), 0);
    assert_eq!(v.put_refuel_target(true, target("vvqfh-4aaaa-aaaao-a2mua-cai", 100, 200)), Ok(()));
    assert_eq!(v.get_refuel_targets().len(), 1);
}

#[test]
fn test_metrics() {
    let mut v = empty_vault();
    let snap1 = ComponentMetricsSnapshot { timestamp: 1, cycles: 100 };
    let snap2 = ComponentMetricsSnapshot { timestamp: 2, cycles: 90 };
    let snap3 = ComponentMetricsSnapshot { timestamp: 3, cycles: 80 };
    v.add_component_metrics_snapshot(snap1);
    v.add_component_metrics_snapshot(snap2);
    v.add_component_metrics_snapshot(snap3);

    assert_eq!(v.metric(), Ok(snap3));
    assert_eq!(v.metrics(2), vec![snap3, snap2]);

    let snap4 = ComponentMetricsSnapshot { timestamp: 4, cycles: 70 };
    v.add_component_metrics_snapshot(snap4);

    assert_eq!(v.metric(), Ok(snap4));
    assert_eq!(v.metrics(3), vec![snap4, snap3, snap2]);
    assert_eq!(v.metrics(10).len(), 4);
}

#[test]
fn metric_when_no_monitor_is_an_error() {
    let v = empty_vault();
    assert_eq!(v.metric(), Err(VaultError::NoMetrics));
    assert_eq!(v.metrics(3), vec![]);
}

#[test]
fn test_balance_add() {
    assert_eq!(Balance::from(1).add(&Balance::from(1)), 2.into());
    assert_eq!(Balance::default().add(&Balance::from(1)), 1.into());
}

#[test]
fn test_balance_sub() {
    assert_eq!(Balance::from(2).sub(&Balance::from(1)), 1.into());
    assert_eq!(Balance::from(1).sub(&Balance::from(1)), Balance::default());
}

#[test]
fn types_test_index_add() {
    assert_eq!(Index::from(1).add(&Index::from(1)), 2.into());
    assert_eq!(Index::default().add(&Index::from(1)), 1.into());
}

#[test]
fn types_test_index_sub() {
    assert_eq!(Index::from(2).sub(&Index::from(1)), 1.into());
    assert_eq!(Index::from(1).sub(&Index::from(1)), Index::default());
}

#[test]
fn test_index_share() {
    assert_eq!(Index::from(100).share(&Balance::from(50), &Balance::from(100)), Index::from(50));
    assert_eq!(Index::from(10).share(&Balance::from(50), &Balance::from(100)), Index::from(5));
}

#[test]
fn index_share_on_empty_supply_is_one_per_cycle() {
    assert_eq!(Index::from(0).share(&Balance::from(70), &Balance::from(0)), Index::from(70));
}

#[test]
fn test_index_to_balance() {
    assert_eq!(Index::from(50).to_balance(&Index::from(100), &Balance::from(100)), Balance::from(50));
    assert_eq!(Index::from(5).to_balance(&Index::from(10), &Balance::from(100)), Balance::from(50));
    assert_eq!(Index::from(5).to_balance(&Index::from(10), &Balance::from(50)), Balance::from(25));
    assert_eq!(Index::from(5).to_balance(&Index::from(0), &Balance::from(50)), Balance::from(0));
}

fn shares_sum(v: &VaultState, ids: &[&PrincipalId]) -> u128 {
    ids.iter().map(|d| v.share_of(d).value()).sum()
}

#[test]
fn shares_always_add_up_to_the_index() {
    let mut v = empty_vault();
    let d1 = pid("vvqfh-4aaaa-aaaao-a2mua-cai");
    let d2 = pid("vsrdt-ryaaa-aaaao-a2muq-cai");
    v.supply(&d1, None, 1_000).unwrap();
    v.supply(&d1, Some(pid("vsrdt-ryaaa-aaaao-a2muq-cai")), 333).unwrap();
    v.receive_revenue(77).unwrap();
    v.withdraw(&d1, &Balance(123), v.total_supply().value()).unwrap();
    v.supply(&d2, None, 19).unwrap();
    assert_eq!(shares_sum(&v, &[&d1, &d2]), v.index().value());
}

#[test]
fn supply_credits_the_nominee_or_the_caller() {
    let mut v = empty_vault();
    let caller = pid("vvqfh-4aaaa-aaaao-a2mua-cai");
    let nominee = pid("vsrdt-ryaaa-aaaao-a2muq-cai");
    v.supply(&caller, Some(pid("vsrdt-ryaaa-aaaao-a2muq-cai")), 500).unwrap();
    assert_eq!(v.share_of(&nominee), Index(500));
    assert_eq!(v.share_of(&caller), Index(0));
    v.supply(&caller, None, 0).unwrap();
    assert_eq!(v.share_of(&caller), Index(0));
    assert_eq!(v.total_supply(), Balance(500));
}

#[test]
fn revenue_keeps_shares_and_raises_balances() {
    let mut v = empty_vault();
    let d1 = pid("vvqfh-4aaaa-aaaao-a2mua-cai");
    let d2 = pid("vsrdt-ryaaa-aaaao-a2muq-cai");
    v.supply(&d1, None, 700).unwrap();
    v.supply(&d2, None, 300).unwrap();
    let (s1, s2) = (v.share_of(&d1), v.share_of(&d2));
    let (b1, b2) = (v.balance_of(&d1), v.balance_of(&d2));
    v.receive_revenue(100).unwrap();
    assert_eq!((v.share_of(&d1), v.share_of(&d2)), (s1, s2));
    assert_eq!(v.balance_of(&d1), Balance(770));
    assert_eq!(v.balance_of(&d2), Balance(330));
    assert!(v.balance_of(&d1).value() >= b1.value() && v.balance_of(&d2).value() >= b2.value());
}

#[test]
fn revenue_without_cycles_is_refused() {
    let mut v = empty_vault();
    assert_eq!(v.receive_revenue(0), Err(LedgerError::NoCycles));
    assert_eq!(v.total_supply(), Balance(0));
}

#[test]
fn sole_depositor_withdraws_the_whole_supply() {
    let mut v = empty_vault();
    let d = pid("vvqfh-4aaaa-aaaao-a2mua-cai");
    v.supply(&d, None, 1_000).unwrap();
    v.receive_revenue(234).unwrap();
    let live = v.total_supply().value();
    let all = v.withdrawable_of(&d, live).unwrap();
    assert_eq!(all, Balance(1_234));
    v.withdraw(&d, &all, live).unwrap();
    assert_eq!(v.total_supply(), Balance(0));
    assert_eq!(v.index(), Index(0));
    assert_eq!(v.share_of(&d), Index(0));
}

#[test]
fn withdrawals_never_pay_out_more_than_the_supply() {
    let mut v = empty_vault();
    let ids = [pid("vvqfh-4aaaa-aaaao-a2mua-cai"), pid("vsrdt-ryaaa-aaaao-a2muq-cai"), PrincipalId::anonymous()];
    v.supply(&ids[0], None, 1_000).unwrap();
    v.supply(&ids[1], None, 333).unwrap();
    v.receive_revenue(101).unwrap();
    v.supply(&ids[2], None, 77).unwrap();
    let start = v.total_supply().value();
    let mut paid = 0u128;
    for d in ids.iter() {
        let live = v.total_supply().value();
        let w = v.withdrawable_of(d, live).unwrap();
        v.withdraw(d, &w, live).unwrap();
        paid += w.value();
    }
    assert_eq!(start, 1_511);
    assert_eq!(paid, 1_508);
    assert_eq!(paid + v.total_supply().value(), start);
    // each depositor is left one share of dust
    assert_eq!(v.index(), Index(3));
}

#[test]
fn withdraw_fails_exactly_beyond_the_withdrawable() {
    let mut v = empty_vault();
    let d = pid("vvqfh-4aaaa-aaaao-a2mua-cai");
    v.supply(&d, None, 1_000).unwrap();
    // the vault actually holds fewer cycles than its supply
    assert_eq!(v.withdraw(&d, &Balance(901), 900), Err(LedgerError::InsufficientBalance));
    assert_eq!(v.total_supply(), Balance(1_000));
    assert_eq!(v.withdraw(&d, &Balance(900), 900), Ok(()));
    assert_eq!(v.total_supply(), Balance(100));
    let stranger = pid("vsrdt-ryaaa-aaaao-a2muq-cai");
    assert_eq!(v.withdraw(&stranger, &Balance(1), 100), Err(LedgerError::InsufficientBalance));
}

#[test]
fn decrease_beyond_the_share_is_refused() {
    let mut v = empty_vault();
    let d = pid("vvqfh-4aaaa-aaaao-a2mua-cai");
    v.increase_index(&Balance(100), &d).unwrap();
    assert_eq!(v.decrease_index(&Balance(101), &d), Err(LedgerError::InsufficientBalance));
    assert_eq!(v.index(), Index(100));
}

#[test]
fn deposit_overflow_is_refused_without_change() {
    let mut v = empty_vault();
    let d = pid("vvqfh-4aaaa-aaaao-a2mua-cai");
    v.increase_index(&Balance(1u128 << 63), &d).unwrap();
    assert_eq!(v.increase_index(&Balance(1u128 << 63), &d), Err(LedgerError::Overflow));
    assert_eq!(v.total_supply(), Balance(1u128 << 63));
    assert_eq!(v.salvage_stray_cycles(u128::MAX), Err(LedgerError::Overflow));
}

#[test]
fn salvage_raises_the_supply_and_never_lowers_it() {
    let mut v = empty_vault();
    let d = pid("vvqfh-4aaaa-aaaao-a2mua-cai");
    v.supply(&d, None, 1_000).unwrap();
    v.salvage_stray_cycles(800).unwrap();
    assert_eq!(v.total_supply(), Balance(1_000));
    v.salvage_stray_cycles(1_500).unwrap();
    assert_eq!(v.total_supply(), Balance(1_500));
    assert_eq!(v.balance_of(&d), Balance(1_500));
}

#[test]
fn refuel_dispenses_exactly_at_or_below_the_threshold() {
    let t = target("vvqfh-4aaaa-aaaao-a2mua-cai", 100, 250);
    assert_eq!(t.dispense_for(Some(99)), 250);
    assert_eq!(t.dispense_for(Some(100)), 250);
    assert_eq!(t.dispense_for(Some(101)), 0);
    assert_eq!(t.dispense_for(None), 250);
    assert!(t.needs_refuel(None));
    assert!(!t.needs_refuel(Some(1_000)));
}

#[test]
fn cumulative_refueled_is_the_sum_of_dispenses() {
    let mut v = empty_vault();
    let a = pid("vvqfh-4aaaa-aaaao-a2mua-cai");
    let b = pid("vsrdt-ryaaa-aaaao-a2muq-cai");
    assert_eq!(v.get_cumulative_refueled(&a), 0);
    v.record_cumulative_refueled(&a, 200).unwrap();
    v.record_cumulative_refueled(&b, 5).unwrap();
    v.record_cumulative_refueled(&a, 300).unwrap();
    assert_eq!(v.get_cumulative_refueled(&a), 500);
    assert_eq!(v.get_cumulative_refueled(&b), 5);
    let all = v.get_cumulative_refueled_all();
    assert_eq!(all.len(), 2);
    assert_eq!((&all[0].0, all[0].1), (&a, 500));
    assert_eq!(v.record_cumulative_refueled(&b, u128::MAX), Err(VaultError::Overflow));
    assert_eq!(v.get_cumulative_refueled(&b), 5);
}

#[test]
fn new_vault_books_its_initial_state() {
    let target_id = pid("vvqfh-4aaaa-aaaao-a2mua-cai");
    let deployer = pid("vsrdt-ryaaa-aaaao-a2muq-cai");
    let targets = vec![target("vvqfh-4aaaa-aaaao-a2mua-cai", 10, 20), target("vsrdt-ryaaa-aaaao-a2muq-cai", 30, 40)];
    let refueled = vec![(pid("vvqfh-4aaaa-aaaao-a2mua-cai"), 7u128), (pid("vvqfh-4aaaa-aaaao-a2mua-cai"), 8u128)];
    let v = VaultState::new(target_id, &deployer, &Balance(5_000), &targets, &refueled).unwrap();
    assert_eq!(v.balance_of(&deployer), Balance(5_000));
    assert_eq!(v.get_refuel_targets().len(), 2);
    assert_eq!(v.get_cumulative_refueled(&pid("vvqfh-4aaaa-aaaao-a2mua-cai")), 15);
    assert_eq!(v.target_canister(), pid("vvqfh-4aaaa-aaaao-a2mua-cai"));
    let big = VaultState::new(pid("vvqfh-4aaaa-aaaao-a2mua-cai"), &deployer, &Balance(u128::MAX), &vec![], &vec![]);
    assert_eq!(big.err(), Some(VaultError::Ledger(LedgerError::Overflow)));
}

#[test]
fn cycle_balances_list_the_vault_first() {
    let mut v = empty_vault();
    v.upsert_refuel_target(target("vsrdt-ryaaa-aaaao-a2muq-cai", 1, 2));
    let me = pid("vvqfh-4aaaa-aaaao-a2mua-cai");
    let list = v.get_cycle_balances(&me, 1_000, &vec![250]);
    assert_eq!(list.len(), 2);
    assert_eq!((&list[0].id, list[0].amount), (&me, 1_000));
    assert_eq!((list[1].id.to_text(), list[1].amount), ("vsrdt-ryaaa-aaaao-a2muq-cai".to_string(), 250));
    assert_eq!(total_cycles(&list), Some(1_250));
    let snap = monitoring_snapshot(42, &list).unwrap();
    assert_eq!(snap, ComponentMetricsSnapshot { timestamp: 42, cycles: 1_250 });
    let huge = vec![CycleBalance { id: me.duplicate(), amount: u128::MAX }, CycleBalance { id: me, amount: 1 }];
    assert_eq!(total_cycles(&huge), None);
}

#[test]
fn monitoring_starts_on_the_next_grid_point() {
    assert_eq!(first_monitoring_delay(7_200, 3_600), 0);
    assert_eq!(first_monitoring_delay(7_201, 3_600), 3_599);
    assert_eq!(first_monitoring_delay(946_684_815, 60), 45);
}

#[test]
fn ledger_starts_empty() {
    let l = ShareLedger::new();
    assert_eq!(l.index(), Index(0));
    assert_eq!(l.total_supply(), Balance(0));
    assert_eq!(l.balance_of(&PrincipalId::anonymous()), Balance(0));
}

#[test]
fn vault_survives_a_round_trip_through_its_parts() {
    let mut v = empty_vault();
    let d = pid("vvqfh-4aaaa-aaaao-a2mua-cai");
    v.supply(&d, None, 900).unwrap();
    v.upsert_refuel_target(target("vsrdt-ryaaa-aaaao-a2muq-cai", 1, 2));
    v.record_cumulative_refueled(&d, 4).unwrap();
    v.add_component_metrics_snapshot(ComponentMetricsSnapshot { timestamp: 1, cycles: 2 });
    let ledger = ShareLedger::restore(v.ledger_entries(), v.index().value(), v.total_supply().value()).unwrap();
    let back = VaultState::restore(
        ledger,
        v.get_refuel_targets(),
        v.get_cumulative_refueled_all(),
        v.all_metrics(),
        v.target_canister(),
    )
    .unwrap();
    assert_eq!(back.balance_of(&d), Balance(900));
    assert_eq!(back.get_cumulative_refueled(&d), 4);
    assert_eq!(back.metric(), Ok(ComponentMetricsSnapshot { timestamp: 1, cycles: 2 }));
    assert_eq!(back.get_refuel_targets().len(), 1);
}

#[test]
fn inconsistent_parts_are_refused() {
    let d = pid("vvqfh-4aaaa-aaaao-a2mua-cai");
    assert!(ShareLedger::restore(vec![(d.duplicate(), 5)], 6, 10).is_none());
    assert!(ShareLedger::restore(vec![(d.duplicate(), 3), (d.duplicate(), 3)], 6, 10).is_none());
    assert!(ShareLedger::restore(vec![(d.duplicate(), 6)], 6, u128::MAX).is_none());
    let ok = ShareLedger::restore(vec![(d.duplicate(), 6)], 6, 10).unwrap();
    let twice = vec![target("vsrdt-ryaaa-aaaao-a2muq-cai", 1, 2), target("vsrdt-ryaaa-aaaao-a2muq-cai", 3, 4)];
    assert!(VaultState::restore(ok, twice, vec![], vec![], d).is_none());
}
