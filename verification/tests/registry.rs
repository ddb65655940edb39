use dytallix_node::{Storage, VestingModule, VestingSchedule};

fn sched(denom: &str, total: u128, start: u64, cliff: u64, end: u64) -> VestingSchedule {
    VestingSchedule {
        denom: denom.to_string(),
        total_locked: total,
        start_height: start,
        cliff_height: cliff,
        end_height: end,
    }
}

#[test]
fn load_returns_registered_schedule() {
    let mut m = VestingModule::new(Storage::new());
    assert!(m.load_schedule("dyt1alice").is_none());
    m.register_schedule("dyt1alice", &sched("udgt", 1000, 0, 100, 1000));
    let s = m.load_schedule("dyt1alice").expect("schedule was registered");
    assert_eq!(s.denom, "udgt");
    assert_eq!(s.total_locked, 1000);
    assert_eq!(s.start_height, 0);
    assert_eq!(s.cliff_height, 100);
    assert_eq!(s.end_height, 1000);
    assert!(m.load_schedule("dyt1bob").is_none());
}

#[test]
fn registering_again_replaces_schedule() {
    let mut m = VestingModule::new(Storage::new());
    m.register_schedule("dyt1alice", &sched("udgt", 1000, 0, 100, 1000));
    m.register_schedule("dyt1bob", &sched("udrt", 5, 1, 2, 3));
    m.register_schedule("dyt1alice", &sched("udgt", 77, 10, 20, 30));
    let a = m.load_schedule("dyt1alice").unwrap();
    assert_eq!(a.total_locked, 77);
    assert_eq!(a.end_height, 30);
    let b = m.load_schedule("dyt1bob").unwrap();
    assert_eq!(b.denom, "udrt");
    assert_eq!(b.total_locked, 5);
}

#[test]
fn schedule_is_stored_as_bincode_under_its_key() {
    let mut m = VestingModule::new(Storage::new());
    m.register_schedule("dyt1alice", &sched("udgt", 1000, 0, 100, 1000));
    let expected = bincode::serialize(&("udgt", 1000u128, 0u64, 100u64, 1000u64)).unwrap();
    let mut manual: Vec<u8> = Vec::new();
    manual.extend_from_slice(&4u64.to_le_bytes());
    manual.extend_from_slice(b"udgt");
    manual.extend_from_slice(&1000u128.to_le_bytes());
    manual.extend_from_slice(&0u64.to_le_bytes());
    manual.extend_from_slice(&100u64.to_le_bytes());
    manual.extend_from_slice(&1000u64.to_le_bytes());
    assert_eq!(expected, manual);
    // A schedule written by hand in that encoding is read back.
    let mut raw = Storage::new();
    raw.put("vesting:schedule:dyt1carol".to_string(), manual);
    let from_raw = VestingModule::new(raw);
    let s = from_raw.load_schedule("dyt1carol").unwrap();
    assert_eq!(s.denom, "udgt");
    assert_eq!(s.cliff_height, 100);
    assert_eq!(from_raw.locked_amount("dyt1carol", "udgt", 500), 500);
}

#[test]
fn undecodable_bytes_give_no_schedule() {
    let mut raw = Storage::new();
    raw.put("vesting:schedule:dyt1dave".to_string(), vec![1, 2, 3]);
    let m = VestingModule::new(raw);
    assert!(m.load_schedule("dyt1dave").is_none());
    assert_eq!(m.locked_amount("dyt1dave", "udgt", 10), 0);
    assert_eq!(m.spendable(40, "dyt1dave", "udgt", 10), 40);
}

#[test]
fn locked_amount_follows_schedule_of_same_denom() {
    let mut m = VestingModule::new(Storage::new());
    m.register_schedule("dyt1alice", &sched("udgt", 1000, 0, 100, 1000));
    assert_eq!(m.locked_amount("dyt1alice", "udgt", 50), 1000);
    assert_eq!(m.locked_amount("dyt1alice", "udgt", 500), 500);
    assert_eq!(m.locked_amount("dyt1alice", "udgt", 1000), 0);
    assert_eq!(m.locked_amount("dyt1alice", "uother", 500), 0);
    assert_eq!(m.locked_amount("dyt1nobody", "udgt", 500), 0);
}

#[test]
fn spendable_saturates_at_zero() {
    let mut m = VestingModule::new(Storage::new());
    m.register_schedule("dyt1alice", &sched("udgt", 1000, 0, 100, 1000));
    assert_eq!(m.spendable(1500, "dyt1alice", "udgt", 500), 1000);
    assert_eq!(m.spendable(300, "dyt1alice", "udgt", 500), 0);
    assert_eq!(m.spendable(300, "dyt1alice", "udgt", 2000), 300);
    assert_eq!(m.spendable(300, "dyt1alice", "uother", 0), 300);
}

#[test]
fn sufficient_balance_stays_sufficient() {
    let mut m = VestingModule::new(Storage::new());
    m.register_schedule("dyt1alice", &sched("udgt", 1_000_000, 10, 100, 10_000));
    let amount = 400_000u128;
    let total = 1_200_000u128;
    let first = (0..20_000u64)
        .step_by(7)
        .find(|h| m.spendable(total, "dyt1alice", "udgt", *h) >= amount)
        .expect("eventually spendable");
    for h in first..first + 3000 {
        assert!(m.spendable(total, "dyt1alice", "udgt", h) >= amount);
    }
}

#[test]
fn storage_put_and_get() {
    let mut s = Storage::new();
    let k = "a".to_string();
    assert!(s.get(&k).is_none());
    s.put(k.clone(), vec![1, 2]);
    s.put("b".to_string(), vec![3]);
    s.put(k.clone(), vec![9]);
    assert_eq!(s.get(&k), Some(vec![9]));
    assert_eq!(s.get(&"b".to_string()), Some(vec![3]));
    assert!(s.get(&"c".to_string()).is_none());
}

#[test]
fn checked_amounts_refuse_start_after_end_in_linear_phase() {
    let mut m = VestingModule::new(Storage::new());
    m.register_schedule("dyt1erin", &sched("udgt", 1000, 10, 0, 5));
    assert_eq!(m.checked_locked_amount("dyt1erin", "udgt", 1), None);
    assert_eq!(m.checked_spendable(50, "dyt1erin", "udgt", 1), None);
    // outside the linear phase the amount is computable
    assert_eq!(m.checked_locked_amount("dyt1erin", "udgt", 5), Some(0));
    assert_eq!(m.checked_spendable(50, "dyt1erin", "udgt", 7), Some(50));
    // other denominations and unknown addresses lock nothing
    assert_eq!(m.checked_locked_amount("dyt1erin", "uother", 1), Some(0));
    assert_eq!(m.checked_locked_amount("dyt1nobody", "udgt", 1), Some(0));
}

#[test]
fn checked_amounts_agree_with_unchecked() {
    let mut m = VestingModule::new(Storage::new());
    m.register_schedule("dyt1alice", &sched("udgt", 1000, 0, 100, 1000));
    for h in [0u64, 99, 100, 500, 999, 1000, 4000] {
        assert_eq!(m.checked_locked_amount("dyt1alice", "udgt", h), Some(m.locked_amount("dyt1alice", "udgt", h)));
        assert_eq!(m.checked_spendable(700, "dyt1alice", "udgt", h), Some(m.spendable(700, "dyt1alice", "udgt", h)));
    }
}
