use capacity_ledger::identity::{default_account, Identity, MAX_IDENTITY_LEN};
use capacity_ledger::ledger::{next_lookup, ArchiveSpan, LookupStep};
use capacity_ledger::record::{add_seconds, apply_referral, sweep_record, reward_tiers, CapacityRecord};

#[test]
fn identity_keeps_its_bytes() {
    let id = Identity::from_bytes(&[4]).unwrap();
    assert_eq!(id.to_bytes(), vec![4]);
    assert!(Identity::from_bytes(&[7u8; MAX_IDENTITY_LEN]).is_some());
    assert!(Identity::from_bytes(&[7u8; MAX_IDENTITY_LEN + 1]).is_none());
    let other = Identity::from_bytes(&[4, 0]).unwrap();
    assert!(!id.same_as(&other));
    assert!(id.same_as(&Identity::from_bytes(&[4]).unwrap()));
}

#[test]
fn default_account_matches_the_ledger() {
    let bytes = [9u8, 8, 7, 6];
    let id = Identity::from_bytes(&bytes).unwrap();
    let account = default_account(&id);
    let expected = ic_ledger_types::AccountIdentifier::new(
        &candid::Principal::from_slice(&bytes),
        &ic_ledger_types::DEFAULT_SUBACCOUNT,
    );
    assert_eq!(&account[..], expected.as_ref());
    assert_ne!(&account[..4], &bytes[..]);
    let other = default_account(&Identity::from_bytes(&[9u8, 8, 7]).unwrap());
    assert_ne!(account, other);
}

#[test]
fn lookup_uses_live_block_first() {
    let spans = vec![ArchiveSpan { start: 0, length: 10 }];
    assert_eq!(next_lookup(5, 1, &spans), LookupStep::UseLive);
}

#[test]
fn lookup_follows_the_covering_archive() {
    let spans = vec![
        ArchiveSpan { start: 0, length: 10 },
        ArchiveSpan { start: 10, length: 10 },
        ArchiveSpan { start: 15, length: 10 },
    ];
    assert_eq!(next_lookup(0, 0, &spans), LookupStep::AskArchive(0));
    assert_eq!(next_lookup(9, 0, &spans), LookupStep::AskArchive(0));
    assert_eq!(next_lookup(10, 0, &spans), LookupStep::AskArchive(1));
    assert_eq!(next_lookup(17, 0, &spans), LookupStep::AskArchive(1));
    assert_eq!(next_lookup(20, 0, &spans), LookupStep::AskArchive(2));
    assert_eq!(next_lookup(25, 0, &spans), LookupStep::NotFound);
    assert_eq!(next_lookup(3, 0, &vec![]), LookupStep::NotFound);
}

#[test]
fn reward_table_is_fixed() {
    assert_eq!(reward_tiers(), vec![(1, 1), (2, 1), (3, 2), (5, 3), (7, 6)]);
}

#[test]
fn window_arithmetic_saturates() {
    assert_eq!(add_seconds(5, 2), 2_000_000_005);
    assert_eq!(add_seconds(u64::MAX - 1, 1), u64::MAX);
    assert_eq!(add_seconds(0, u64::MAX), u64::MAX);
}

#[test]
fn count_between_thresholds_adds_nothing() {
    let mut r = CapacityRecord::new();
    r.referred_count = 3;
    r.bonus_capacity = 4;
    r.bonus_expiry = 77;
    let out = apply_referral(&r, 1000, 10, 5);
    assert_eq!((out.referred_count, out.bonus_capacity, out.bonus_expiry), (4, 4, 77));
    let out = apply_referral(&out, 1000, 10, 5);
    assert_eq!((out.referred_count, out.bonus_capacity, out.bonus_expiry), (5, 7, 77));
}

#[test]
fn sweep_keeps_records_without_bonus() {
    let mut r = CapacityRecord::new();
    r.referred_count = 2;
    r.bonus_expiry = 10;
    assert_eq!(sweep_record(&r, 50), r);
    r.bonus_capacity = 2;
    assert_eq!(sweep_record(&r, 9), r);
    let out = sweep_record(&r, 10);
    assert_eq!((out.referred_count, out.bonus_expiry, out.bonus_capacity), (0, 0, 0));
}
