use capacity_ledger::error::ServiceError;
use capacity_ledger::identity::{default_account, Identity};
use capacity_ledger::ledger::{FetchedBlock, LedgerOperation};
use capacity_ledger::record::{CapacityRecord, NANOS_PER_SECOND};
use capacity_ledger::service::{CapacityService, Entry, ServiceConfig, VerifiedPayment};

const FEE: u128 = 100;
const DISCOUNT: u128 = 60;
const BASE: u64 = 10;
const EXTEND: u64 = 5;
const NOW: u64 = 1_000_000;

fn id(b: u8) -> Identity {
    Identity::from_bytes(&[b, 1, 2]).unwrap()
}

fn owner() -> Identity {
    id(200)
}

fn fee_to() -> Identity {
    id(201)
}

fn service() -> CapacityService {
    CapacityService::init(owner(), id(202), FEE, DISCOUNT, fee_to(), BASE, EXTEND)
}

fn transfer(from: &Identity, to: &Identity, amount: u64) -> FetchedBlock {
    FetchedBlock::Found(LedgerOperation::Transfer {
        from: default_account(from),
        to: default_account(to),
        amount,
    })
}

/// Runs the three phases of an unlock, as the service front does.
fn unlock(
    s: &mut CapacityService,
    caller: Identity,
    block: Option<(u64, FetchedBlock)>,
    inviter: Option<Identity>,
    now: u64,
) -> Result<(), ServiceError> {
    s.prepare_active_capacity(block.as_ref().map(|b| b.0), inviter)?;
    let payment = match block {
        Some((index, fetched)) => {
            let amount = s.check_charge_block(&caller, fetched)?;
            Some(VerifiedPayment { block_index: index, amount })
        }
        None => None,
    };
    s.active_capacity(caller, payment, inviter, now)
}

fn pay(s: &mut CapacityService, caller: Identity, index: u64, amount: u64, inviter: Option<Identity>) -> Result<(), ServiceError> {
    let fetched = transfer(&caller, &fee_to(), amount);
    unlock(s, caller, Some((index, fetched)), inviter, NOW)
}

fn record(s: &CapacityService, who: Identity) -> CapacityRecord {
    s.get_capacity_info(&who).unwrap()
}

#[test]
fn unlock_with_standard_fee_without_referrer() {
    let mut s = service();
    let a = id(1);
    assert_eq!(pay(&mut s, a, 7, FEE as u64, None), Ok(()));
    let r = record(&s, a);
    assert_eq!(r.unlocked_capacity, 1);
    assert_eq!(r.unspent_credit, 0);
    assert_eq!(r.total_paid, FEE);
    assert_eq!(r.referrer, None);
    assert!(s.is_consumed(7));
}

#[test]
fn referred_first_unlock_with_discounted_fee() {
    let mut s = service();
    let a = id(1);
    let b = id(2);
    pay(&mut s, a, 1, FEE as u64, None).unwrap();
    assert_eq!(pay(&mut s, b, 2, DISCOUNT as u64, Some(a)), Ok(()));
    let rb = record(&s, b);
    assert_eq!(rb.unlocked_capacity, 1);
    assert_eq!(rb.unspent_credit, 0);
    assert_eq!(rb.referrer, Some(a));
    let ra = record(&s, a);
    assert_eq!(ra.referred_count, 1);
    assert_eq!(ra.bonus_expiry, NOW + BASE * NANOS_PER_SECOND);
    assert_eq!(ra.bonus_capacity, 1);
}

#[test]
fn referrals_follow_the_reward_table() {
    let mut s = service();
    let a = id(1);
    pay(&mut s, a, 1, FEE as u64, None).unwrap();
    let expected_bonus = [1u64, 2, 4, 4, 7, 7, 13];
    for k in 0..7u8 {
        pay(&mut s, id(10 + k), 100 + k as u64, DISCOUNT as u64, Some(a)).unwrap();
        let ra = record(&s, a);
        assert_eq!(ra.referred_count, k as u64 + 1);
        assert_eq!(ra.bonus_capacity, expected_bonus[k as usize]);
        assert_eq!(ra.bonus_expiry, NOW + BASE * NANOS_PER_SECOND);
    }
}

#[test]
fn referral_past_last_tier_extends_window() {
    let mut s = service();
    let a = id(1);
    pay(&mut s, a, 1, FEE as u64, None).unwrap();
    for k in 0..7u8 {
        pay(&mut s, id(10 + k), 100 + k as u64, DISCOUNT as u64, Some(a)).unwrap();
    }
    let before = record(&s, a);
    assert_eq!(before.referred_count, 7);
    pay(&mut s, id(30), 300, DISCOUNT as u64, Some(a)).unwrap();
    let after = record(&s, a);
    assert_eq!(after.referred_count, 8);
    assert_eq!(after.bonus_expiry, before.bonus_expiry + EXTEND * NANOS_PER_SECOND);
    assert_eq!(after.bonus_capacity, before.bonus_capacity);
}

#[test]
fn sweep_clears_expired_bonus_once() {
    let mut s = service();
    let a = id(1);
    pay(&mut s, a, 1, FEE as u64, None).unwrap();
    pay(&mut s, id(2), 2, DISCOUNT as u64, Some(a)).unwrap();
    let expiry = record(&s, a).bonus_expiry;
    s.clear_expire_capacity(expiry - 1);
    assert_eq!(record(&s, a).bonus_capacity, 1);
    s.clear_expire_capacity(expiry);
    let r = record(&s, a);
    assert_eq!((r.bonus_capacity, r.referred_count, r.bonus_expiry), (0, 0, 0));
    assert_eq!(r.unlocked_capacity, 1);
    let entries_before = s.entries.clone();
    s.clear_expire_capacity(expiry + 1);
    assert_eq!(s.entries, entries_before);
}

#[test]
fn someone_elses_transfer_is_rejected() {
    let mut s = service();
    let a = id(1);
    let thief = id(9);
    let fetched = transfer(&a, &fee_to(), FEE as u64);
    assert_eq!(
        unlock(&mut s, thief, Some((5, fetched.clone())), None, NOW),
        Err(ServiceError::InvalidTransaction)
    );
    assert!(s.entries.is_empty());
    assert!(!s.is_consumed(5));
    assert_eq!(unlock(&mut s, a, Some((5, fetched)), None, NOW), Ok(()));
    assert_eq!(record(&s, a).unlocked_capacity, 1);
}

#[test]
fn transfer_to_another_recipient_is_rejected() {
    let s = service();
    let a = id(1);
    assert_eq!(
        s.check_charge_block(&a, transfer(&a, &id(50), FEE as u64)),
        Err(ServiceError::InvalidTransaction)
    );
}

#[test]
fn block_is_consumed_once() {
    let mut s = service();
    let a = id(1);
    let b = id(2);
    pay(&mut s, a, 3, FEE as u64, None).unwrap();
    assert_eq!(pay(&mut s, a, 3, FEE as u64, None), Err(ServiceError::BlockAlreadyUsed));
    assert_eq!(pay(&mut s, b, 3, FEE as u64, None), Err(ServiceError::BlockAlreadyUsed));
    assert_eq!(record(&s, a).total_paid, FEE);
}

#[test]
fn interleaved_attempts_on_one_block() {
    let mut s = service();
    let a = id(1);
    s.prepare_active_capacity(Some(4), None).unwrap();
    s.prepare_active_capacity(Some(4), None).unwrap();
    let first = s.check_charge_block(&a, transfer(&a, &fee_to(), 80)).unwrap();
    let second = s.check_charge_block(&a, transfer(&a, &fee_to(), 80)).unwrap();
    let p1 = VerifiedPayment { block_index: 4, amount: first };
    let p2 = VerifiedPayment { block_index: 4, amount: second };
    assert_eq!(s.active_capacity(a, Some(p1), None, NOW), Ok(()));
    assert_eq!(s.active_capacity(a, Some(p2), None, NOW), Err(ServiceError::BlockAlreadyUsed));
    let r = record(&s, a);
    assert_eq!((r.total_paid, r.unspent_credit, r.unlocked_capacity), (80, 80, 0));
}

#[test]
fn credit_accumulates_across_calls() {
    let mut s = service();
    let a = id(1);
    pay(&mut s, a, 1, 40, None).unwrap();
    let r = record(&s, a);
    assert_eq!((r.unlocked_capacity, r.unspent_credit, r.total_paid), (0, 40, 40));
    pay(&mut s, a, 2, 70, None).unwrap();
    let r = record(&s, a);
    assert_eq!((r.unlocked_capacity, r.unspent_credit, r.total_paid), (1, 10, 110));
    assert!(r.unspent_credit <= r.total_paid);
}

#[test]
fn unlock_without_payment_uses_banked_credit() {
    let mut s = service();
    let a = id(1);
    pay(&mut s, a, 1, 250, None).unwrap();
    let r = record(&s, a);
    assert_eq!((r.unlocked_capacity, r.unspent_credit), (1, 150));
    assert_eq!(unlock(&mut s, a, None, None, NOW), Ok(()));
    let r = record(&s, a);
    assert_eq!((r.unlocked_capacity, r.unspent_credit), (2, 50));
    let fresh = id(3);
    assert_eq!(unlock(&mut s, fresh, None, None, NOW), Ok(()));
    assert_eq!(record(&s, fresh), CapacityRecord::new());
}

#[test]
fn standard_fee_after_first_unlock() {
    let mut s = service();
    let a = id(1);
    let b = id(2);
    pay(&mut s, a, 1, FEE as u64, None).unwrap();
    pay(&mut s, b, 2, DISCOUNT as u64, Some(a)).unwrap();
    pay(&mut s, b, 3, DISCOUNT as u64, Some(a)).unwrap();
    let rb = record(&s, b);
    assert_eq!((rb.unlocked_capacity, rb.unspent_credit), (1, DISCOUNT));
    pay(&mut s, b, 4, (FEE - DISCOUNT) as u64, Some(a)).unwrap();
    let rb = record(&s, b);
    assert_eq!((rb.unlocked_capacity, rb.unspent_credit), (2, 0));
    assert_eq!(record(&s, a).referred_count, 1);
}

#[test]
fn referrer_is_never_replaced() {
    let mut s = service();
    let a = id(1);
    let c = id(3);
    let b = id(2);
    pay(&mut s, a, 1, FEE as u64, None).unwrap();
    pay(&mut s, c, 2, FEE as u64, None).unwrap();
    pay(&mut s, b, 3, DISCOUNT as u64, Some(a)).unwrap();
    pay(&mut s, b, 4, FEE as u64, Some(c)).unwrap();
    assert_eq!(record(&s, b).referrer, Some(a));
    assert_eq!(record(&s, c).referred_count, 0);
}

#[test]
fn referrer_without_first_unlock_stays_unset() {
    let mut s = service();
    let a = id(1);
    pay(&mut s, a, 1, FEE as u64, None).unwrap();
    let r = record(&s, a);
    assert_eq!(r.referrer, None);
    pay(&mut s, a, 2, FEE as u64, None).unwrap();
    assert_eq!(record(&s, a).referrer, None);
}

#[test]
fn rewards_never_decrease() {
    let mut s = service();
    let a = id(1);
    pay(&mut s, a, 1, FEE as u64, None).unwrap();
    let mut last = record(&s, a);
    for k in 0..9u8 {
        pay(&mut s, id(10 + k), 100 + k as u64, DISCOUNT as u64, Some(a)).unwrap();
        let now = record(&s, a);
        assert!(now.bonus_capacity >= last.bonus_capacity);
        assert!(now.referred_count >= last.referred_count);
        last = now;
    }
}

#[test]
fn inviter_must_exist_and_have_unlocked() {
    let mut s = service();
    let a = id(1);
    let b = id(2);
    assert_eq!(pay(&mut s, b, 1, DISCOUNT as u64, Some(a)), Err(ServiceError::InviterNotFound));
    pay(&mut s, a, 2, 10, None).unwrap();
    assert_eq!(pay(&mut s, b, 3, DISCOUNT as u64, Some(a)), Err(ServiceError::InvalidInviter));
    assert!(!s.is_consumed(3));
}

#[test]
fn stale_inviter_reported_after_unlock() {
    let mut s = service();
    let b = id(2);
    let absent_referrer = id(77);
    let payment = VerifiedPayment { block_index: 9, amount: DISCOUNT as u64 };
    assert_eq!(
        s.active_capacity(b, Some(payment), Some(absent_referrer), NOW),
        Err(ServiceError::InviterNotFound)
    );
    let rb = record(&s, b);
    assert_eq!(rb.unlocked_capacity, 1);
    assert_eq!(rb.referrer, Some(absent_referrer));
    assert!(s.is_consumed(9));
}

#[test]
fn closed_service_refuses_unlock() {
    let mut s = service();
    assert_eq!(s.set_closed(&owner(), true), Ok(()));
    assert_eq!(pay(&mut s, id(1), 1, FEE as u64, None), Err(ServiceError::Closed));
    assert!(s.entries.is_empty());
}

#[test]
fn only_owner_changes_configuration() {
    let mut s = service();
    assert_eq!(s.set_fee(&id(1), 5), Err(ServiceError::InvalidCaller));
    assert_eq!(s.get_stats().fee, FEE);
    assert_eq!(s.set_fee(&owner(), 5), Ok(()));
    assert_eq!(s.set_fee_with_inviter(&owner(), 3), Ok(()));
    assert_eq!(s.set_fee_to(&owner(), id(9)), Ok(()));
    assert_eq!(s.set_base_expire(&owner(), 11), Ok(()));
    assert_eq!(s.set_extend_expire(&owner(), 12), Ok(()));
    let c = s.get_stats();
    assert_eq!((c.fee, c.fee_with_inviter, c.base_expire, c.extend_expire), (5, 3, 11, 12));
    assert_eq!(c.fee_to, id(9));
    assert!(!c.closed);
}

#[test]
fn fetch_failures_are_rejections() {
    let s = service();
    let a = id(1);
    assert_eq!(s.check_charge_block(&a, FetchedBlock::NotFound), Err(ServiceError::BlockNotFound));
    assert_eq!(
        s.check_charge_block(&a, FetchedBlock::Failed("unreachable".to_string())),
        Err(ServiceError::LedgerUnavailable("unreachable".to_string()))
    );
    assert_eq!(
        s.check_charge_block(&a, FetchedBlock::Found(LedgerOperation::Other)),
        Err(ServiceError::InvalidBlock)
    );
    assert_eq!(s.check_charge_block(&a, transfer(&a, &fee_to(), 42)), Ok(42));
}

#[test]
fn unknown_account_is_not_found() {
    let s = service();
    assert_eq!(s.get_capacity_info(&id(1)), Err(ServiceError::AccountNotFound));
}

#[test]
fn credit_overflow_is_refused() {
    let a = id(1);
    let mut rec = CapacityRecord::new();
    rec.total_paid = u128::MAX - 5;
    rec.unspent_credit = 0;
    let cfg = service().get_stats();
    let mut s = CapacityService::restore(cfg, vec![Entry { owner: a, record: rec }], vec![]).unwrap();
    let payment = VerifiedPayment { block_index: 1, amount: 6 };
    assert_eq!(s.active_capacity(a, Some(payment), None, NOW), Err(ServiceError::Overflow));
    assert!(!s.is_consumed(1));
    assert_eq!(record(&s, a), rec);
}

#[test]
fn restore_rejects_broken_state() {
    let cfg = service().get_stats();
    let a = id(1);
    let mut bad = CapacityRecord::new();
    bad.unspent_credit = 5;
    assert!(CapacityService::restore(cfg, vec![Entry { owner: a, record: bad }], vec![]).is_none());
    let good = CapacityRecord::new();
    let twice = vec![Entry { owner: a, record: good }, Entry { owner: a, record: good }];
    assert!(CapacityService::restore(cfg, twice, vec![]).is_none());
    let s = CapacityService::restore(cfg, vec![Entry { owner: a, record: good }], vec![3]).unwrap();
    assert!(s.is_consumed(3));
}

#[test]
fn listing_pages_in_order_of_first_contact() {
    let mut s = service();
    for k in 0..5u8 {
        pay(&mut s, id(k), k as u64, (k as u64) * 10, None).unwrap();
    }
    let page = s.get_all_capacity_info(1, 2);
    assert_eq!(page.iter().map(|r| r.total_paid).collect::<Vec<_>>(), vec![10, 20]);
    assert_eq!(s.get_all_capacity_info(4, 10).len(), 1);
    assert!(s.get_all_capacity_info(9, 3).is_empty());
    assert!(s.get_all_capacity_info(0, 0).is_empty());
}
