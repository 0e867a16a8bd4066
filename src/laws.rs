//! What holds of every unlock, stated over the model of `service`.
use vstd::prelude::*;

use crate::error::ServiceError;
use crate::identity::Identity;
use crate::record::{rewarded, swept, CapacityRecord};
use crate::service::{
    charge_overflows, charged, entries_wf, lemma_position, lemma_unlock_wf, paid_amount, position,
    record_or_empty, unlock_outcome, with_record, Entry, ServiceConfig, VerifiedPayment,
};

verus! {

/// A block index pays for at most one unlock: an attempt that succeeds with a
/// payment consumes its block, and every later attempt that cites the same
/// block, by any caller, is rejected as already used and changes nothing.
pub proof fn law_block_consumed_once(
    cfg: ServiceConfig,
    es: Seq<Entry>,
    cs: Seq<u64>,
    caller: Identity,
    payment: VerifiedPayment,
    inviter: Option<Identity>,
    now: u64,
    other: Identity,
    again: VerifiedPayment,
    other_inviter: Option<Identity>,
    later: u64,
)
    requires
        again.block_index == payment.block_index,
    ensures
        ({
            let (es1, cs1, r1) = unlock_outcome(cfg, es, cs, caller, Some(payment), inviter, now);
            &&& r1 is Ok ==> cs1.contains(payment.block_index)
            &&& cs1.contains(payment.block_index) ==> unlock_outcome(
                cfg,
                es1,
                cs1,
                other,
                Some(again),
                other_inviter,
                later,
            ) == (es1, cs1, Err::<(), ServiceError>(ServiceError::BlockAlreadyUsed))
        }),
{
    let (es1, cs1, r1) = unlock_outcome(cfg, es, cs, caller, Some(payment), inviter, now);
    if r1 is Ok {
        assert(cs1 == cs.push(payment.block_index));
        assert(cs1[cs.len() as int] == payment.block_index);
    }
}

/// Credit never exceeds what was paid: every unlock keeps
/// `unspent_credit <= total_paid` in every record.
pub proof fn law_credit_within_paid(
    cfg: ServiceConfig,
    es: Seq<Entry>,
    cs: Seq<u64>,
    caller: Identity,
    payment: Option<VerifiedPayment>,
    inviter: Option<Identity>,
    now: u64,
)
    requires
        entries_wf(es),
    ensures
        ({
            let (es2, _, _) = unlock_outcome(cfg, es, cs, caller, payment, inviter, now);
            forall|i: int| 0 <= i < es2.len() ==> (#[trigger] es2[i]).record.unspent_credit <= es2[i].record.total_paid
        }),
{
    lemma_unlock_wf(cfg, es, cs, caller, payment, inviter, now);
    let (es2, _, _) = unlock_outcome(cfg, es, cs, caller, payment, inviter, now);
    assert forall|i: int| 0 <= i < es2.len() implies (#[trigger] es2[i]).record.unspent_credit <= es2[i].record.total_paid by {
        assert(es2[i].record.wf());
    }
}

/// What one unlock does to the record at position `i` of the entries: it is
/// kept, or charged (the caller's own), and then possibly rewarded (the
/// referrer's).
proof fn lemma_record_step(
    cfg: ServiceConfig,
    es: Seq<Entry>,
    cs: Seq<u64>,
    caller: Identity,
    payment: Option<VerifiedPayment>,
    inviter: Option<Identity>,
    now: u64,
    i: int,
)
    requires
        entries_wf(es),
        0 <= i < es.len(),
    ensures
        ({
            let (es2, _, _) = unlock_outcome(cfg, es, cs, caller, payment, inviter, now);
            let rec = record_or_empty(es, caller@);
            let mid = if position(es, caller@) == Some(i) && !charge_overflows(
                cfg,
                rec,
                paid_amount(payment),
                inviter is Some,
            ) && !(payment matches Some(p) && cs.contains(p.block_index)) {
                charged(cfg, es[i].record, paid_amount(payment), inviter)
            } else {
                es[i].record
            };
            ||| es2[i].record == mid
            ||| es2[i].record == rewarded(mid, now, cfg.base_expire, cfg.extend_expire)
        }),
{
    lemma_position(es, caller@);
    let rec = record_or_empty(es, caller@);
    let amount = paid_amount(payment);
    if payment matches Some(p) && cs.contains(p.block_index) {
    } else if charge_overflows(cfg, rec, amount, inviter is Some) {
    } else {
        let es1 = with_record(es, caller, charged(cfg, rec, amount, inviter));
        if let Some(p) = inviter {
            lemma_position(es1, p@);
        }
    }
}

/// A referrer, once recorded, never changes: after a first unlock the
/// `referrer` of a record stays as it is, whatever referrer later calls name.
pub proof fn law_referrer_kept(
    cfg: ServiceConfig,
    es: Seq<Entry>,
    cs: Seq<u64>,
    caller: Identity,
    payment: Option<VerifiedPayment>,
    inviter: Option<Identity>,
    now: u64,
)
    requires
        entries_wf(es),
    ensures
        ({
            let (es2, _, _) = unlock_outcome(cfg, es, cs, caller, payment, inviter, now);
            forall|i: int|
                0 <= i < es.len() && (es[i].record.referrer is Some || es[i].record.unlocked_capacity > 0)
                    ==> (#[trigger] es2[i]).owner == es[i].owner && es2[i].record.referrer == es[i].record.referrer
        }),
{
    lemma_unlock_wf(cfg, es, cs, caller, payment, inviter, now);
    let (es2, _, _) = unlock_outcome(cfg, es, cs, caller, payment, inviter, now);
    assert forall|i: int|
        0 <= i < es.len() && (es[i].record.referrer is Some || es[i].record.unlocked_capacity > 0)
            implies (#[trigger] es2[i]).owner == es[i].owner && es2[i].record.referrer == es[i].record.referrer by {
        assert(es[i].record.wf());
        lemma_record_step(cfg, es, cs, caller, payment, inviter, now, i);
    }
}

/// The discounted fee is for a first unlock only: when the caller has
/// unlocked before, a committed attempt credits the payment and takes the
/// standard fee if the credit reaches it, whether or not a referrer is named.
pub proof fn law_standard_fee_after_first(
    cfg: ServiceConfig,
    es: Seq<Entry>,
    cs: Seq<u64>,
    caller: Identity,
    payment: Option<VerifiedPayment>,
    inviter: Option<Identity>,
    now: u64,
)
    requires
        entries_wf(es),
        record_or_empty(es, caller@).unlocked_capacity > 0,
    ensures
        ({
            let (es2, _, r) = unlock_outcome(cfg, es, cs, caller, payment, inviter, now);
            let old_rec = record_or_empty(es, caller@);
            let new_rec = record_or_empty(es2, caller@);
            let credit = old_rec.unspent_credit + paid_amount(payment);
            r != Err::<(), ServiceError>(ServiceError::BlockAlreadyUsed) && r != Err::<(), ServiceError>(
                ServiceError::Overflow,
            ) ==> if credit >= cfg.fee {
                new_rec.unspent_credit == credit - cfg.fee && new_rec.unlocked_capacity
                    == old_rec.unlocked_capacity + 1
            } else {
                new_rec.unspent_credit == credit && new_rec.unlocked_capacity == old_rec.unlocked_capacity
            }
        }),
{
    lemma_position(es, caller@);
    lemma_unlock_wf(cfg, es, cs, caller, payment, inviter, now);
    let (es2, _, r) = unlock_outcome(cfg, es, cs, caller, payment, inviter, now);
    let i = position(es, caller@).unwrap();
    lemma_record_step(cfg, es, cs, caller, payment, inviter, now, i);
    lemma_position(es2, caller@);
    if position(es2, caller@) != Some(i) {
        assert(es2[i].owner@ == caller@);
        let k = position(es2, caller@).unwrap();
        if k < i {
            assert(es2[k].owner@ == caller@);
        }
    }
}

/// Rewards only grow: no unlock lowers any record's `bonus_capacity` or
/// `referred_count` (only the expiry sweep resets them).
pub proof fn law_rewards_monotonic(
    cfg: ServiceConfig,
    es: Seq<Entry>,
    cs: Seq<u64>,
    caller: Identity,
    payment: Option<VerifiedPayment>,
    inviter: Option<Identity>,
    now: u64,
)
    requires
        entries_wf(es),
    ensures
        ({
            let (es2, _, _) = unlock_outcome(cfg, es, cs, caller, payment, inviter, now);
            forall|i: int|
                0 <= i < es.len() ==> (#[trigger] es2[i]).record.bonus_capacity >= es[i].record.bonus_capacity
                    && es2[i].record.referred_count >= es[i].record.referred_count
        }),
{
    let (es2, _, _) = unlock_outcome(cfg, es, cs, caller, payment, inviter, now);
    assert forall|i: int| 0 <= i < es.len() implies (#[trigger] es2[i]).record.bonus_capacity
        >= es[i].record.bonus_capacity && es2[i].record.referred_count >= es[i].record.referred_count by {
        assert(es[i].record.wf());
        lemma_record_step(cfg, es, cs, caller, payment, inviter, now, i);
    }
}

/// The expiry sweep is idempotent: sweeping a record twice at the same time
/// leaves it as the first sweep did.
pub proof fn law_sweep_idempotent(r: CapacityRecord, now: u64)
    ensures
        swept(swept(r, now), now) == swept(r, now),
{
}

} // verus!
