//! The per-identity capacity record, the referral reward table and bonus
//! expiry.
use vstd::prelude::*;

use crate::identity::Identity;

verus! {

/// Nanoseconds in one second: reward windows are configured in seconds and
/// timestamps are in nanoseconds.
pub const NANOS_PER_SECOND: u64 = 1_000_000_000;

/// What one identity has paid and unlocked, and the bonus it holds as a
/// referrer.
#[derive(Clone, Copy, Debug, PartialEq, Eq)]
pub struct CapacityRecord {
    /// Who referred this identity; set at its first unlock only.
    pub referrer: Option<Identity>,
    /// How many times this identity has unlocked.
    pub unlocked_capacity: u64,
    /// Reward units from referrals, held until `bonus_expiry`.
    pub bonus_capacity: u64,
    /// How many first unlocks this identity has referred in the current window.
    pub referred_count: u64,
    /// When the bonus window ends, in nanoseconds; zero when none is open.
    pub bonus_expiry: u64,
    /// All that this identity has paid.
    pub total_paid: u128,
    /// What it has paid and not yet spent on an unlock.
    pub unspent_credit: u128,
}

pub open spec fn empty_record() -> CapacityRecord {
    CapacityRecord {
        referrer: None,
        unlocked_capacity: 0,
        bonus_capacity: 0,
        referred_count: 0,
        bonus_expiry: 0,
        total_paid: 0,
        unspent_credit: 0,
    }
}

impl CapacityRecord {
    /// A record with nothing paid, unlocked or referred.
    pub fn new() -> (r: CapacityRecord)
        ensures
            r == empty_record(),
    {
        CapacityRecord {
            referrer: None,
            unlocked_capacity: 0,
            bonus_capacity: 0,
            referred_count: 0,
            bonus_expiry: 0,
            total_paid: 0,
            unspent_credit: 0,
        }
    }

    /// The facts every record keeps: credit never exceeds what was paid, a
    /// referrer is only recorded by an unlock, and no bonus is held without a
    /// referral counted.
    pub open spec fn wf(self) -> bool {
        &&& self.unspent_credit <= self.total_paid
        &&& self.referrer is Some ==> self.unlocked_capacity > 0
        &&& self.referred_count == 0 ==> self.bonus_capacity == 0
    }
}

/// The reward table: (referred-count threshold, bonus units), ascending by
/// threshold.
pub open spec fn reward_table() -> Seq<(u64, u64)> {
    seq![(1u64, 1u64), (2u64, 1u64), (3u64, 2u64), (5u64, 3u64), (7u64, 6u64)]
}

/// The reward table as a vector.
pub fn reward_tiers() -> (r: Vec<(u64, u64)>)
    ensures
        r@ == reward_table(),
{
    let r = vec![(1u64, 1u64), (2u64, 1u64), (3u64, 2u64), (5u64, 3u64), (7u64, 6u64)];
    assert(r@ =~= reward_table());
    r
}

/// The reward of the first tier, from position `i` on, whose threshold is
/// `count`.
pub open spec fn tier_reward_from(table: Seq<(u64, u64)>, count: u64, i: int) -> Option<u64>
    decreases table.len() - i,
{
    if i < 0 || i >= table.len() {
        None
    } else if table[i].0 == count {
        Some(table[i].1)
    } else {
        tier_reward_from(table, count, i + 1)
    }
}

pub open spec fn saturate(x: int) -> u64 {
    if x > u64::MAX {
        u64::MAX
    } else {
        x as u64
    }
}

/// `at` moved on by `secs` seconds, held at the largest timestamp.
pub open spec fn later_by(at: u64, secs: u64) -> u64 {
    saturate(at + secs * NANOS_PER_SECOND)
}

/// A referrer's record after one more of its referrals has unlocked for the
/// first time, at time `now`.
pub open spec fn rewarded(r: CapacityRecord, now: u64, base_window: u64, extension_window: u64) -> CapacityRecord {
    let table = reward_table();
    let count = saturate(r.referred_count + 1);
    let counted = CapacityRecord { referred_count: count, ..r };
    if count == table[0].0 {
        CapacityRecord {
            bonus_expiry: later_by(now, base_window),
            bonus_capacity: table[0].1,
            ..counted
        }
    } else if count > table.last().0 {
        CapacityRecord { bonus_expiry: later_by(r.bonus_expiry, extension_window), ..counted }
    } else {
        match tier_reward_from(table, count, 0) {
            Some(units) => CapacityRecord {
                bonus_capacity: saturate(r.bonus_capacity + units),
                ..counted
            },
            None => counted,
        }
    }
}

/// `at + secs` seconds, held at the largest timestamp.
pub fn add_seconds(at: u64, secs: u64) -> (r: u64)
    ensures
        r == later_by(at, secs),
{
    if secs > u64::MAX / NANOS_PER_SECOND {
        assert(secs * NANOS_PER_SECOND > u64::MAX) by (nonlinear_arith)
            requires
                secs > u64::MAX / NANOS_PER_SECOND,
        ;
        return u64::MAX;
    }
    assert(secs * NANOS_PER_SECOND <= u64::MAX) by (nonlinear_arith)
        requires
            secs <= u64::MAX / NANOS_PER_SECOND,
    ;
    let span = secs * NANOS_PER_SECOND;
    at.saturating_add(span)
}

/// Applies one referral to the referrer's record (see `rewarded`).
pub fn apply_referral(r: &CapacityRecord, now: u64, base_window: u64, extension_window: u64) -> (out: CapacityRecord)
    ensures
        out == rewarded(*r, now, base_window, extension_window),
{
    let table = reward_tiers();
    let mut out = *r;
    out.referred_count = r.referred_count.saturating_add(1);
    let count = out.referred_count;
    let (first_count, first_reward) = table[0];
    let (last_count, _) = table[table.len() - 1];
    if count == first_count {
        out.bonus_expiry = add_seconds(now, base_window);
        out.bonus_capacity = first_reward;
    } else if count > last_count {
        out.bonus_expiry = add_seconds(r.bonus_expiry, extension_window);
    } else {
        let mut i: usize = 0;
        while i < table.len()
            invariant
                table@ == reward_table(),
                i <= table@.len(),
                out == (CapacityRecord { referred_count: count, ..*r }),
                count == saturate(r.referred_count + 1),
                count != reward_table()[0].0,
                count <= reward_table().last().0,
                tier_reward_from(table@, count, 0) == tier_reward_from(table@, count, i as int),
            decreases table@.len() - i,
        {
            let (threshold, units) = table[i];
            if threshold == count {
                assert(tier_reward_from(table@, count, i as int) == Some(units));
                out.bonus_capacity = r.bonus_capacity.saturating_add(units);
                return out;
            }
            i = i + 1;
        }
    }
    out
}

/// A record after the expiry sweep at time `now`: an expired bonus window is
/// closed and its bonus and count cleared.
pub open spec fn swept(r: CapacityRecord, now: u64) -> CapacityRecord {
    if r.bonus_capacity != 0 && now >= r.bonus_expiry {
        CapacityRecord { referred_count: 0, bonus_expiry: 0, bonus_capacity: 0, ..r }
    } else {
        r
    }
}

/// Applies the expiry sweep to one record (see `swept`).
pub fn sweep_record(r: &CapacityRecord, now: u64) -> (out: CapacityRecord)
    ensures
        out == swept(*r, now),
{
    let mut out = *r;
    if r.bonus_capacity != 0 && now >= r.bonus_expiry {
        out.referred_count = 0;
        out.bonus_expiry = 0;
        out.bonus_capacity = 0;
    }
    out
}

} // verus!
