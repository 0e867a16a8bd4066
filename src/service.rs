//! The service state: configuration, capacity records and consumed blocks,
//! and the unlock operation in its three phases.
use vstd::prelude::*;

use crate::error::ServiceError;
use crate::identity::{default_account_of, Identity};
use crate::ledger::{block_listed, payment_check, verify_payment, FetchedBlock};
use crate::record::{apply_referral, empty_record, rewarded, sweep_record, swept, CapacityRecord};

verus! {

/// The configuration that every accounting operation reads.
#[derive(Clone, Copy, Debug, PartialEq, Eq)]
pub struct ServiceConfig {
    /// The identity allowed to change the configuration.
    pub owner: Identity,
    /// Whether unlocks are refused.
    pub closed: bool,
    /// The standard unlock fee.
    pub fee: u128,
    /// The fee of a first unlock that names a referrer.
    pub fee_with_inviter: u128,
    /// The identity whose default account receives payments.
    pub fee_to: Identity,
    /// The ledger service that holds the payments.
    pub ledger: Identity,
    /// Length of a new bonus window, in seconds.
    pub base_expire: u64,
    /// How far a referral past the last tier extends the window, in seconds.
    pub extend_expire: u64,
}

/// A capacity record and the identity it belongs to.
#[derive(Clone, Copy, Debug, PartialEq, Eq)]
pub struct Entry {
    pub owner: Identity,
    pub record: CapacityRecord,
}

/// A payment that the block check accepted: its block and amount.
#[derive(Clone, Copy, Debug, PartialEq, Eq)]
pub struct VerifiedPayment {
    pub block_index: u64,
    pub amount: u64,
}

/// The whole state of the service.
#[derive(Clone, Debug)]
pub struct CapacityService {
    pub config: ServiceConfig,
    /// One entry per identity, in order of first contact.
    pub entries: Vec<Entry>,
    /// The block indices accepted as payment so far.
    pub consumed: Vec<u64>,
}

/// The position of the first entry, from `i` on, that belongs to `key`.
pub open spec fn position_from(es: Seq<Entry>, key: Seq<u8>, i: int) -> Option<int>
    decreases es.len() - i,
{
    if i < 0 || i >= es.len() {
        None
    } else if es[i].owner@ == key {
        Some(i)
    } else {
        position_from(es, key, i + 1)
    }
}

pub open spec fn position(es: Seq<Entry>, key: Seq<u8>) -> Option<int> {
    position_from(es, key, 0)
}

pub open spec fn record_of(es: Seq<Entry>, key: Seq<u8>) -> Option<CapacityRecord> {
    match position(es, key) {
        Some(i) => Some(es[i].record),
        None => None,
    }
}

pub open spec fn record_or_empty(es: Seq<Entry>, key: Seq<u8>) -> CapacityRecord {
    match record_of(es, key) {
        Some(r) => r,
        None => empty_record(),
    }
}

/// Every record keeps its own facts, and no identity has two entries.
pub open spec fn entries_wf(es: Seq<Entry>) -> bool {
    &&& forall|i: int| 0 <= i < es.len() ==> (#[trigger] es[i]).record.wf()
    &&& forall|i: int, j: int|
        0 <= i < j < es.len() ==> (#[trigger] es[i]).owner@ != (#[trigger] es[j]).owner@
}

/// The entries with `key`'s record replaced by `rec`, or `rec` added for it.
pub open spec fn with_record(es: Seq<Entry>, key: Identity, rec: CapacityRecord) -> Seq<Entry> {
    match position(es, key@) {
        Some(i) => es.update(i, Entry { owner: es[i].owner, record: rec }),
        None => es.push(Entry { owner: key, record: rec }),
    }
}

/// A referrer is valid when it has a record with at least one unlock.
pub open spec fn inviter_check(es: Seq<Entry>, inviter: Option<Identity>) -> Result<(), ServiceError> {
    match inviter {
        None => Ok(()),
        Some(p) => match record_of(es, p@) {
            None => Err(ServiceError::InviterNotFound),
            Some(r) => if r.unlocked_capacity == 0 {
                Err(ServiceError::InvalidInviter)
            } else {
                Ok(())
            },
        },
    }
}

/// The fee that applies to `rec`: the discounted one for a first unlock that
/// names a referrer, else the standard one.
pub open spec fn applicable_fee(cfg: ServiceConfig, rec: CapacityRecord, has_inviter: bool) -> u128 {
    if rec.unlocked_capacity == 0 && has_inviter {
        cfg.fee_with_inviter
    } else {
        cfg.fee
    }
}

pub open spec fn paid_amount(payment: Option<VerifiedPayment>) -> u64 {
    match payment {
        Some(p) => p.amount,
        None => 0,
    }
}

/// Whether crediting `amount` brings the credit up to the applicable fee.
pub open spec fn reaches_fee(cfg: ServiceConfig, rec: CapacityRecord, amount: u64, has_inviter: bool) -> bool {
    rec.unspent_credit + amount >= applicable_fee(cfg, rec, has_inviter)
}

/// Whether the charge would take a counter or an amount out of its range.
pub open spec fn charge_overflows(cfg: ServiceConfig, rec: CapacityRecord, amount: u64, has_inviter: bool) -> bool {
    ||| rec.total_paid + amount > u128::MAX
    ||| (reaches_fee(cfg, rec, amount, has_inviter) && rec.unlocked_capacity == u64::MAX)
}

/// Whether the charge is the identity's first unlock.
pub open spec fn opens_account(cfg: ServiceConfig, rec: CapacityRecord, amount: u64, has_inviter: bool) -> bool {
    rec.unlocked_capacity == 0 && reaches_fee(cfg, rec, amount, has_inviter)
}

/// `rec` after `amount` is credited and, where the credit reaches the fee, one
/// unlock is paid for.
pub open spec fn charged(cfg: ServiceConfig, rec: CapacityRecord, amount: u64, inviter: Option<Identity>) -> CapacityRecord {
    let fee = applicable_fee(cfg, rec, inviter is Some);
    let credit = rec.unspent_credit + amount;
    let total = (rec.total_paid + amount) as u128;
    if credit >= fee {
        CapacityRecord {
            unlocked_capacity: (rec.unlocked_capacity + 1) as u64,
            unspent_credit: (credit - fee) as u128,
            total_paid: total,
            referrer: if rec.unlocked_capacity == 0 && inviter is Some {
                inviter
            } else {
                rec.referrer
            },
            ..rec
        }
    } else {
        CapacityRecord { unspent_credit: credit as u128, total_paid: total, ..rec }
    }
}

/// The entries after the referrer `key` is rewarded, or `None` when it has no
/// record.
pub open spec fn after_reward(es: Seq<Entry>, key: Seq<u8>, now: u64, cfg: ServiceConfig) -> Option<Seq<Entry>> {
    match position(es, key) {
        Some(j) => Some(
            es.update(
                j,
                Entry {
                    owner: es[j].owner,
                    record: rewarded(es[j].record, now, cfg.base_expire, cfg.extend_expire),
                },
            ),
        ),
        None => None,
    }
}

/// The entries, the consumed blocks and the answer after `caller` commits an
/// unlock at time `now`.
pub open spec fn unlock_outcome(
    cfg: ServiceConfig,
    es: Seq<Entry>,
    cs: Seq<u64>,
    caller: Identity,
    payment: Option<VerifiedPayment>,
    inviter: Option<Identity>,
    now: u64,
) -> (Seq<Entry>, Seq<u64>, Result<(), ServiceError>) {
    let rec = record_or_empty(es, caller@);
    let amount = paid_amount(payment);
    let has_inviter = inviter is Some;
    if payment matches Some(p) && cs.contains(p.block_index) {
        (es, cs, Err(ServiceError::BlockAlreadyUsed))
    } else if charge_overflows(cfg, rec, amount, has_inviter) {
        (es, cs, Err(ServiceError::Overflow))
    } else {
        let es1 = with_record(es, caller, charged(cfg, rec, amount, inviter));
        let cs1 = match payment {
            Some(p) => cs.push(p.block_index),
            None => cs,
        };
        match inviter {
            Some(p) => if opens_account(cfg, rec, amount, has_inviter) {
                match after_reward(es1, p@, now, cfg) {
                    Some(es2) => (es2, cs1, Ok(())),
                    None => (es1, cs1, Err(ServiceError::InviterNotFound)),
                }
            } else {
                (es1, cs1, Ok(()))
            },
            None => (es1, cs1, Ok(())),
        }
    }
}

/// The records from position `start`, at most `limit` of them.
pub open spec fn page(es: Seq<Entry>, start: nat, limit: nat) -> Seq<CapacityRecord> {
    let lo = if start < es.len() { start as int } else { es.len() as int };
    let hi = if lo + limit < es.len() { lo + limit } else { es.len() as int };
    es.subrange(lo, hi).map_values(|e: Entry| e.record)
}

pub proof fn lemma_position_from(es: Seq<Entry>, key: Seq<u8>, i: int)
    requires
        0 <= i <= es.len(),
    ensures
        position_from(es, key, i) matches Some(k) ==> (i <= k < es.len() && es[k].owner@ == key),
        position_from(es, key, i) is None ==> forall|k: int| i <= k < es.len() ==> es[k].owner@ != key,
    decreases es.len() - i,
{
    if i < es.len() {
        lemma_position_from(es, key, i + 1);
    }
}

pub proof fn lemma_position(es: Seq<Entry>, key: Seq<u8>)
    ensures
        position(es, key) matches Some(k) ==> (0 <= k < es.len() && es[k].owner@ == key),
        position(es, key) is None ==> forall|k: int| 0 <= k < es.len() ==> es[k].owner@ != key,
{
    lemma_position_from(es, key, 0);
}

/// Replacing or adding a well-formed record keeps the entries well formed.
pub proof fn lemma_with_record_wf(es: Seq<Entry>, key: Identity, rec: CapacityRecord)
    requires
        entries_wf(es),
        rec.wf(),
    ensures
        entries_wf(with_record(es, key, rec)),
        with_record(es, key, rec).len() >= es.len(),
        forall|i: int| 0 <= i < es.len() ==> (#[trigger] with_record(es, key, rec)[i]).owner == es[i].owner,
{
    lemma_position(es, key@);
    let out = with_record(es, key, rec);
    assert forall|i: int, j: int| 0 <= i < j < out.len() implies (#[trigger] out[i]).owner@ != (#[trigger] out[j]).owner@ by {
        if j < es.len() {
            assert(out[i].owner == es[i].owner && out[j].owner == es[j].owner);
        } else {
            assert(out[i].owner == es[i].owner);
        }
    }
}

pub proof fn lemma_charged_wf(cfg: ServiceConfig, rec: CapacityRecord, amount: u64, inviter: Option<Identity>)
    requires
        rec.wf(),
        !charge_overflows(cfg, rec, amount, inviter is Some),
    ensures
        charged(cfg, rec, amount, inviter).wf(),
{
}

pub proof fn lemma_after_reward_wf(es: Seq<Entry>, key: Seq<u8>, now: u64, cfg: ServiceConfig)
    requires
        entries_wf(es),
    ensures
        after_reward(es, key, now, cfg) matches Some(out) ==> entries_wf(out) && out.len() == es.len()
            && forall|i: int| 0 <= i < es.len() ==> (#[trigger] out[i]).owner == es[i].owner,
{
    lemma_position(es, key);
    if let Some(out) = after_reward(es, key, now, cfg) {
        let j = position(es, key).unwrap();
        assert(out[j].record.wf());
        assert forall|i: int, k: int| 0 <= i < k < out.len() implies (#[trigger] out[i]).owner@ != (#[trigger] out[k]).owner@ by {
            assert(out[i].owner == es[i].owner && out[k].owner == es[k].owner);
        }
    }
}

/// An unlock keeps the entries well formed, keeps each entry's owner at its
/// position, and only adds consumed blocks.
pub proof fn lemma_unlock_wf(
    cfg: ServiceConfig,
    es: Seq<Entry>,
    cs: Seq<u64>,
    caller: Identity,
    payment: Option<VerifiedPayment>,
    inviter: Option<Identity>,
    now: u64,
)
    requires
        entries_wf(es),
    ensures
        ({
            let (es2, cs2, _) = unlock_outcome(cfg, es, cs, caller, payment, inviter, now);
            &&& entries_wf(es2)
            &&& es2.len() >= es.len()
            &&& forall|i: int| 0 <= i < es.len() ==> (#[trigger] es2[i]).owner == es[i].owner
            &&& forall|b: u64| cs.contains(b) ==> cs2.contains(b)
        }),
{
    let rec = record_or_empty(es, caller@);
    let amount = paid_amount(payment);
    let has_inviter = inviter is Some;
    lemma_position(es, caller@);
    if payment matches Some(p) && cs.contains(p.block_index) {
    } else if charge_overflows(cfg, rec, amount, has_inviter) {
    } else {
        assert(rec.wf());
        lemma_charged_wf(cfg, rec, amount, inviter);
        lemma_with_record_wf(es, caller, charged(cfg, rec, amount, inviter));
        let es1 = with_record(es, caller, charged(cfg, rec, amount, inviter));
        if let Some(p) = inviter {
            lemma_after_reward_wf(es1, p@, now, cfg);
        }
        if let Some(p) = payment {
            assert forall|b: u64| cs.contains(b) implies cs.push(p.block_index).contains(b) by {
                let k = choose|k: int| 0 <= k < cs.len() && cs[k] == b;
                assert(cs.push(p.block_index)[k] == b);
            }
        }
    }
}

/// The outcome of a configuration change requested by `caller`: applied as
/// `cfg` when the caller is the owner, refused otherwise; records and consumed
/// blocks untouched either way.
pub open spec fn config_change(
    before: CapacityService,
    after: CapacityService,
    caller: Identity,
    r: Result<(), ServiceError>,
    cfg: ServiceConfig,
) -> bool {
    &&& after.entries@ == before.entries@
    &&& after.consumed@ == before.consumed@
    &&& if caller@ == before.config.owner@ {
        r == Ok::<(), ServiceError>(()) && after.config == cfg
    } else {
        r == Err::<(), ServiceError>(ServiceError::InvalidCaller) && after.config == before.config
    }
}

impl CapacityService {
    pub open spec fn wf(&self) -> bool {
        entries_wf(self.entries@)
    }

    /// A service with the given configuration, no records and no consumed
    /// blocks.
    pub fn new(config: ServiceConfig) -> (r: CapacityService)
        ensures
            r.config == config,
            r.entries@ == Seq::<Entry>::empty(),
            r.consumed@ == Seq::<u64>::empty(),
            r.wf(),
    {
        CapacityService { config, entries: Vec::new(), consumed: Vec::new() }
    }

    /// A fresh service owned by `owner`, open, with no records and no
    /// consumed blocks.
    pub fn init(
        owner: Identity,
        ledger: Identity,
        fee: u128,
        fee_with_inviter: u128,
        fee_to: Identity,
        base_expire: u64,
        extend_expire: u64,
    ) -> (r: CapacityService)
        ensures
            r.config == (ServiceConfig {
                owner,
                closed: false,
                fee,
                fee_with_inviter,
                fee_to,
                ledger,
                base_expire,
                extend_expire,
            }),
            r.entries@ == Seq::<Entry>::empty(),
            r.consumed@ == Seq::<u64>::empty(),
            r.wf(),
    {
        CapacityService::new(
            ServiceConfig { owner, closed: false, fee, fee_with_inviter, fee_to, ledger, base_expire, extend_expire },
        )
    }

    /// A service rebuilt from a saved state, or `None` where the saved
    /// records are not well formed (a record breaks its own facts, or an
    /// identity has two entries).
    pub fn restore(config: ServiceConfig, entries: Vec<Entry>, consumed: Vec<u64>) -> (r: Option<CapacityService>)
        ensures
            entries_wf(entries@) ==> (r matches Some(s) && s.config == config && s.entries@ == entries@
                && s.consumed@ == consumed@),
            !entries_wf(entries@) ==> r is None,
    {
        let n = entries.len();
        let mut i: usize = 0;
        while i < n
            invariant
                n == entries@.len(),
                i <= n,
                forall|a: int| 0 <= a < i ==> (#[trigger] entries@[a]).record.wf(),
                forall|a: int, b: int| 0 <= a < b < n && a < i ==> (#[trigger] entries@[a]).owner@ != (#[trigger] entries@[b]).owner@,
            decreases n - i,
        {
            let rec = entries[i].record;
            if rec.unspent_credit > rec.total_paid || (rec.referrer.is_some() && rec.unlocked_capacity == 0)
                || (rec.referred_count == 0 && rec.bonus_capacity != 0) {
                assert(!entries@[i as int].record.wf());
                return None;
            }
            let mut j: usize = i + 1;
            while j < n
                invariant
                    n == entries@.len(),
                    i < j <= n,
                    forall|b: int| i < b < j ==> entries@[i as int].owner@ != (#[trigger] entries@[b]).owner@,
                decreases n - j,
            {
                if entries[i].owner.same_as(&entries[j].owner) {
                    assert(!entries_wf(entries@)) by {
                        assert(entries@[i as int].owner@ == entries@[j as int].owner@);
                    }
                    return None;
                }
                j = j + 1;
            }
            i = i + 1;
        }
        Some(CapacityService { config, entries, consumed })
    }

    /// Sets the standard fee; only the owner may.
    pub fn set_fee(&mut self, caller: &Identity, fee: u128) -> (r: Result<(), ServiceError>)
        ensures
            config_change(*old(self), *final(self), *caller, r, ServiceConfig { fee, ..old(self).config }),
    {
        self.check_auth(caller)?;
        self.config.fee = fee;
        Ok(())
    }

    /// Sets the discounted fee of a referred first unlock; only the owner may.
    pub fn set_fee_with_inviter(&mut self, caller: &Identity, fee_with_inviter: u128) -> (r: Result<(), ServiceError>)
        ensures
            config_change(*old(self), *final(self), *caller, r, ServiceConfig { fee_with_inviter, ..old(self).config }),
    {
        self.check_auth(caller)?;
        self.config.fee_with_inviter = fee_with_inviter;
        Ok(())
    }

    /// Sets the identity that receives payments; only the owner may.
    pub fn set_fee_to(&mut self, caller: &Identity, fee_to: Identity) -> (r: Result<(), ServiceError>)
        ensures
            config_change(*old(self), *final(self), *caller, r, ServiceConfig { fee_to, ..old(self).config }),
    {
        self.check_auth(caller)?;
        self.config.fee_to = fee_to;
        Ok(())
    }

    /// Sets whether unlocks are refused; only the owner may.
    pub fn set_closed(&mut self, caller: &Identity, closed: bool) -> (r: Result<(), ServiceError>)
        ensures
            config_change(*old(self), *final(self), *caller, r, ServiceConfig { closed, ..old(self).config }),
    {
        self.check_auth(caller)?;
        self.config.closed = closed;
        Ok(())
    }

    /// Sets the length of a new bonus window, in seconds; only the owner may.
    pub fn set_base_expire(&mut self, caller: &Identity, base_expire: u64) -> (r: Result<(), ServiceError>)
        ensures
            config_change(*old(self), *final(self), *caller, r, ServiceConfig { base_expire, ..old(self).config }),
    {
        self.check_auth(caller)?;
        self.config.base_expire = base_expire;
        Ok(())
    }

    /// Sets how far a referral past the last tier extends the window, in seconds; only the owner may.
    pub fn set_extend_expire(&mut self, caller: &Identity, extend_expire: u64) -> (r: Result<(), ServiceError>)
        ensures
            config_change(*old(self), *final(self), *caller, r, ServiceConfig { extend_expire, ..old(self).config }),
    {
        self.check_auth(caller)?;
        self.config.extend_expire = extend_expire;
        Ok(())
    }

    /// The position of `id`'s entry.
    pub fn find(&self, id: &Identity) -> (r: Option<usize>)
        ensures
            r matches Some(i) ==> position(self.entries@, id@) == Some(i as int) && i < self.entries@.len()
                && self.entries@[i as int].owner@ == id@,
            r is None ==> position(self.entries@, id@) is None,
    {
        proof {
            lemma_position(self.entries@, id@);
        }
        let mut i: usize = 0;
        while i < self.entries.len()
            invariant
                i <= self.entries@.len(),
                position(self.entries@, id@) == position_from(self.entries@, id@, i as int),
            decreases self.entries@.len() - i,
        {
            if self.entries[i].owner.same_as(id) {
                return Some(i);
            }
            i = i + 1;
        }
        None
    }

    /// Whether `block_index` was already accepted as a payment.
    pub fn is_consumed(&self, block_index: u64) -> (r: bool)
        ensures
            r == self.consumed@.contains(block_index),
    {
        block_listed(&self.consumed, block_index)
    }

    /// The record of `account`.
    pub fn get_capacity_info(&self, account: &Identity) -> (r: Result<CapacityRecord, ServiceError>)
        ensures
            r == (match record_of(self.entries@, account@) {
                Some(rec) => Ok(rec),
                None => Err(ServiceError::AccountNotFound),
            }),
    {
        match self.find(account) {
            Some(i) => Ok(self.entries[i].record),
            None => Err(ServiceError::AccountNotFound),
        }
    }

    /// Up to `limit` records, from position `start` in order of first contact.
    pub fn get_all_capacity_info(&self, start: usize, limit: usize) -> (r: Vec<CapacityRecord>)
        ensures
            r@ == page(self.entries@, start as nat, limit as nat),
    {
        let n = self.entries.len();
        let lo = if start < n { start } else { n };
        let hi = if limit < n - lo { lo + limit } else { n };
        let mut out: Vec<CapacityRecord> = Vec::new();
        let mut i: usize = lo;
        while i < hi
            invariant
                n == self.entries@.len(),
                lo <= i <= hi <= n,
                out@ =~= self.entries@.subrange(lo as int, i as int).map_values(|e: Entry| e.record),
            decreases hi - i,
        {
            out.push(self.entries[i].record);
            i = i + 1;
        }
        assert(out@ =~= page(self.entries@, start as nat, limit as nat));
        out
    }

    /// The configuration.
    pub fn get_stats(&self) -> (r: ServiceConfig)
        ensures
            r == self.config,
    {
        self.config
    }

    /// Accepts only the owning identity.
    pub fn check_auth(&self, caller: &Identity) -> (r: Result<(), ServiceError>)
        ensures
            r == (if caller@ == self.config.owner@ {
                Ok(())
            } else {
                Err(ServiceError::InvalidCaller)
            }),
    {
        if caller.same_as(&self.config.owner) {
            Ok(())
        } else {
            Err(ServiceError::InvalidCaller)
        }
    }

    /// Accepts only while the service is open.
    pub fn check_open(&self) -> (r: Result<(), ServiceError>)
        ensures
            r == (if self.config.closed {
                Err(ServiceError::Closed)
            } else {
                Ok(())
            }),
    {
        if self.config.closed {
            Err(ServiceError::Closed)
        } else {
            Ok(())
        }
    }

    /// Checks that a referrer, if named, has unlocked at least once.
    pub fn check_inviter(&self, inviter: Option<Identity>) -> (r: Result<(), ServiceError>)
        ensures
            r == inviter_check(self.entries@, inviter),
    {
        match inviter {
            None => Ok(()),
            Some(p) => match self.find(&p) {
                None => Err(ServiceError::InviterNotFound),
                Some(i) => {
                    if self.entries[i].record.unlocked_capacity == 0 {
                        Err(ServiceError::InvalidInviter)
                    } else {
                        Ok(())
                    }
                },
            },
        }
    }

    /// The replay check made before the ledger is asked for a block.
    pub fn precheck_charge_block(&self, block_index: u64) -> (r: Result<(), ServiceError>)
        ensures
            r == (if self.consumed@.contains(block_index) {
                Err(ServiceError::BlockAlreadyUsed)
            } else {
                Ok(())
            }),
    {
        if self.is_consumed(block_index) {
            Err(ServiceError::BlockAlreadyUsed)
        } else {
            Ok(())
        }
    }

    /// The checks made before the ledger is asked for anything: the service is
    /// open, the referrer is valid, and the block has not been used.
    pub fn prepare_active_capacity(&self, block_index: Option<u64>, inviter: Option<Identity>) -> (r: Result<(), ServiceError>)
        ensures
            r == (if self.config.closed {
                Err(ServiceError::Closed)
            } else if inviter_check(self.entries@, inviter) is Err {
                inviter_check(self.entries@, inviter)
            } else if block_index matches Some(b) && self.consumed@.contains(b) {
                Err(ServiceError::BlockAlreadyUsed)
            } else {
                Ok(())
            }),
    {
        self.check_open()?;
        self.check_inviter(inviter)?;
        match block_index {
            Some(b) => self.precheck_charge_block(b),
            None => Ok(()),
        }
    }

    /// Checks a fetched block as a payment from `payer` to the configured
    /// recipient, and gives the amount paid.
    pub fn check_charge_block(&self, payer: &Identity, fetched: FetchedBlock) -> (r: Result<u64, ServiceError>)
        ensures
            r == payment_check(
                fetched,
                default_account_of(payer@),
                default_account_of(self.config.fee_to@),
            ),
    {
        verify_payment(payer, &self.config.fee_to, fetched)
    }

    /// Marks `block_index` as consumed, unless it already is.
    pub fn save_charge_block(&mut self, block_index: u64) -> (r: Result<(), ServiceError>)
        ensures
            final(self).config == old(self).config,
            final(self).entries@ == old(self).entries@,
            old(self).consumed@.contains(block_index) ==> r == Err::<(), ServiceError>(ServiceError::BlockAlreadyUsed)
                && final(self).consumed@ == old(self).consumed@,
            !old(self).consumed@.contains(block_index) ==> r is Ok && final(self).consumed@ == old(self).consumed@.push(block_index),
    {
        if self.is_consumed(block_index) {
            return Err(ServiceError::BlockAlreadyUsed);
        }
        self.consumed.push(block_index);
        Ok(())
    }

    /// Counts one more referral for `inviter` and applies the reward table.
    pub fn reward_inviter(&mut self, inviter: &Identity, now: u64) -> (r: Result<(), ServiceError>)
        ensures
            final(self).config == old(self).config,
            final(self).consumed@ == old(self).consumed@,
            match after_reward(old(self).entries@, inviter@, now, old(self).config) {
                Some(es) => r == Ok::<(), ServiceError>(()) && final(self).entries@ == es,
                None => r == Err::<(), ServiceError>(ServiceError::InviterNotFound) && final(self).entries@ == old(self).entries@,
            },
    {
        match self.find(inviter) {
            None => Err(ServiceError::InviterNotFound),
            Some(j) => {
                let e = self.entries[j];
                let rec = apply_referral(&e.record, now, self.config.base_expire, self.config.extend_expire);
                self.entries.set(j, Entry { owner: e.owner, record: rec });
                Ok(())
            },
        }
    }

    /// Commits an unlock attempt by `caller` at time `now`: consumes the
    /// payment's block, credits its amount, unlocks when the credit reaches
    /// the applicable fee, and rewards the referrer of a first unlock.
    ///
    /// A missing referrer is reported after the caller's own unlock is
    /// committed; the unlock stands.
    pub fn active_capacity(
        &mut self,
        caller: Identity,
        payment: Option<VerifiedPayment>,
        inviter: Option<Identity>,
        now: u64,
    ) -> (r: Result<(), ServiceError>)
        requires
            old(self).wf(),
        ensures
            final(self).wf(),
            final(self).config == old(self).config,
            (final(self).entries@, final(self).consumed@, r) == unlock_outcome(
                old(self).config,
                old(self).entries@,
                old(self).consumed@,
                caller,
                payment,
                inviter,
                now,
            ),
    {
        proof {
            lemma_unlock_wf(self.config, self.entries@, self.consumed@, caller, payment, inviter, now);
            lemma_position(self.entries@, caller@);
        }
        let ghost es0 = self.entries@;
        let ghost cs0 = self.consumed@;
        if let Some(p) = payment {
            if self.is_consumed(p.block_index) {
                return Err(ServiceError::BlockAlreadyUsed);
            }
        }
        let pos = self.find(&caller);
        let rec = match pos {
            Some(i) => self.entries[i].record,
            None => CapacityRecord::new(),
        };
        let amount: u128 = match payment {
            Some(p) => p.amount as u128,
            None => 0,
        };
        if rec.total_paid > u128::MAX - amount {
            return Err(ServiceError::Overflow);
        }
        let has_inviter = inviter.is_some();
        let fee = if rec.unlocked_capacity == 0 && has_inviter {
            self.config.fee_with_inviter
        } else {
            self.config.fee
        };
        let credit = rec.unspent_credit + amount;
        let unlock = credit >= fee;
        if unlock && rec.unlocked_capacity == u64::MAX {
            return Err(ServiceError::Overflow);
        }
        let new_account = unlock && rec.unlocked_capacity == 0;
        assert(rec == record_or_empty(es0, caller@));
        assert(amount == paid_amount(payment) as u128);
        assert(new_account == opens_account(self.config, rec, paid_amount(payment), has_inviter));
        let mut updated = rec;
        updated.total_paid = rec.total_paid + amount;
        updated.unspent_credit = credit;
        if unlock {
            updated.unspent_credit = credit - fee;
            updated.unlocked_capacity = rec.unlocked_capacity + 1;
            if new_account && has_inviter {
                updated.referrer = inviter;
            }
        }
        assert(updated == charged(self.config, rec, amount as u64, inviter));
        match pos {
            Some(i) => {
                let owner = self.entries[i].owner;
                self.entries.set(i, Entry { owner, record: updated });
            },
            None => {
                self.entries.push(Entry { owner: caller, record: updated });
            },
        }
        assert(self.entries@ == with_record(es0, caller, updated));
        if let Some(p) = payment {
            self.consumed.push(p.block_index);
        }
        assert(self.consumed@ == (match payment {
            Some(p) => cs0.push(p.block_index),
            None => cs0,
        }));
        if new_account {
            if let Some(p) = inviter {
                return self.reward_inviter(&p, now);
            }
        }
        Ok(())
    }

    /// Closes every bonus window that has ended by `now`.
    pub fn clear_expire_capacity(&mut self, now: u64)
        requires
            old(self).wf(),
        ensures
            final(self).wf(),
            final(self).config == old(self).config,
            final(self).consumed@ == old(self).consumed@,
            final(self).entries@.len() == old(self).entries@.len(),
            forall|i: int|
                0 <= i < old(self).entries@.len() ==> (#[trigger] final(self).entries@[i]) == (Entry {
                    owner: old(self).entries@[i].owner,
                    record: swept(old(self).entries@[i].record, now),
                }),
    {
        let ghost es0 = self.entries@;
        let mut i: usize = 0;
        while i < self.entries.len()
            invariant
                self.config == old(self).config,
                self.consumed@ == old(self).consumed@,
                self.entries@.len() == es0.len(),
                es0 == old(self).entries@,
                entries_wf(es0),
                i <= es0.len(),
                forall|k: int|
                    0 <= k < i ==> (#[trigger] self.entries@[k]) == (Entry {
                        owner: es0[k].owner,
                        record: swept(es0[k].record, now),
                    }),
                forall|k: int| i <= k < es0.len() ==> (#[trigger] self.entries@[k]) == es0[k],
            decreases es0.len() - i,
        {
            let e = self.entries[i];
            let rec = sweep_record(&e.record, now);
            self.entries.set(i, Entry { owner: e.owner, record: rec });
            i = i + 1;
        }
        assert forall|a: int, b: int| 0 <= a < b < self.entries@.len() implies (#[trigger] self.entries@[a]).owner@ != (#[trigger] self.entries@[b]).owner@ by {
            assert(self.entries@[a].owner == es0[a].owner);
            assert(self.entries@[b].owner == es0[b].owner);
        }
        assert forall|a: int| 0 <= a < self.entries@.len() implies (#[trigger] self.entries@[a]).record.wf() by {
            assert(es0[a].record.wf());
        }
    }
}

} // verus!
