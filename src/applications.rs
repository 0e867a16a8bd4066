//! A queue of applications, each paid for on the ledger, that an admin
//! passes (giving it the next approval number) or refuses.
use vstd::prelude::*;

use crate::error::ServiceError;
use crate::identity::{default_account_of, Identity};
use crate::ledger::{block_listed, payment_check, verify_payment, FetchedBlock};
use crate::service::VerifiedPayment;

verus! {

#[derive(Clone, Copy, Debug, PartialEq, Eq, Structural)]
pub enum ProfileStatus {
    Pending,
    Passed,
    Refused,
}

/// One application.
#[derive(Clone, Debug, PartialEq, Eq)]
pub struct Profile {
    pub community_name: String,
    pub discord_account: String,
    pub wallet_address: Identity,
    pub status: ProfileStatus,
    pub comment: String,
    /// The approval number; zero until passed.
    pub number: u16,
}

pub type ProfileView = (Seq<char>, Seq<char>, Seq<u8>, ProfileStatus, Seq<char>, u16);

pub open spec fn profile_view(p: Profile) -> ProfileView {
    (p.community_name@, p.discord_account@, p.wallet_address@, p.status, p.comment@, p.number)
}

pub open spec fn profile_views(ps: Seq<Profile>) -> Seq<ProfileView> {
    ps.map_values(|p: Profile| profile_view(p))
}

/// The configuration of the queue.
#[derive(Clone, Copy, Debug, PartialEq, Eq)]
pub struct QueueConfig {
    /// The identity allowed to change the configuration.
    pub owner: Identity,
    /// The identity allowed to pass, refuse, edit and list applications.
    pub admin: Identity,
    /// Whether new applications are refused.
    pub closed: bool,
    /// The ledger service that holds the payments.
    pub ledger: Identity,
    /// The application fee.
    pub fee: u128,
    /// The identity whose default account receives payments.
    pub fee_to: Identity,
}

/// The whole state of the queue.
#[derive(Clone, Debug)]
pub struct ApplicationQueue {
    pub config: QueueConfig,
    /// The applications, at most one per wallet, in order of first arrival.
    pub profiles: Vec<Profile>,
    /// The block indices accepted as payment so far.
    pub consumed: Vec<u64>,
    /// The approval number given last.
    pub last_number: u16,
}

pub open spec fn profile_position_from(ps: Seq<Profile>, key: Seq<u8>, i: int) -> Option<int>
    decreases ps.len() - i,
{
    if i < 0 || i >= ps.len() {
        None
    } else if ps[i].wallet_address@ == key {
        Some(i)
    } else {
        profile_position_from(ps, key, i + 1)
    }
}

pub open spec fn profile_position(ps: Seq<Profile>, key: Seq<u8>) -> Option<int> {
    profile_position_from(ps, key, 0)
}

/// A fresh application by `wallet`.
pub open spec fn pending_view(wallet: Seq<u8>, name: Seq<char>, discord: Seq<char>) -> ProfileView {
    (name, discord, wallet, ProfileStatus::Pending, Seq::<char>::empty(), 0u16)
}

/// The outcome of a configuration change requested by `caller`.
pub open spec fn queue_config_change(
    before: ApplicationQueue,
    after: ApplicationQueue,
    caller: Identity,
    r: Result<(), ServiceError>,
    cfg: QueueConfig,
) -> bool {
    &&& after.profiles@ == before.profiles@
    &&& after.consumed@ == before.consumed@
    &&& after.last_number == before.last_number
    &&& if caller@ == before.config.owner@ {
        r == Ok::<(), ServiceError>(()) && after.config == cfg
    } else {
        r == Err::<(), ServiceError>(ServiceError::InvalidCaller) && after.config == before.config
    }
}

proof fn lemma_profile_position_from(ps: Seq<Profile>, key: Seq<u8>, i: int)
    requires
        0 <= i <= ps.len(),
    ensures
        profile_position_from(ps, key, i) matches Some(k) ==> (i <= k < ps.len() && ps[k].wallet_address@ == key),
    decreases ps.len() - i,
{
    if i < ps.len() {
        lemma_profile_position_from(ps, key, i + 1);
    }
}

fn clone_profile(p: &Profile) -> (r: Profile)
    ensures
        profile_view(r) == profile_view(*p),
{
    Profile {
        community_name: p.community_name.clone(),
        discord_account: p.discord_account.clone(),
        wallet_address: p.wallet_address,
        status: p.status,
        comment: p.comment.clone(),
        number: p.number,
    }
}

impl ApplicationQueue {
    /// A fresh queue owned by `owner`, open, with no applications.
    pub fn init(owner: Identity, admin: Identity, ledger: Identity, fee: u128, fee_to: Identity) -> (r: ApplicationQueue)
        ensures
            r.config == (QueueConfig { owner, admin, closed: false, ledger, fee, fee_to }),
            r.profiles@ == Seq::<Profile>::empty(),
            r.consumed@ == Seq::<u64>::empty(),
            r.last_number == 0,
    {
        ApplicationQueue {
            config: QueueConfig { owner, admin, closed: false, ledger, fee, fee_to },
            profiles: Vec::new(),
            consumed: Vec::new(),
            last_number: 0,
        }
    }

    /// The position of the application of `wallet`.
    pub fn find(&self, wallet: &Identity) -> (r: Option<usize>)
        ensures
            r matches Some(i) ==> profile_position(self.profiles@, wallet@) == Some(i as int) && i
                < self.profiles@.len(),
            r is None ==> profile_position(self.profiles@, wallet@) is None,
    {
        proof {
            lemma_profile_position_from(self.profiles@, wallet@, 0);
        }
        let mut i: usize = 0;
        while i < self.profiles.len()
            invariant
                i <= self.profiles@.len(),
                profile_position(self.profiles@, wallet@) == profile_position_from(self.profiles@, wallet@, i as int),
            decreases self.profiles@.len() - i,
        {
            if self.profiles[i].wallet_address.same_as(wallet) {
                return Some(i);
            }
            i = i + 1;
        }
        None
    }

    /// Accepts only the owning identity.
    pub fn check_auth(&self, caller: &Identity) -> (r: Result<(), ServiceError>)
        ensures
            r == (if caller@ == self.config.owner@ {
                Ok(())
            } else {
                Err(ServiceError::InvalidCaller)
            }),
    {
        if caller.same_as(&self.config.owner) {
            Ok(())
        } else {
            Err(ServiceError::InvalidCaller)
        }
    }

    /// Accepts only the admin.
    pub fn check_admin(&self, caller: &Identity) -> (r: Result<(), ServiceError>)
        ensures
            r == (if caller@ == self.config.admin@ {
                Ok(())
            } else {
                Err(ServiceError::InvalidCaller)
            }),
    {
        if caller.same_as(&self.config.admin) {
            Ok(())
        } else {
            Err(ServiceError::InvalidCaller)
        }
    }

    /// The replay check made before the ledger is asked for a block.
    pub fn precheck_charge_block(&self, block_index: u64) -> (r: Result<(), ServiceError>)
        ensures
            r == (if self.consumed@.contains(block_index) {
                Err(ServiceError::BlockAlreadyUsed)
            } else {
                Ok(())
            }),
    {
        if block_listed(&self.consumed, block_index) {
            Err(ServiceError::BlockAlreadyUsed)
        } else {
            Ok(())
        }
    }

    /// Checks a fetched block as a payment from `payer` to the configured
    /// recipient, and gives the amount paid.
    pub fn check_charge_block(&self, payer: &Identity, fetched: FetchedBlock) -> (r: Result<u64, ServiceError>)
        ensures
            r == payment_check(
                fetched,
                default_account_of(payer@),
                default_account_of(self.config.fee_to@),
            ),
    {
        verify_payment(payer, &self.config.fee_to, fetched)
    }

    /// Files the application of `caller`, paid by `payment`: refused when the
    /// payment is below the fee, when the queue is closed, when the caller has
    /// an application that was not refused, or when the block was already
    /// used; a refused application is replaced.
    pub fn insert(
        &mut self,
        caller: Identity,
        payment: VerifiedPayment,
        community_name: String,
        discord_account: String,
    ) -> (r: Result<(), ServiceError>)
        ensures
            final(self).config == old(self).config,
            final(self).last_number == old(self).last_number,
            ({
                let ps = old(self).profiles@;
                let pos = profile_position(ps, caller@);
                let fresh = pending_view(caller@, community_name@, discord_account@);
                if (payment.amount as u128) < old(self).config.fee {
                    r == Err::<(), ServiceError>(ServiceError::InvalidFee) && final(self).profiles@ == ps
                        && final(self).consumed@ == old(self).consumed@
                } else if old(self).config.closed {
                    r == Err::<(), ServiceError>(ServiceError::Closed) && final(self).profiles@ == ps
                        && final(self).consumed@ == old(self).consumed@
                } else if pos matches Some(i) && ps[i].status != ProfileStatus::Refused {
                    r == Err::<(), ServiceError>(ServiceError::DuplicateWalletAddress) && final(self).profiles@
                        == ps && final(self).consumed@ == old(self).consumed@
                } else if old(self).consumed@.contains(payment.block_index) {
                    r == Err::<(), ServiceError>(ServiceError::BlockAlreadyUsed) && final(self).profiles@ == ps
                        && final(self).consumed@ == old(self).consumed@
                } else {
                    &&& r == Ok::<(), ServiceError>(())
                    &&& final(self).consumed@ == old(self).consumed@.push(payment.block_index)
                    &&& profile_views(final(self).profiles@) == match pos {
                        Some(i) => profile_views(ps).update(i, fresh),
                        None => profile_views(ps).push(fresh),
                    }
                }
            }),
    {
        if (payment.amount as u128) < self.config.fee {
            return Err(ServiceError::InvalidFee);
        }
        if self.config.closed {
            return Err(ServiceError::Closed);
        }
        let pos = self.find(&caller);
        if let Some(i) = pos {
            if self.profiles[i].status != ProfileStatus::Refused {
                return Err(ServiceError::DuplicateWalletAddress);
            }
        }
        if block_listed(&self.consumed, payment.block_index) {
            return Err(ServiceError::BlockAlreadyUsed);
        }
        self.consumed.push(payment.block_index);
        let fresh = Profile {
            community_name,
            discord_account,
            wallet_address: caller,
            status: ProfileStatus::Pending,
            comment: String::new(),
            number: 0,
        };
        let ghost ps = self.profiles@;
        match pos {
            Some(i) => {
                self.profiles.set(i, fresh);
                assert(profile_views(self.profiles@) =~= profile_views(ps).update(i as int, profile_view(fresh)));
            },
            None => {
                self.profiles.push(fresh);
                assert(profile_views(self.profiles@) =~= profile_views(ps).push(profile_view(fresh)));
            },
        }
        Ok(())
    }

    /// Passes the application of `account`, giving it the next approval
    /// number.
    pub fn pass(&mut self, account: &Identity) -> (r: Result<(), ServiceError>)
        ensures
            final(self).config == old(self).config,
            final(self).consumed@ == old(self).consumed@,
            ({
                let ps = old(self).profiles@;
                if old(self).last_number == u16::MAX {
                    r == Err::<(), ServiceError>(ServiceError::Overflow) && final(self).profiles@ == ps
                        && final(self).last_number == old(self).last_number
                } else {
                    match profile_position(ps, account@) {
                        None => r == Err::<(), ServiceError>(ServiceError::WalletAddressNotFound)
                            && final(self).profiles@ == ps && final(self).last_number == old(self).last_number,
                        Some(i) => {
                            let n = (old(self).last_number + 1) as u16;
                            &&& r == Ok::<(), ServiceError>(())
                            &&& final(self).last_number == n
                            &&& final(self).profiles@ == ps.update(
                                i,
                                Profile { status: ProfileStatus::Passed, number: n, ..ps[i] },
                            )
                        },
                    }
                }
            }),
    {
        if self.last_number == u16::MAX {
            return Err(ServiceError::Overflow);
        }
        let n = self.last_number + 1;
        match self.find(account) {
            None => Err(ServiceError::WalletAddressNotFound),
            Some(i) => {
                let mut p = self.profiles.remove(i);
                p.status = ProfileStatus::Passed;
                p.number = n;
                self.profiles.insert(i, p);
                self.last_number = n;
                Ok(())
            },
        }
    }

    /// Refuses the application of `account`, with `comment`.
    pub fn refuse(&mut self, account: &Identity, comment: String) -> (r: Result<(), ServiceError>)
        ensures
            final(self).config == old(self).config,
            final(self).consumed@ == old(self).consumed@,
            final(self).last_number == old(self).last_number,
            match profile_position(old(self).profiles@, account@) {
                None => r == Err::<(), ServiceError>(ServiceError::WalletAddressNotFound)
                    && final(self).profiles@ == old(self).profiles@,
                Some(i) => r == Ok::<(), ServiceError>(()) && final(self).profiles@ == old(self).profiles@.update(
                    i,
                    Profile { status: ProfileStatus::Refused, comment, ..old(self).profiles@[i] },
                ),
            },
    {
        match self.find(account) {
            None => Err(ServiceError::WalletAddressNotFound),
            Some(i) => {
                let mut p = self.profiles.remove(i);
                p.status = ProfileStatus::Refused;
                p.comment = comment;
                self.profiles.insert(i, p);
                Ok(())
            },
        }
    }

    /// Replaces the application of `profile.wallet_address` by `profile`.
    pub fn update_profile(&mut self, profile: Profile) -> (r: Result<(), ServiceError>)
        ensures
            final(self).config == old(self).config,
            final(self).consumed@ == old(self).consumed@,
            final(self).last_number == old(self).last_number,
            match profile_position(old(self).profiles@, profile.wallet_address@) {
                None => r == Err::<(), ServiceError>(ServiceError::WalletAddressNotFound)
                    && final(self).profiles@ == old(self).profiles@,
                Some(i) => r == Ok::<(), ServiceError>(()) && final(self).profiles@ == old(self).profiles@.update(i, profile),
            },
    {
        match self.find(&profile.wallet_address) {
            None => Err(ServiceError::WalletAddressNotFound),
            Some(i) => {
                self.profiles.set(i, profile);
                Ok(())
            },
        }
    }

    /// The application of `caller`.
    pub fn get(&self, caller: &Identity) -> (r: Result<Profile, ServiceError>)
        ensures
            match profile_position(self.profiles@, caller@) {
                None => r == Err::<Profile, ServiceError>(ServiceError::WalletAddressNotFound),
                Some(i) => r matches Ok(p) && profile_view(p) == profile_view(self.profiles@[i]),
            },
    {
        match self.find(caller) {
            None => Err(ServiceError::WalletAddressNotFound),
            Some(i) => Ok(clone_profile(&self.profiles[i])),
        }
    }

    /// Up to `limit` applications, from position `start` in order of arrival.
    pub fn get_all(&self, start: usize, limit: usize) -> (r: Vec<Profile>)
        ensures
            ({
                let n = self.profiles@.len();
                let lo = if start < n { start as int } else { n as int };
                let hi = if lo + limit < n { lo + limit } else { n as int };
                profile_views(r@) == profile_views(self.profiles@.subrange(lo, hi))
            }),
    {
        let n = self.profiles.len();
        let lo = if start < n { start } else { n };
        let hi = if limit < n - lo { lo + limit } else { n };
        let mut out: Vec<Profile> = Vec::new();
        let mut i: usize = lo;
        while i < hi
            invariant
                n == self.profiles@.len(),
                lo <= i <= hi <= n,
                profile_views(out@) =~= profile_views(self.profiles@.subrange(lo as int, i as int)),
            decreases hi - i,
        {
            let p = clone_profile(&self.profiles[i]);
            let ghost before = out@;
            out.push(p);
            assert(profile_views(out@) =~= profile_views(before).push(profile_view(p)));
            assert(profile_views(self.profiles@.subrange(lo as int, i + 1)) =~= profile_views(
                self.profiles@.subrange(lo as int, i as int),
            ).push(profile_view(self.profiles@[i as int])));
            i = i + 1;
        }
        out
    }

    /// Sets whether new applications are refused; only the owner may.
    pub fn set_closed(&mut self, caller: &Identity, closed: bool) -> (r: Result<(), ServiceError>)
        ensures
            queue_config_change(*old(self), *final(self), *caller, r, QueueConfig { closed, ..old(self).config }),
    {
        self.check_auth(caller)?;
        self.config.closed = closed;
        Ok(())
    }

    /// Sets the ledger service; only the owner may.
    pub fn set_ledger(&mut self, caller: &Identity, ledger: Identity) -> (r: Result<(), ServiceError>)
        ensures
            queue_config_change(*old(self), *final(self), *caller, r, QueueConfig { ledger, ..old(self).config }),
    {
        self.check_auth(caller)?;
        self.config.ledger = ledger;
        Ok(())
    }

    /// Sets the application fee; only the owner may.
    pub fn set_fee(&mut self, caller: &Identity, fee: u128) -> (r: Result<(), ServiceError>)
        ensures
            queue_config_change(*old(self), *final(self), *caller, r, QueueConfig { fee, ..old(self).config }),
    {
        self.check_auth(caller)?;
        self.config.fee = fee;
        Ok(())
    }

    /// Sets the identity that receives payments; only the owner may.
    pub fn set_fee_to(&mut self, caller: &Identity, fee_to: Identity) -> (r: Result<(), ServiceError>)
        ensures
            queue_config_change(*old(self), *final(self), *caller, r, QueueConfig { fee_to, ..old(self).config }),
    {
        self.check_auth(caller)?;
        self.config.fee_to = fee_to;
        Ok(())
    }

    /// Sets the admin; only the owner may.
    pub fn set_admin(&mut self, caller: &Identity, admin: Identity) -> (r: Result<(), ServiceError>)
        ensures
            queue_config_change(*old(self), *final(self), *caller, r, QueueConfig { admin, ..old(self).config }),
    {
        self.check_auth(caller)?;
        self.config.admin = admin;
        Ok(())
    }
}

} // verus!
