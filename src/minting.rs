//! The keeper registry of the token-minting service: who may ask for a mint,
//! and whether the service is open.
use vstd::prelude::*;

use crate::error::ServiceError;
use crate::identity::Identity;

verus! {

/// The configuration of the minting service.
#[derive(Clone, Copy, Debug, PartialEq, Eq)]
pub struct MintConfig {
    /// The identity allowed to change the configuration.
    pub owner: Identity,
    /// Whether withdrawals are refused.
    pub closed: bool,
    /// The token service that mints.
    pub token: Identity,
}

/// The state of the minting service.
#[derive(Clone, Debug)]
pub struct MintRegistry {
    pub config: MintConfig,
    /// The identities allowed to withdraw.
    pub keepers: Vec<Identity>,
    pub backers: Vec<Identity>,
}

pub open spec fn listed(ids: Seq<Identity>, id: Seq<u8>) -> bool {
    exists|i: int| 0 <= i < ids.len() && (#[trigger] ids[i])@ == id
}

fn contains_identity(ids: &Vec<Identity>, id: &Identity) -> (r: bool)
    ensures
        r == listed(ids@, id@),
{
    let mut i: usize = 0;
    while i < ids.len()
        invariant
            i <= ids@.len(),
            forall|k: int| 0 <= k < i ==> (#[trigger] ids@[k])@ != id@,
        decreases ids@.len() - i,
    {
        if ids[i].same_as(id) {
            return true;
        }
        i = i + 1;
    }
    false
}

impl MintRegistry {
    /// A fresh registry owned by `owner`, open, with `official_keeper` as its
    /// one keeper.
    pub fn init(owner: Identity, token: Identity, official_keeper: Identity) -> (r: MintRegistry)
        ensures
            r.config == (MintConfig { owner, closed: false, token }),
            r.keepers@ == seq![official_keeper],
            r.backers@ == Seq::<Identity>::empty(),
    {
        let mut keepers: Vec<Identity> = Vec::new();
        keepers.push(official_keeper);
        MintRegistry { config: MintConfig { owner, closed: false, token }, keepers, backers: Vec::new() }
    }

    /// Sets whether withdrawals are refused; only the owner may.
    pub fn set_closed(&mut self, caller: &Identity, closed: bool) -> (r: Result<(), ServiceError>)
        ensures
            final(self).keepers@ == old(self).keepers@,
            final(self).backers@ == old(self).backers@,
            if caller@ == old(self).config.owner@ {
                r == Ok::<(), ServiceError>(()) && final(self).config == (MintConfig { closed, ..old(self).config })
            } else {
                r == Err::<(), ServiceError>(ServiceError::InvalidCaller) && final(self).config == old(self).config
            },
    {
        if !caller.same_as(&self.config.owner) {
            return Err(ServiceError::InvalidCaller);
        }
        self.config.closed = closed;
        Ok(())
    }

    /// Whether `caller` may ask for a mint now: the service is open and the
    /// caller is a keeper.
    pub fn check_withdraw(&self, caller: &Identity) -> (r: Result<(), ServiceError>)
        ensures
            r == (if self.config.closed {
                Err(ServiceError::Closed)
            } else if !listed(self.keepers@, caller@) {
                Err(ServiceError::InvalidCaller)
            } else {
                Ok(())
            }),
    {
        if self.config.closed {
            return Err(ServiceError::Closed);
        }
        if !contains_identity(&self.keepers, caller) {
            return Err(ServiceError::InvalidCaller);
        }
        Ok(())
    }

    /// The keepers.
    pub fn get_keepers(&self) -> (r: Vec<Identity>)
        ensures
            r@ == self.keepers@,
    {
        let mut out: Vec<Identity> = Vec::new();
        let mut i: usize = 0;
        while i < self.keepers.len()
            invariant
                i <= self.keepers@.len(),
                out@ =~= self.keepers@.subrange(0, i as int),
            decreases self.keepers@.len() - i,
        {
            out.push(self.keepers[i]);
            i = i + 1;
        }
        out
    }

    /// The backers.
    pub fn get_backers(&self) -> (r: Vec<Identity>)
        ensures
            r@ == self.backers@,
    {
        let mut out: Vec<Identity> = Vec::new();
        let mut i: usize = 0;
        while i < self.backers.len()
            invariant
                i <= self.backers@.len(),
                out@ =~= self.backers@.subrange(0, i as int),
            decreases self.backers@.len() - i,
        {
            out.push(self.backers[i]);
            i = i + 1;
        }
        out
    }
}

} // verus!
