//! Identities in their canonical byte form, and the ledger account that
//! receives an identity's payments.
use vstd::prelude::*;

verus! {

/// The most bytes an identity can hold.
pub const MAX_IDENTITY_LEN: usize = 29;

/// An identity (a principal) held as its canonical bytes: `len` bytes in use,
/// the rest zero.
#[derive(Clone, Copy, Debug, PartialEq, Eq, Hash)]
pub struct Identity {
    len: u8,
    bytes: [u8; 29],
}

impl View for Identity {
    type V = Seq<u8>;

    closed spec fn view(&self) -> Seq<u8> {
        self.bytes@.subrange(0, self.len as int)
    }
}

impl Identity {
    #[verifier::type_invariant]
    spec fn fits(&self) -> bool {
        self.len <= 29
    }

    /// The identity with the given bytes, or `None` where there are more than
    /// `MAX_IDENTITY_LEN` of them.
    pub fn from_bytes(b: &[u8]) -> (r: Option<Identity>)
        ensures
            b@.len() <= MAX_IDENTITY_LEN ==> (r matches Some(id) && id@ == b@),
            b@.len() > MAX_IDENTITY_LEN ==> r is None,
    {
        if b.len() > MAX_IDENTITY_LEN {
            return None;
        }
        let mut bytes: [u8; 29] = [0u8; 29];
        let mut i: usize = 0;
        while i < b.len()
            invariant
                i <= b@.len() <= 29,
                bytes@.len() == 29,
                forall|k: int| 0 <= k < i ==> bytes@[k] == b@[k],
            decreases b@.len() - i,
        {
            bytes[i] = b[i];
            i = i + 1;
        }
        let id = Identity { len: b.len() as u8, bytes };
        assert(id@ =~= b@);
        Some(id)
    }

    /// The bytes of this identity.
    pub fn to_bytes(&self) -> (r: Vec<u8>)
        ensures
            r@ == self@,
    {
        proof {
            use_type_invariant(self);
        }
        let mut out: Vec<u8> = Vec::new();
        let mut i: usize = 0;
        while i < self.len as usize
            invariant
                self.len <= 29,
                i <= self.len,
                out@ =~= self.bytes@.subrange(0, i as int),
            decreases self.len - i,
        {
            out.push(self.bytes[i]);
            i = i + 1;
        }
        out
    }

    /// Whether the two identities hold the same bytes.
    pub fn same_as(&self, other: &Identity) -> (r: bool)
        ensures
            r == (self@ == other@),
    {
        proof {
            use_type_invariant(self);
            use_type_invariant(other);
        }
        if self.len != other.len {
            assert(self@.len() != other@.len());
            return false;
        }
        let mut i: usize = 0;
        while i < self.len as usize
            invariant
                self.len <= 29,
                self.len == other.len,
                i <= self.len,
                forall|k: int| 0 <= k < i ==> self.bytes@[k] == other.bytes@[k],
            decreases self.len - i,
        {
            if self.bytes[i] != other.bytes[i] {
                assert(self@[i as int] != other@[i as int]);
                return false;
            }
            i = i + 1;
        }
        assert(self@ =~= other@);
        true
    }
}

/// The 32-byte ledger account that belongs to an identity under the default
/// subaccount.
pub uninterp spec fn default_account_of(owner: Seq<u8>) -> Seq<u8>;

/// Relies on `ic_ledger_types::AccountIdentifier::new` with
/// `DEFAULT_SUBACCOUNT`: its 32 bytes are derived from the owner's bytes alone
/// (`candid::Principal::from_slice` takes at most 29 bytes, which the type
/// invariant of `Identity` guarantees).
#[verifier::external_body]
fn ledger_account(owner: &Identity) -> (r: [u8; 32])
    requires
        owner.len <= 29,
    ensures
        r@ == default_account_of(owner@),
{
    let p = candid::Principal::from_slice(&owner.bytes[..owner.len as usize]);
    let id = ic_ledger_types::AccountIdentifier::new(&p, &ic_ledger_types::DEFAULT_SUBACCOUNT);
    let mut out = [0u8; 32];
    out.copy_from_slice(id.as_ref());
    out
}

/// The ledger account that receives payments sent to `owner`, and from which
/// `owner` pays.
pub fn default_account(owner: &Identity) -> (r: [u8; 32])
    ensures
        r@ == default_account_of(owner@),
{
    proof {
        use_type_invariant(owner);
    }
    ledger_account(owner)
}

} // verus!
