//! Reading one block of the ledger, and checking that it is the expected
//! payment.
use vstd::prelude::*;

use crate::error::ServiceError;
use crate::identity::{default_account, default_account_of, Identity};

verus! {

/// What a ledger block records, as far as payments are concerned.
#[derive(Clone, Copy, Debug, PartialEq, Eq)]
pub enum LedgerOperation {
    /// A transfer of `amount` (in the ledger's smallest unit) between two
    /// 32-byte accounts.
    Transfer { from: [u8; 32], to: [u8; 32], amount: u64 },
    /// A mint, a burn, or a block without an operation.
    Other,
}

/// The answer to a query for one block.
#[derive(Clone, Debug, PartialEq, Eq)]
pub enum FetchedBlock {
    Found(LedgerOperation),
    NotFound,
    /// The query failed on its way to the ledger; the message it gave.
    Failed(String),
}

/// A range of blocks that the ledger has moved to an archive.
#[derive(Clone, Copy, Debug, PartialEq, Eq)]
pub struct ArchiveSpan {
    pub start: u64,
    pub length: u64,
}

/// What to do after the live ledger has answered a query for one block.
#[derive(Clone, Copy, Debug, PartialEq, Eq)]
pub enum LookupStep {
    /// The live answer holds the block: take its first block.
    UseLive,
    /// Ask the archive at this position of the live answer's archive list.
    AskArchive(usize),
    /// No block is held at that index.
    NotFound,
}

pub open spec fn covers(span: ArchiveSpan, index: u64) -> bool {
    span.start <= index && index - span.start < span.length
}

/// The position of the first span in `spans`, from `i` on, that covers
/// `index`.
pub open spec fn first_cover_from(spans: Seq<ArchiveSpan>, index: u64, i: int) -> Option<int>
    decreases spans.len() - i,
{
    if i < 0 || i >= spans.len() {
        None
    } else if covers(spans[i], index) {
        Some(i)
    } else {
        first_cover_from(spans, index, i + 1)
    }
}

pub open spec fn lookup_step(index: u64, live_blocks: nat, spans: Seq<ArchiveSpan>) -> LookupStep {
    if live_blocks >= 1 {
        LookupStep::UseLive
    } else {
        match first_cover_from(spans, index, 0) {
            Some(i) => LookupStep::AskArchive(i as usize),
            None => LookupStep::NotFound,
        }
    }
}

/// Decides the second hop of a block lookup: the live answer held
/// `live_blocks` blocks and listed `spans` as archived.
pub fn next_lookup(index: u64, live_blocks: usize, spans: &Vec<ArchiveSpan>) -> (r: LookupStep)
    ensures
        r == lookup_step(index, live_blocks as nat, spans@),
{
    if live_blocks >= 1 {
        return LookupStep::UseLive;
    }
    let mut i: usize = 0;
    while i < spans.len()
        invariant
            i <= spans@.len(),
            live_blocks == 0,
            first_cover_from(spans@, index, 0) == first_cover_from(spans@, index, i as int),
        decreases spans@.len() - i,
    {
        let s = spans[i];
        if s.start <= index && index - s.start < s.length {
            assert(first_cover_from(spans@, index, i as int) == Some(i as int));
            return LookupStep::AskArchive(i);
        }
        i = i + 1;
    }
    LookupStep::NotFound
}

/// The amount that a fetched block pays from `payer` to `recipient`, both
/// given as ledger accounts, or why it does not count as such a payment.
pub open spec fn payment_check(fetched: FetchedBlock, payer: Seq<u8>, recipient: Seq<u8>) -> Result<
    u64,
    ServiceError,
> {
    match fetched {
        FetchedBlock::NotFound => Err(ServiceError::BlockNotFound),
        FetchedBlock::Failed(msg) => Err(ServiceError::LedgerUnavailable(msg)),
        FetchedBlock::Found(op) => match op {
            LedgerOperation::Other => Err(ServiceError::InvalidBlock),
            LedgerOperation::Transfer { from, to, amount } => {
                if from@ != payer || to@ != recipient {
                    Err(ServiceError::InvalidTransaction)
                } else {
                    Ok(amount)
                }
            },
        },
    }
}

fn same_account(a: &[u8; 32], b: &[u8; 32]) -> (r: bool)
    ensures
        r == (a@ == b@),
{
    let mut i: usize = 0;
    while i < 32
        invariant
            i <= 32,
            a@.len() == 32,
            b@.len() == 32,
            forall|k: int| 0 <= k < i ==> a@[k] == b@[k],
        decreases 32 - i,
    {
        if a[i] != b[i] {
            return false;
        }
        i = i + 1;
    }
    assert(a@ =~= b@);
    true
}

/// Checks a fetched block against the expected payer and recipient accounts.
pub fn check_payment(fetched: FetchedBlock, payer: &[u8; 32], recipient: &[u8; 32]) -> (r: Result<
    u64,
    ServiceError,
>)
    ensures
        r == payment_check(fetched, payer@, recipient@),
{
    match fetched {
        FetchedBlock::NotFound => Err(ServiceError::BlockNotFound),
        FetchedBlock::Failed(msg) => Err(ServiceError::LedgerUnavailable(msg)),
        FetchedBlock::Found(op) => match op {
            LedgerOperation::Other => Err(ServiceError::InvalidBlock),
            LedgerOperation::Transfer { from, to, amount } => {
                if !same_account(&from, payer) {
                    return Err(ServiceError::InvalidTransaction);
                }
                if !same_account(&to, recipient) {
                    return Err(ServiceError::InvalidTransaction);
                }
                Ok(amount)
            },
        },
    }
}

/// Checks a fetched block as a payment from `payer` to `recipient`, each
/// through its default ledger account, and gives the amount paid.
pub fn verify_payment(payer: &Identity, recipient: &Identity, fetched: FetchedBlock) -> (r: Result<u64, ServiceError>)
    ensures
        r == payment_check(fetched, default_account_of(payer@), default_account_of(recipient@)),
{
    let payer_account = default_account(payer);
    let recipient_account = default_account(recipient);
    check_payment(fetched, &payer_account, &recipient_account)
}

/// Whether `block_index` is among the consumed blocks.
pub fn block_listed(consumed: &Vec<u64>, block_index: u64) -> (r: bool)
    ensures
        r == consumed@.contains(block_index),
{
    let mut i: usize = 0;
    while i < consumed.len()
        invariant
            i <= consumed@.len(),
            forall|k: int| 0 <= k < i ==> consumed@[k] != block_index,
        decreases consumed@.len() - i,
    {
        if consumed[i] == block_index {
            assert(consumed@[i as int] == block_index);
            return true;
        }
        i = i + 1;
    }
    false
}

} // verus!
