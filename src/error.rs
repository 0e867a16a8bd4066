//! The outcomes by which the service rejects a request.
use vstd::prelude::*;

verus! {

/// Why a request was rejected.
#[derive(Clone, Debug, PartialEq, Eq)]
pub enum ServiceError {
    /// The caller is not the owning identity.
    InvalidCaller,
    /// The service is closed to new unlocks.
    Closed,
    /// The referrer has a record but has never unlocked.
    InvalidInviter,
    /// The referrer has no record.
    InviterNotFound,
    /// The block index was already accepted as a payment.
    BlockAlreadyUsed,
    /// The ledger holds no block at that index.
    BlockNotFound,
    /// The ledger could not be reached; the message it gave.
    LedgerUnavailable(String),
    /// The block is not a transfer.
    InvalidBlock,
    /// The transfer's sender or recipient is not the expected one.
    InvalidTransaction,
    /// The identity has no record.
    AccountNotFound,
    /// A counter or an accumulated amount would exceed its range.
    Overflow,
    /// The payment is below the application fee.
    InvalidFee,
    /// The wallet already has an application that was not refused.
    DuplicateWalletAddress,
    /// No application belongs to that wallet.
    WalletAddressNotFound,
}

/// A reply of the token service to a mint request.
#[derive(Clone, Debug, PartialEq, Eq)]
pub enum TxError {
    InsufficientBalance,
    InsufficientAllowance,
    Unauthorized,
    LedgerTrap,
    AmountTooSmall,
    BlockUsed,
    ErrorOperationStyle,
    ErrorTo,
    Other(String),
}

} // verus!
