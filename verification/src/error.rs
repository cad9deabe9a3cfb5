//! Why an operation of the vault is refused.

use vstd::prelude::*;

verus! {

/// The reasons for which the vault refuses an operation. A refused operation
/// leaves the vault exactly as it was.
#[derive(Clone, Copy, Debug, PartialEq, Eq, Structural)]
pub enum VaultError {
    /// The account has no entry in the share ledger.
    AccountNotRegistered,
    /// The asset received is not the one the vault locks.
    MismatchedAsset,
    /// A withdrawal was requested without exactly one unit attached to the call.
    OneYoctoRequired,
    /// The deposit is too small to mint a single share.
    StakeTooSmall,
    /// A withdrawal was requested while no share is outstanding.
    EmptyTotalSupply,
    /// The withdrawal would leave fewer shares outstanding than the floor.
    KeepMinimumShares,
    /// The account holds fewer shares than it asks to burn.
    InsufficientBalance,
    /// The state contradicts itself, or a completion came with other than one
    /// result: shares outstanding over an empty pool, or a supply smaller than
    /// a balance it has to cover.
    InternalInvariantViolation,
    /// An amount would leave 128 bits.
    ArithmeticOverflow,
}

} // verus!
