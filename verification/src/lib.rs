//! Accounting engine of a share-based staking vault.
//!
//! Holders deposit a base asset and receive shares; reward is released into the
//! locked pool period by period, which raises what one share redeems; a
//! withdrawal burns shares, pays out the proportional amount through a transfer
//! whose outcome arrives later, and is undone when that transfer fails.

pub mod error;
pub mod ledger;
pub mod state;
pub mod theorems;
pub mod vault;
pub mod wide;

pub use crate::error::VaultError;
pub use crate::ledger::ShareLedger;
pub use crate::state::Settlement;
pub use crate::state::TransferOutcome;
pub use crate::state::DURATION_30DAYS_IN_SEC;
pub use crate::state::MIN_TOTAL_SUPPLY;
pub use crate::vault::nano_to_sec;
pub use crate::vault::Contract;
pub use crate::vault::PendingTransfer;
pub use crate::wide::mul_div;
