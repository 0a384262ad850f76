//! The ways in which a request can be refused.

use vstd::prelude::*;

verus! {

/// Why a request was refused. A refused request changes nothing.
#[derive(Clone, Copy, Debug, PartialEq, Eq, Structural)]
pub enum ContractError {
    /// The requested field size is zero or above the largest supported field.
    InvalidFieldSize,
    /// A currency does not define each of the three powerups exactly once, or
    /// a purchase would raise a balance beyond what the ledger can count.
    InvalidPowerupAmounts,
    /// A bridged currency was configured without a channel.
    MissingChannelId,
    /// Two currencies were configured with the same chain id.
    DuplicateChainIds,
    /// No cell has the requested id.
    CellNotFound,
    /// The cell may not be opened yet.
    CellOnCooldown,
    /// The account opened a cell too recently.
    UserOnCooldown,
    /// The payment is in a currency that was never configured, or is missing.
    UnsupportedCurrency,
    /// The payment does not cover what the request costs.
    InsufficientFunds,
    /// The account holds fewer powerup charges than the request would use.
    InsufficientPowerups,
    /// The request carries no accepted proof of identity.
    Unauthorized,
}

} // verus!
