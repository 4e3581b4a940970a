use vstd::prelude::*;

verus! {

/// Why a ledger operation was refused. A refused operation never changes state.
#[derive(Clone, Copy, Debug, PartialEq, Eq, Structural)]
pub enum ContractError {
    /// The caller did not prove control of the required identity, or the
    /// identity it proved is not the one the record names as its authority.
    AuthorizationError,
    /// The operation needs a record that was never created.
    NotFoundError,
    /// A transfer asked for more than the sender holds.
    InsufficientBalanceError,
    /// A division by zero, or a result outside the 128-bit signed range.
    ArithmeticError,
}

} // verus!
