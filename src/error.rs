use vstd::prelude::*;

verus! {

/// Failures raised by the button program's own rules.
#[derive(Clone, Copy, Debug, PartialEq, Eq, Structural)]
pub enum ButtonProgramError {
    /// The creator cannot pay the button fee.
    InsufficientFunds,
    /// The user has already liked this button. Duplicate likes are stopped by
    /// the collision on the Like marker's address, so no transition raises it.
    AlreadyLiked,
    /// A string argument is longer than its bound.
    InvalidInput,
    /// The like counter would pass its maximum.
    Overflow,
}

/// Why a transition failed. A failed transition leaves the ledger unchanged.
#[derive(Clone, Copy, Debug, PartialEq, Eq, Structural)]
pub enum TransitionError {
    /// A rule of the button program failed.
    Program(ButtonProgramError),
    /// A record was to be allocated at an address that already holds one.
    AccountAlreadyInUse,
    /// No Button record is stored at the button address.
    AccountNotInitialized,
    /// The payer is the address being allocated, which already holds base units.
    PayerIsTarget,
    /// A supplied address is not the one that its seeds derive.
    ConstraintSeeds,
    /// No address can be derived from the seeds.
    AddressUnavailable,
    /// The account that pays holds fewer base units than it must pay.
    InsufficientLamports,
    /// The account that pays holds a record, so base units cannot be debited from it.
    NotSystemAccount,
    /// A balance or a rent amount would pass the largest `u64`.
    ArithmeticOverflow,
}

} // verus!
