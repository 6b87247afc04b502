use vstd::prelude::*;

verus! {

/// Why an operation was rejected. Every error is fatal to the operation that
/// raised it, and an operation that fails leaves every account as it found it.
#[derive(Debug, Clone, Copy, PartialEq, Eq, Structural)]
pub enum EscrowError {
    /// The instruction bytes carry an unknown discriminant or a payload that
    /// is not in the wire layout.
    MalformedInstruction,
    /// The stored bytes of a record are not in the record layout.
    MalformedRecord,
    /// The payer holds less than the operation has to take from it.
    InsufficientFunds,
    /// The supplied record address is not the derived one, or the record is
    /// not owned by this program.
    AccountMismatch,
    /// The payer did not approve the call.
    Unauthorized,
    /// The record address is already allocated.
    AccountAlreadyInitialized,
    /// All three installments have been released.
    StepExhausted,
    /// A balance would leave the range of a 64-bit unsigned integer.
    ArithmeticFault,
}

} // verus!
