//! The error taxonomy surfaced by every operation of the payroll ledger.
//!
//! Each failed precondition aborts the whole operation with one specific
//! error kind, so a caller can tell apart "fix the input and retry"
//! (validation), "wait" (funds), and "do not retry" (authorization,
//! duplicate creation).

use vstd::prelude::*;

verus! {

/// Everything a payroll operation can fail with.
#[derive(Clone, Copy, Debug, PartialEq, Eq, Structural)]
pub enum GhostPayrollError {
    /// The invoking key is not the company's authority.
    UnauthorizedAccess,
    /// An employee record already exists for this company and wallet.
    EmployeeAlreadyExists,
    /// No employee record exists for this company and wallet.
    EmployeeNotFound,
    /// The payment amount is below the accepted minimum.
    InvalidSalaryAmount,
    /// The company treasury holds less than the requested amount.
    InsufficientCompanyBalance,
    /// The payment schedule says no payment is due yet.
    PaymentNotDue,
    /// The employee record is marked inactive.
    EmployeeInactive,
    /// The company record is marked inactive.
    CompanyInactive,
    /// The payment frequency given is not recognised.
    InvalidPaymentFrequency,
    /// Salary data could not be encrypted.
    EncryptionFailed,
    /// Salary data could not be decrypted.
    DecryptionFailed,
    /// The zero-knowledge proof failed verification.
    ProofVerificationFailed,
    /// The company already carries its maximum number of employees.
    MaxEmployeesReached,
    /// The company name is empty or longer than the accepted maximum.
    CompanyNameTooLong,
    /// A token account has the wrong asset type or owner for this operation.
    InvalidTokenMint,
    /// A checked counter increment would overflow.
    ArithmeticOverflow,
    /// A checked counter decrement would underflow.
    ArithmeticUnderflow,
    /// The external private-payment relay signalled failure.
    ShadowWireError,
    /// The proof blob or relay signature is longer than the accepted maximum.
    InvalidPaymentProof,
    /// A payment proof for this payment id was already recorded.
    PaymentAlreadyProcessed,
    /// The encrypted salary blob is empty or longer than the accepted maximum.
    InvalidEncryptedSalary,
    /// No company record exists for this authority key.
    CompanyNotFound,
    /// A company record already exists for this authority key.
    CompanyAlreadyExists,
}

} // verus!
