//! The entity records of the payroll ledger: companies, employees, payment
//! proofs, token accounts, and the payment-frequency and payment-status
//! enumerations, each with its well-formedness predicate.
//!
//! Keys (wallets, authorities, asset mints) are plain 64-bit identifiers:
//! the hosting platform's opaque account keys re-expressed as content-derived
//! values, so that entity identity is decided by equality alone.

use vstd::prelude::*;
use crate::constants::{
    ENCRYPTED_SALARY_MAX_SIZE, MAX_COMPANY_NAME_LENGTH, MAX_EMPLOYEES_PER_COMPANY,
    SECONDS_PER_BIWEEK, SECONDS_PER_MONTH, SECONDS_PER_WEEK, TX_SIGNATURE_LENGTH,
    ZK_PROOF_MAX_SIZE,
};

verus! {

/// How often an employee is paid.
#[derive(Clone, Copy, Debug, PartialEq, Eq, Structural)]
pub enum PaymentFrequency {
    /// Every week.
    Weekly,
    /// Every two weeks.
    Biweekly,
    /// Every thirty days.
    Monthly,
}

impl PaymentFrequency {
    /// The length of this payment interval, in seconds.
    pub open spec fn interval_seconds(self) -> i64 {
        match self {
            PaymentFrequency::Weekly => SECONDS_PER_WEEK,
            PaymentFrequency::Biweekly => SECONDS_PER_BIWEEK,
            PaymentFrequency::Monthly => SECONDS_PER_MONTH,
        }
    }

    /// Seconds until the next payment falls due after a payment now.
    pub fn seconds_to_next_payment(&self) -> (r: i64)
        ensures
            r == self.interval_seconds(),
            0 < r <= SECONDS_PER_MONTH,
    {
        match self {
            PaymentFrequency::Weekly => SECONDS_PER_WEEK,
            PaymentFrequency::Biweekly => SECONDS_PER_BIWEEK,
            PaymentFrequency::Monthly => SECONDS_PER_MONTH,
        }
    }
}

/// The lifecycle state of a recorded payment proof.
#[derive(Clone, Copy, Debug, PartialEq, Eq, Structural)]
pub enum PaymentStatus {
    /// Recorded but not yet picked up.
    Pending,
    /// Being carried out.
    Processing,
    /// Carried out in full.
    Completed,
    /// Abandoned after a failure.
    Failed,
}

/// An employer: owns a treasury and a roster of employees.
///
/// A company lives under its authority key: at most one company per
/// authority, and that authority is the sole actor allowed to mutate the
/// company or anything it owns.
pub struct Company {
    /// The owning key; every mutation must be invoked by it.
    pub authority: u64,
    /// Company name, 1 to 50 bytes.
    pub name: Vec<u8>,
    /// Number of employees currently counted as active.
    pub employee_count: u16,
    /// Commitment to the off-ledger budget amount.
    pub budget_commitment: [u8; 32],
    /// Asset type used for payroll.
    pub payment_token: u64,
    /// Default payment cadence for the company.
    pub payment_frequency: PaymentFrequency,
    /// When the last payroll run happened.
    pub last_payment_timestamp: i64,
    /// When the next payment falls due (advisory bookkeeping only).
    pub next_payment_due: i64,
    /// How many payments this company has made.
    pub total_payments_made: u64,
    /// Once false, the company and all its employees are frozen.
    pub is_active: bool,
}

impl Company {
    /// Field bounds every stored company satisfies.
    pub open spec fn wf(self) -> bool {
        &&& 1 <= self.name@.len() <= MAX_COMPANY_NAME_LENGTH
        &&& self.employee_count <= MAX_EMPLOYEES_PER_COMPANY
    }
}

/// A worker tied to exactly one company.
///
/// An employee lives under the pair of its company's address and its own
/// wallet key: a wallet has at most one employee record per company.
pub struct Employee {
    /// The employee's receiving wallet key.
    pub wallet: u64,
    /// Address of the owning company.
    pub company: u64,
    /// Ciphertext of the salary, produced and consumed outside the ledger,
    /// 1 to 256 bytes.
    pub encrypted_salary: Vec<u8>,
    /// Commitment pinning the salary value without disclosing it.
    pub salary_commitment: [u8; 32],
    /// This employee's own payment cadence.
    pub payment_frequency: PaymentFrequency,
    /// When the employee was added.
    pub join_date: i64,
    /// When the employee was last paid.
    pub last_payment_date: i64,
    /// How many payments the employee has received.
    pub total_payments_received: u64,
    /// Soft-delete flag; a removed employee keeps its record.
    pub is_active: bool,
}

impl Employee {
    /// Field bounds every stored employee satisfies.
    pub open spec fn wf(self) -> bool {
        1 <= self.encrypted_salary@.len() <= ENCRYPTED_SALARY_MAX_SIZE
    }
}

/// An immutable audit record of one payment.
///
/// A proof lives under the triple of company address, employee wallet and
/// payment id, so recording the same payment id twice for the same employee
/// collides and is rejected.
pub struct PaymentProof {
    /// Caller-supplied payment identifier, unique per company and employee.
    pub payment_id: u64,
    /// Wallet of the employee who was paid.
    pub employee: u64,
    /// Address of the company that paid.
    pub company: u64,
    /// When the proof was recorded.
    pub payment_date: i64,
    /// Commitment to the paid amount.
    pub amount_commitment: [u8; 32],
    /// Opaque zero-knowledge proof blob, at most 512 bytes.
    pub zk_proof: Vec<u8>,
    /// Opaque reference into the external relay's ledger, at most 88 bytes.
    pub shadowwire_tx_signature: Vec<u8>,
    /// Lifecycle state; set to `Completed` at creation.
    pub status: PaymentStatus,
}

impl PaymentProof {
    /// Field bounds every stored payment proof satisfies.
    pub open spec fn wf(self) -> bool {
        &&& self.zk_proof@.len() <= ZK_PROOF_MAX_SIZE
        &&& self.shadowwire_tx_signature@.len() <= TX_SIGNATURE_LENGTH
    }
}

/// A holding account for one asset type, as the asset-transfer subsystem
/// presents it: an owner key, an asset type, and a balance.
#[derive(Clone, Copy, Debug, PartialEq, Eq, Structural)]
pub struct TokenAccount {
    /// Key of the account's owner.
    pub owner: u64,
    /// Asset type the account holds.
    pub mint: u64,
    /// Current balance, in the smallest unit of the asset.
    pub amount: u64,
}

} // verus!
