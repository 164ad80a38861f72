//! The state machine's transition semantics, one spec function per
//! operation.
//!
//! Each outcome function maps the ledger view and the operation's inputs to
//! either the view after the operation or the exact error the operation
//! fails with. The checks stand in the order the operations make them:
//! addressing and authorization first, then lifecycle, then field
//! validation, then arithmetic. An error always means the ledger (and, for
//! payment processing, both token accounts) is left exactly as it was: the
//! executable operations promise to agree with these functions in full.

use vstd::prelude::*;
use crate::constants::{
    ENCRYPTED_SALARY_MAX_SIZE, MAX_COMPANY_NAME_LENGTH, MAX_EMPLOYEES_PER_COMPANY,
    MIN_SALARY_AMOUNT, TX_SIGNATURE_LENGTH, ZK_PROOF_MAX_SIZE,
};
use crate::errors::GhostPayrollError;
use crate::state::{Company, Employee, PaymentFrequency, PaymentProof, PaymentStatus, TokenAccount};
use crate::view::LedgerView;

verus! {

/// The company record as company creation writes it.
pub open spec fn company_created(
    authority: u64,
    name: Vec<u8>,
    budget_commitment: [u8; 32],
    payment_frequency: PaymentFrequency,
    payment_token: u64,
    now: i64,
) -> Company {
    Company {
        authority,
        name,
        employee_count: 0,
        budget_commitment,
        payment_token,
        payment_frequency,
        last_payment_timestamp: now,
        next_payment_due: (now + payment_frequency.interval_seconds()) as i64,
        total_payments_made: 0,
        is_active: true,
    }
}

/// Company creation: rejects a second company for the same authority, then
/// an empty or overlong name; otherwise allocates the company with an empty
/// roster and the first due date one interval ahead.
pub open spec fn initialize_company_outcome(
    v: LedgerView,
    authority: u64,
    name: Vec<u8>,
    budget_commitment: [u8; 32],
    payment_frequency: PaymentFrequency,
    payment_token: u64,
    now: i64,
) -> Result<LedgerView, GhostPayrollError> {
    if v.companies.contains_key(authority) {
        Err(GhostPayrollError::CompanyAlreadyExists)
    } else if name@.len() == 0 || name@.len() > MAX_COMPANY_NAME_LENGTH {
        Err(GhostPayrollError::CompanyNameTooLong)
    } else {
        Ok(
            LedgerView {
                companies: v.companies.insert(
                    authority,
                    company_created(
                        authority,
                        name,
                        budget_commitment,
                        payment_frequency,
                        payment_token,
                        now,
                    ),
                ),
                employees: v.employees,
                proofs: v.proofs,
            },
        )
    }
}

/// The employee record as employee creation writes it.
pub open spec fn employee_created(
    company: u64,
    wallet: u64,
    encrypted_salary: Vec<u8>,
    salary_commitment: [u8; 32],
    payment_frequency: PaymentFrequency,
    now: i64,
) -> Employee {
    Employee {
        wallet,
        company,
        encrypted_salary,
        salary_commitment,
        payment_frequency,
        join_date: now,
        last_payment_date: now,
        total_payments_received: 0,
        is_active: true,
    }
}

/// A company record with its employee count replaced.
pub open spec fn company_with_count(c: Company, employee_count: u16) -> Company {
    Company {
        authority: c.authority,
        name: c.name,
        employee_count,
        budget_commitment: c.budget_commitment,
        payment_token: c.payment_token,
        payment_frequency: c.payment_frequency,
        last_payment_timestamp: c.last_payment_timestamp,
        next_payment_due: c.next_payment_due,
        total_payments_made: c.total_payments_made,
        is_active: c.is_active,
    }
}

/// Adding an employee: the invoking key must own an active company with
/// room on its roster, the wallet must not already have a record under that
/// company, and the encrypted salary must be 1 to 256 bytes; then the
/// employee is allocated and the roster count goes up by one.
pub open spec fn add_employee_outcome(
    v: LedgerView,
    authority: u64,
    employee_wallet: u64,
    encrypted_salary: Vec<u8>,
    salary_commitment: [u8; 32],
    payment_frequency: PaymentFrequency,
    now: i64,
) -> Result<LedgerView, GhostPayrollError> {
    if !v.companies.contains_key(authority) {
        Err(GhostPayrollError::CompanyNotFound)
    } else if v.companies[authority].authority != authority {
        Err(GhostPayrollError::UnauthorizedAccess)
    } else if !v.companies[authority].is_active {
        Err(GhostPayrollError::CompanyInactive)
    } else if v.companies[authority].employee_count >= MAX_EMPLOYEES_PER_COMPANY {
        Err(GhostPayrollError::MaxEmployeesReached)
    } else if v.employees.contains_key((authority, employee_wallet)) {
        Err(GhostPayrollError::EmployeeAlreadyExists)
    } else if encrypted_salary@.len() == 0 || encrypted_salary@.len() > ENCRYPTED_SALARY_MAX_SIZE {
        Err(GhostPayrollError::InvalidEncryptedSalary)
    } else {
        Ok(
            LedgerView {
                companies: v.companies.insert(
                    authority,
                    company_with_count(
                        v.companies[authority],
                        (v.companies[authority].employee_count + 1) as u16,
                    ),
                ),
                employees: v.employees.insert(
                    (authority, employee_wallet),
                    employee_created(
                        authority,
                        employee_wallet,
                        encrypted_salary,
                        salary_commitment,
                        payment_frequency,
                        now,
                    ),
                ),
                proofs: v.proofs,
            },
        )
    }
}

/// An employee record with its salary fields replaced.
pub open spec fn employee_with_salary(
    e: Employee,
    encrypted_salary: Vec<u8>,
    salary_commitment: [u8; 32],
) -> Employee {
    Employee {
        wallet: e.wallet,
        company: e.company,
        encrypted_salary,
        salary_commitment,
        payment_frequency: e.payment_frequency,
        join_date: e.join_date,
        last_payment_date: e.last_payment_date,
        total_payments_received: e.total_payments_received,
        is_active: e.is_active,
    }
}

/// Updating a salary: the invoking key must own an active company, the
/// wallet must have an active record under it, and the new blob must be 1
/// to 256 bytes; then both salary fields are replaced in place.
pub open spec fn update_employee_salary_outcome(
    v: LedgerView,
    authority: u64,
    employee_wallet: u64,
    new_encrypted_salary: Vec<u8>,
    new_salary_commitment: [u8; 32],
) -> Result<LedgerView, GhostPayrollError> {
    if !v.companies.contains_key(authority) {
        Err(GhostPayrollError::CompanyNotFound)
    } else if v.companies[authority].authority != authority {
        Err(GhostPayrollError::UnauthorizedAccess)
    } else if !v.companies[authority].is_active {
        Err(GhostPayrollError::CompanyInactive)
    } else if !v.employees.contains_key((authority, employee_wallet)) {
        Err(GhostPayrollError::EmployeeNotFound)
    } else if !v.employees[(authority, employee_wallet)].is_active {
        Err(GhostPayrollError::EmployeeInactive)
    } else if new_encrypted_salary@.len() == 0 || new_encrypted_salary@.len()
        > ENCRYPTED_SALARY_MAX_SIZE {
        Err(GhostPayrollError::InvalidEncryptedSalary)
    } else {
        Ok(
            LedgerView {
                companies: v.companies,
                employees: v.employees.insert(
                    (authority, employee_wallet),
                    employee_with_salary(
                        v.employees[(authority, employee_wallet)],
                        new_encrypted_salary,
                        new_salary_commitment,
                    ),
                ),
                proofs: v.proofs,
            },
        )
    }
}

/// An employee record with its active flag cleared.
pub open spec fn employee_deactivated(e: Employee) -> Employee {
    Employee {
        wallet: e.wallet,
        company: e.company,
        encrypted_salary: e.encrypted_salary,
        salary_commitment: e.salary_commitment,
        payment_frequency: e.payment_frequency,
        join_date: e.join_date,
        last_payment_date: e.last_payment_date,
        total_payments_received: e.total_payments_received,
        is_active: false,
    }
}

/// Removing an employee: the invoking key must own an active company and
/// the wallet a record under it; the record is kept but marked inactive and
/// the roster count goes down by one, checked. The count never wraps below
/// zero: with an empty roster the checked decrement fails instead.
pub open spec fn remove_employee_outcome(v: LedgerView, authority: u64, employee_wallet: u64) -> Result<
    LedgerView,
    GhostPayrollError,
> {
    if !v.companies.contains_key(authority) {
        Err(GhostPayrollError::CompanyNotFound)
    } else if v.companies[authority].authority != authority {
        Err(GhostPayrollError::UnauthorizedAccess)
    } else if !v.companies[authority].is_active {
        Err(GhostPayrollError::CompanyInactive)
    } else if !v.employees.contains_key((authority, employee_wallet)) {
        Err(GhostPayrollError::EmployeeNotFound)
    } else if v.companies[authority].employee_count == 0 {
        Err(GhostPayrollError::ArithmeticUnderflow)
    } else {
        Ok(
            LedgerView {
                companies: v.companies.insert(
                    authority,
                    company_with_count(
                        v.companies[authority],
                        (v.companies[authority].employee_count - 1) as u16,
                    ),
                ),
                employees: v.employees.insert(
                    (authority, employee_wallet),
                    employee_deactivated(v.employees[(authority, employee_wallet)]),
                ),
                proofs: v.proofs,
            },
        )
    }
}

/// The employee record after a processed payment: paid now, one more
/// payment received.
pub open spec fn employee_paid(e: Employee, now: i64) -> Employee {
    Employee {
        wallet: e.wallet,
        company: e.company,
        encrypted_salary: e.encrypted_salary,
        salary_commitment: e.salary_commitment,
        payment_frequency: e.payment_frequency,
        join_date: e.join_date,
        last_payment_date: now,
        total_payments_received: (e.total_payments_received + 1) as u64,
        is_active: e.is_active,
    }
}

/// The company record after a processed payment: the run stamped now, the
/// next due date one of the employee's intervals ahead, one more payment
/// made.
pub open spec fn company_paid(c: Company, employee_frequency: PaymentFrequency, now: i64) -> Company {
    Company {
        authority: c.authority,
        name: c.name,
        employee_count: c.employee_count,
        budget_commitment: c.budget_commitment,
        payment_token: c.payment_token,
        payment_frequency: c.payment_frequency,
        last_payment_timestamp: now,
        next_payment_due: (now + employee_frequency.interval_seconds()) as i64,
        total_payments_made: (c.total_payments_made + 1) as u64,
        is_active: c.is_active,
    }
}

/// Processing a payment: after addressing, authorization and lifecycle
/// checks, both token accounts must carry the company's payroll asset (the
/// treasury owned by the company, the receiving account by the employee's
/// wallet), the amount must reach the minimum, and the treasury must cover
/// it; then the amount moves from treasury to employee and the bookkeeping
/// counters advance, all of it or none of it.
pub open spec fn process_payment_outcome(
    v: LedgerView,
    treasury: TokenAccount,
    employee_token_account: TokenAccount,
    authority: u64,
    employee_wallet: u64,
    amount: u64,
    now: i64,
) -> Result<(LedgerView, TokenAccount, TokenAccount), GhostPayrollError> {
    if !v.companies.contains_key(authority) {
        Err(GhostPayrollError::CompanyNotFound)
    } else if v.companies[authority].authority != authority {
        Err(GhostPayrollError::UnauthorizedAccess)
    } else if !v.companies[authority].is_active {
        Err(GhostPayrollError::CompanyInactive)
    } else if !v.employees.contains_key((authority, employee_wallet)) {
        Err(GhostPayrollError::EmployeeNotFound)
    } else if !v.employees[(authority, employee_wallet)].is_active {
        Err(GhostPayrollError::EmployeeInactive)
    } else if treasury.owner != authority || treasury.mint != v.companies[authority].payment_token {
        Err(GhostPayrollError::InvalidTokenMint)
    } else if employee_token_account.owner != employee_wallet || employee_token_account.mint
        != v.companies[authority].payment_token {
        Err(GhostPayrollError::InvalidTokenMint)
    } else if amount < MIN_SALARY_AMOUNT {
        Err(GhostPayrollError::InvalidSalaryAmount)
    } else if treasury.amount < amount {
        Err(GhostPayrollError::InsufficientCompanyBalance)
    } else if employee_token_account.amount + amount > u64::MAX {
        Err(GhostPayrollError::ArithmeticOverflow)
    } else if v.employees[(authority, employee_wallet)].total_payments_received + 1 > u64::MAX {
        Err(GhostPayrollError::ArithmeticOverflow)
    } else if v.companies[authority].total_payments_made + 1 > u64::MAX {
        Err(GhostPayrollError::ArithmeticOverflow)
    } else {
        Ok(
            (
                LedgerView {
                    companies: v.companies.insert(
                        authority,
                        company_paid(
                            v.companies[authority],
                            v.employees[(authority, employee_wallet)].payment_frequency,
                            now,
                        ),
                    ),
                    employees: v.employees.insert(
                        (authority, employee_wallet),
                        employee_paid(v.employees[(authority, employee_wallet)], now),
                    ),
                    proofs: v.proofs,
                },
                TokenAccount {
                    owner: treasury.owner,
                    mint: treasury.mint,
                    amount: (treasury.amount - amount) as u64,
                },
                TokenAccount {
                    owner: employee_token_account.owner,
                    mint: employee_token_account.mint,
                    amount: (employee_token_account.amount + amount) as u64,
                },
            ),
        )
    }
}

/// The proof record as proof recording writes it: completed at creation.
pub open spec fn proof_created(
    company: u64,
    employee_wallet: u64,
    payment_id: u64,
    amount_commitment: [u8; 32],
    zk_proof: Vec<u8>,
    shadowwire_tx_signature: Vec<u8>,
    now: i64,
) -> PaymentProof {
    PaymentProof {
        payment_id,
        employee: employee_wallet,
        company,
        payment_date: now,
        amount_commitment,
        zk_proof,
        shadowwire_tx_signature,
        status: PaymentStatus::Completed,
    }
}

/// Recording a payment proof: the invoking key must own an active company
/// and the wallet a record under it; a proof for the same payment id is a
/// collision and is rejected as already processed, an oversize proof blob
/// or relay signature as invalid; otherwise exactly one immutable record is
/// appended.
pub open spec fn record_payment_proof_outcome(
    v: LedgerView,
    authority: u64,
    employee_wallet: u64,
    payment_id: u64,
    amount_commitment: [u8; 32],
    zk_proof: Vec<u8>,
    shadowwire_tx_signature: Vec<u8>,
    now: i64,
) -> Result<LedgerView, GhostPayrollError> {
    if !v.companies.contains_key(authority) {
        Err(GhostPayrollError::CompanyNotFound)
    } else if v.companies[authority].authority != authority {
        Err(GhostPayrollError::UnauthorizedAccess)
    } else if !v.companies[authority].is_active {
        Err(GhostPayrollError::CompanyInactive)
    } else if !v.employees.contains_key((authority, employee_wallet)) {
        Err(GhostPayrollError::EmployeeNotFound)
    } else if v.proofs.contains_key((authority, employee_wallet, payment_id)) {
        Err(GhostPayrollError::PaymentAlreadyProcessed)
    } else if zk_proof@.len() > ZK_PROOF_MAX_SIZE {
        Err(GhostPayrollError::InvalidPaymentProof)
    } else if shadowwire_tx_signature@.len() > TX_SIGNATURE_LENGTH {
        Err(GhostPayrollError::InvalidPaymentProof)
    } else {
        Ok(
            LedgerView {
                companies: v.companies,
                employees: v.employees,
                proofs: v.proofs.insert(
                    (authority, employee_wallet, payment_id),
                    proof_created(
                        authority,
                        employee_wallet,
                        payment_id,
                        amount_commitment,
                        zk_proof,
                        shadowwire_tx_signature,
                        now,
                    ),
                ),
            },
        )
    }
}

} // verus!
