//! The guarantees the state machine gives across operations, each proved
//! once and for all over the transition functions of `transitions`.
//!
//! Every executable operation's contract says its state change agrees with
//! its transition function, and that on an error nothing changes at all; so
//! everything proved here holds of the executable ledger too, through any
//! sequence of operations.

use vstd::prelude::*;
use crate::constants::{MAX_EMPLOYEES_PER_COMPANY, MIN_SALARY_AMOUNT};
use crate::errors::GhostPayrollError;
use crate::state::{PaymentFrequency, TokenAccount};
use crate::transitions::{
    add_employee_outcome, initialize_company_outcome, process_payment_outcome, proof_created,
    record_payment_proof_outcome, remove_employee_outcome, update_employee_salary_outcome,
};
use crate::view::LedgerView;

verus! {

/// Creating a company keeps every record well-formed; the new company
/// starts with an empty roster.
pub proof fn lemma_initialize_company_preserves_inv(
    v: LedgerView,
    authority: u64,
    name: Vec<u8>,
    budget_commitment: [u8; 32],
    payment_frequency: PaymentFrequency,
    payment_token: u64,
    now: i64,
)
    requires
        v.inv(),
    ensures
        match initialize_company_outcome(
            v,
            authority,
            name,
            budget_commitment,
            payment_frequency,
            payment_token,
            now,
        ) {
            Ok(v2) => v2.inv() && v2.companies[authority].employee_count == 0,
            Err(_) => true,
        },
{
}

/// Adding an employee keeps every record well-formed; in particular the
/// touched company's employee count stays between zero and the maximum,
/// moving up by exactly one.
pub proof fn lemma_add_employee_preserves_inv(
    v: LedgerView,
    authority: u64,
    employee_wallet: u64,
    encrypted_salary: Vec<u8>,
    salary_commitment: [u8; 32],
    payment_frequency: PaymentFrequency,
    now: i64,
)
    requires
        v.inv(),
    ensures
        match add_employee_outcome(
            v,
            authority,
            employee_wallet,
            encrypted_salary,
            salary_commitment,
            payment_frequency,
            now,
        ) {
            Ok(v2) => v2.inv() && v2.employee_counts_bounded()
                && v2.companies[authority].employee_count == v.companies[authority].employee_count
                + 1,
            Err(_) => true,
        },
{
}

/// Removing an employee keeps every record well-formed; in particular the
/// touched company's employee count stays between zero and the maximum,
/// moving down by exactly one and never wrapping below zero.
pub proof fn lemma_remove_employee_preserves_inv(
    v: LedgerView,
    authority: u64,
    employee_wallet: u64,
)
    requires
        v.inv(),
    ensures
        match remove_employee_outcome(v, authority, employee_wallet) {
            Ok(v2) => v2.inv() && v2.employee_counts_bounded()
                && v2.companies[authority].employee_count == v.companies[authority].employee_count
                - 1,
            Err(_) => true,
        },
{
}

/// Updating a salary keeps every record well-formed and touches no
/// company, so no employee count changes.
pub proof fn lemma_update_employee_salary_preserves_inv(
    v: LedgerView,
    authority: u64,
    employee_wallet: u64,
    new_encrypted_salary: Vec<u8>,
    new_salary_commitment: [u8; 32],
)
    requires
        v.inv(),
    ensures
        match update_employee_salary_outcome(
            v,
            authority,
            employee_wallet,
            new_encrypted_salary,
            new_salary_commitment,
        ) {
            Ok(v2) => v2.inv() && v2.companies == v.companies,
            Err(_) => true,
        },
{
}

/// Processing a payment keeps every record well-formed and leaves every
/// employee count as it was.
pub proof fn lemma_process_payment_preserves_inv(
    v: LedgerView,
    treasury: TokenAccount,
    employee_token_account: TokenAccount,
    authority: u64,
    employee_wallet: u64,
    amount: u64,
    now: i64,
)
    requires
        v.inv(),
    ensures
        match process_payment_outcome(
            v,
            treasury,
            employee_token_account,
            authority,
            employee_wallet,
            amount,
            now,
        ) {
            Ok((v2, _, _)) => v2.inv() && v2.companies[authority].employee_count == v.companies[
                authority
            ].employee_count,
            Err(_) => true,
        },
{
}

/// Recording a payment proof keeps every record well-formed and touches
/// neither companies nor employees.
pub proof fn lemma_record_payment_proof_preserves_inv(
    v: LedgerView,
    authority: u64,
    employee_wallet: u64,
    payment_id: u64,
    amount_commitment: [u8; 32],
    zk_proof: Vec<u8>,
    shadowwire_tx_signature: Vec<u8>,
    now: i64,
)
    requires
        v.inv(),
    ensures
        match record_payment_proof_outcome(
            v,
            authority,
            employee_wallet,
            payment_id,
            amount_commitment,
            zk_proof,
            shadowwire_tx_signature,
            now,
        ) {
            Ok(v2) => v2.inv() && v2.companies == v.companies && v2.employees == v.employees,
            Err(_) => true,
        },
{
}

/// A full roster rejects one more employee with the dedicated error instead
/// of wrapping the count.
pub proof fn lemma_full_roster_rejects_add(
    v: LedgerView,
    authority: u64,
    employee_wallet: u64,
    encrypted_salary: Vec<u8>,
    salary_commitment: [u8; 32],
    payment_frequency: PaymentFrequency,
    now: i64,
)
    requires
        v.inv(),
        v.companies.contains_key(authority),
        v.companies[authority].is_active,
        v.companies[authority].employee_count == MAX_EMPLOYEES_PER_COMPANY,
    ensures
        add_employee_outcome(
            v,
            authority,
            employee_wallet,
            encrypted_salary,
            salary_commitment,
            payment_frequency,
            now,
        ) == Err::<LedgerView, GhostPayrollError>(GhostPayrollError::MaxEmployeesReached),
{
}

/// Adding an employee, removing it, then adding the same wallet again:
/// the removal always succeeds and restores the employee count exactly,
/// but the third step collides with the soft-deleted record and fails as a
/// duplicate — there is no hard-delete path that would free the address.
pub proof fn lemma_add_remove_add_collides(
    v: LedgerView,
    authority: u64,
    employee_wallet: u64,
    encrypted_salary: Vec<u8>,
    salary_commitment: [u8; 32],
    payment_frequency: PaymentFrequency,
    now: i64,
    second_encrypted_salary: Vec<u8>,
    second_salary_commitment: [u8; 32],
    second_payment_frequency: PaymentFrequency,
    second_now: i64,
)
    ensures
        match add_employee_outcome(
            v,
            authority,
            employee_wallet,
            encrypted_salary,
            salary_commitment,
            payment_frequency,
            now,
        ) {
            Ok(v1) => match remove_employee_outcome(v1, authority, employee_wallet) {
                Ok(v2) => {
                    &&& v2.companies[authority].employee_count == v.companies[
                        authority
                    ].employee_count
                    &&& add_employee_outcome(
                        v2,
                        authority,
                        employee_wallet,
                        second_encrypted_salary,
                        second_salary_commitment,
                        second_payment_frequency,
                        second_now,
                    ) == Err::<LedgerView, GhostPayrollError>(
                        GhostPayrollError::EmployeeAlreadyExists,
                    )
                },
                Err(_) => false,
            },
            Err(_) => true,
        },
{
}

/// Payment processing never succeeds on an amount below the minimum, never
/// succeeds when the treasury cannot cover the amount, and on success moves
/// the amount and advances the employee's received-payments counter by
/// exactly one. (On failure the operation's own contract already says the
/// ledger and both accounts are left untouched.)
pub proof fn lemma_process_payment_guards(
    v: LedgerView,
    treasury: TokenAccount,
    employee_token_account: TokenAccount,
    authority: u64,
    employee_wallet: u64,
    amount: u64,
    now: i64,
)
    ensures
        amount < MIN_SALARY_AMOUNT ==> process_payment_outcome(
            v,
            treasury,
            employee_token_account,
            authority,
            employee_wallet,
            amount,
            now,
        ) is Err,
        treasury.amount < amount ==> process_payment_outcome(
            v,
            treasury,
            employee_token_account,
            authority,
            employee_wallet,
            amount,
            now,
        ) is Err,
        match process_payment_outcome(
            v,
            treasury,
            employee_token_account,
            authority,
            employee_wallet,
            amount,
            now,
        ) {
            Ok((v2, t2, d2)) => {
                &&& v2.employees[(authority, employee_wallet)].total_payments_received
                    == v.employees[(authority, employee_wallet)].total_payments_received + 1
                &&& v2.companies[authority].total_payments_made == v.companies[
                    authority
                ].total_payments_made + 1
                &&& t2.amount == treasury.amount - amount
                &&& d2.amount == employee_token_account.amount + amount
            },
            Err(_) => true,
        },
{
}

/// Recording a payment proof with a fresh payment id creates exactly one
/// immutable record under that id, and recording under the same company,
/// wallet and id again always fails as already processed, whatever the
/// second call's other inputs.
pub proof fn lemma_payment_proof_append_only(
    v: LedgerView,
    authority: u64,
    employee_wallet: u64,
    payment_id: u64,
    amount_commitment: [u8; 32],
    zk_proof: Vec<u8>,
    shadowwire_tx_signature: Vec<u8>,
    now: i64,
    second_amount_commitment: [u8; 32],
    second_zk_proof: Vec<u8>,
    second_shadowwire_tx_signature: Vec<u8>,
    second_now: i64,
)
    ensures
        match record_payment_proof_outcome(
            v,
            authority,
            employee_wallet,
            payment_id,
            amount_commitment,
            zk_proof,
            shadowwire_tx_signature,
            now,
        ) {
            Ok(v1) => {
                &&& v1.proofs == v.proofs.insert(
                    (authority, employee_wallet, payment_id),
                    proof_created(
                        authority,
                        employee_wallet,
                        payment_id,
                        amount_commitment,
                        zk_proof,
                        shadowwire_tx_signature,
                        now,
                    ),
                )
                &&& record_payment_proof_outcome(
                    v1,
                    authority,
                    employee_wallet,
                    payment_id,
                    second_amount_commitment,
                    second_zk_proof,
                    second_shadowwire_tx_signature,
                    second_now,
                ) == Err::<LedgerView, GhostPayrollError>(GhostPayrollError::PaymentAlreadyProcessed)
            },
            Err(_) => true,
        },
{
}

} // verus!
