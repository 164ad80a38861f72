//! Company creation and roster management: creating companies, adding,
//! updating and removing employees, and the bounds on the employee count.

use ghost_payroll::constants::{MAX_EMPLOYEES_PER_COMPANY, SECONDS_PER_WEEK};
use ghost_payroll::errors::GhostPayrollError;
use ghost_payroll::ledger::PayrollLedger;
use ghost_payroll::state::PaymentFrequency;

const AUTH: u64 = 11;
const MINT: u64 = 900;
const WALLET: u64 = 77;
const NOW: i64 = 1_700_000_000;

fn ledger_with_company() -> PayrollLedger {
    let mut l = PayrollLedger::new();
    let r = l.initialize_company(
        AUTH,
        b"Acme".to_vec(),
        [0xA1; 32],
        PaymentFrequency::Weekly,
        MINT,
        NOW,
    );
    assert!(r.is_ok());
    l
}

#[test]
fn create_company_sets_initial_fields() {
    let l = ledger_with_company();
    let c = l.get_company(AUTH).expect("company should exist");
    assert_eq!(c.authority, AUTH);
    assert_eq!(c.name, b"Acme".to_vec());
    assert_eq!(c.employee_count, 0);
    assert_eq!(c.budget_commitment, [0xA1; 32]);
    assert_eq!(c.payment_token, MINT);
    assert_eq!(c.payment_frequency, PaymentFrequency::Weekly);
    assert_eq!(c.last_payment_timestamp, NOW);
    assert_eq!(c.next_payment_due, NOW + SECONDS_PER_WEEK);
    assert_eq!(c.next_payment_due, NOW + 604_800);
    assert_eq!(c.total_payments_made, 0);
    assert!(c.is_active);
}

#[test]
fn create_company_rejects_empty_name() {
    let mut l = PayrollLedger::new();
    let r = l.initialize_company(AUTH, Vec::new(), [0; 32], PaymentFrequency::Weekly, MINT, NOW);
    assert_eq!(r, Err(GhostPayrollError::CompanyNameTooLong));
    assert!(l.get_company(AUTH).is_none());
}

#[test]
fn create_company_rejects_overlong_name() {
    let mut l = PayrollLedger::new();
    let r = l.initialize_company(AUTH, vec![b'x'; 51], [0; 32], PaymentFrequency::Weekly, MINT, NOW);
    assert_eq!(r, Err(GhostPayrollError::CompanyNameTooLong));
    let r = l.initialize_company(AUTH, vec![b'x'; 50], [0; 32], PaymentFrequency::Weekly, MINT, NOW);
    assert!(r.is_ok());
}

#[test]
fn create_company_rejects_second_company_for_same_authority() {
    let mut l = ledger_with_company();
    let r = l.initialize_company(
        AUTH,
        b"Other".to_vec(),
        [7; 32],
        PaymentFrequency::Monthly,
        MINT,
        NOW + 5,
    );
    assert_eq!(r, Err(GhostPayrollError::CompanyAlreadyExists));
    // The stored company is untouched.
    let c = l.get_company(AUTH).expect("company should exist");
    assert_eq!(c.name, b"Acme".to_vec());
    assert_eq!(c.payment_frequency, PaymentFrequency::Weekly);
}

#[test]
fn add_employee_sets_initial_fields() {
    let mut l = ledger_with_company();
    let blob = vec![0x5A; 32];
    let r = l.add_employee(AUTH, WALLET, blob.clone(), [0xB2; 32], PaymentFrequency::Monthly, NOW + 10);
    assert!(r.is_ok());
    let e = l.get_employee(AUTH, WALLET).expect("employee should exist");
    assert_eq!(e.wallet, WALLET);
    assert_eq!(e.company, AUTH);
    assert_eq!(e.encrypted_salary, blob);
    assert_eq!(e.salary_commitment, [0xB2; 32]);
    assert_eq!(e.payment_frequency, PaymentFrequency::Monthly);
    assert_eq!(e.join_date, NOW + 10);
    assert_eq!(e.last_payment_date, NOW + 10);
    assert_eq!(e.total_payments_received, 0);
    assert!(e.is_active);
    assert_eq!(l.get_company(AUTH).unwrap().employee_count, 1);
}

#[test]
fn add_employee_requires_company() {
    let mut l = PayrollLedger::new();
    let r = l.add_employee(AUTH, WALLET, vec![1], [0; 32], PaymentFrequency::Weekly, NOW);
    assert_eq!(r, Err(GhostPayrollError::CompanyNotFound));
}

#[test]
fn add_employee_rejects_duplicate_wallet() {
    let mut l = ledger_with_company();
    assert!(l.add_employee(AUTH, WALLET, vec![1], [0; 32], PaymentFrequency::Weekly, NOW).is_ok());
    let r = l.add_employee(AUTH, WALLET, vec![2], [1; 32], PaymentFrequency::Monthly, NOW + 1);
    assert_eq!(r, Err(GhostPayrollError::EmployeeAlreadyExists));
    assert_eq!(l.get_company(AUTH).unwrap().employee_count, 1);
}

#[test]
fn add_employee_rejects_empty_salary_blob() {
    let mut l = ledger_with_company();
    let r = l.add_employee(AUTH, WALLET, Vec::new(), [0; 32], PaymentFrequency::Weekly, NOW);
    assert_eq!(r, Err(GhostPayrollError::InvalidEncryptedSalary));
}

#[test]
fn add_employee_rejects_oversize_salary_blob() {
    let mut l = ledger_with_company();
    let r = l.add_employee(AUTH, WALLET, vec![9; 257], [0; 32], PaymentFrequency::Weekly, NOW);
    assert_eq!(r, Err(GhostPayrollError::InvalidEncryptedSalary));
    let r = l.add_employee(AUTH, WALLET, vec![9; 256], [0; 32], PaymentFrequency::Weekly, NOW);
    assert!(r.is_ok());
}

#[test]
fn remove_employee_soft_deletes_and_decrements() {
    let mut l = ledger_with_company();
    assert!(l.add_employee(AUTH, WALLET, vec![1], [0; 32], PaymentFrequency::Weekly, NOW).is_ok());
    assert_eq!(l.get_company(AUTH).unwrap().employee_count, 1);
    assert!(l.remove_employee(AUTH, WALLET).is_ok());
    // The record is retained, marked inactive; the count goes back down.
    let e = l.get_employee(AUTH, WALLET).expect("record should be retained");
    assert!(!e.is_active);
    assert_eq!(l.get_company(AUTH).unwrap().employee_count, 0);
}

#[test]
fn remove_employee_requires_record() {
    let mut l = ledger_with_company();
    let r = l.remove_employee(AUTH, WALLET);
    assert_eq!(r, Err(GhostPayrollError::EmployeeNotFound));
}

#[test]
fn remove_employee_twice_underflows_checked() {
    let mut l = ledger_with_company();
    assert!(l.add_employee(AUTH, WALLET, vec![1], [0; 32], PaymentFrequency::Weekly, NOW).is_ok());
    assert!(l.remove_employee(AUTH, WALLET).is_ok());
    // The soft-deleted record still resolves, but the count is zero: the
    // checked decrement fails instead of wrapping.
    let r = l.remove_employee(AUTH, WALLET);
    assert_eq!(r, Err(GhostPayrollError::ArithmeticUnderflow));
    assert_eq!(l.get_company(AUTH).unwrap().employee_count, 0);
}

#[test]
fn add_remove_add_same_wallet_collides() {
    let mut l = ledger_with_company();
    assert!(l.add_employee(AUTH, WALLET, vec![1], [0; 32], PaymentFrequency::Weekly, NOW).is_ok());
    assert!(l.remove_employee(AUTH, WALLET).is_ok());
    // The count is restored, but the address is still occupied by the
    // soft-deleted record: the second add collides.
    assert_eq!(l.get_company(AUTH).unwrap().employee_count, 0);
    let r = l.add_employee(AUTH, WALLET, vec![2], [1; 32], PaymentFrequency::Monthly, NOW + 9);
    assert_eq!(r, Err(GhostPayrollError::EmployeeAlreadyExists));
}

#[test]
fn full_roster_rejects_one_more_add() {
    let mut l = ledger_with_company();
    for w in 0..u64::from(MAX_EMPLOYEES_PER_COMPANY) {
        let r = l.add_employee(AUTH, 1000 + w, vec![1], [0; 32], PaymentFrequency::Weekly, NOW);
        assert!(r.is_ok());
    }
    assert_eq!(l.get_company(AUTH).unwrap().employee_count, MAX_EMPLOYEES_PER_COMPANY);
    let r = l.add_employee(AUTH, 99, vec![1], [0; 32], PaymentFrequency::Weekly, NOW);
    assert_eq!(r, Err(GhostPayrollError::MaxEmployeesReached));
    assert_eq!(l.get_company(AUTH).unwrap().employee_count, MAX_EMPLOYEES_PER_COMPANY);
}

#[test]
fn update_salary_replaces_both_fields() {
    let mut l = ledger_with_company();
    assert!(l.add_employee(AUTH, WALLET, vec![1], [0; 32], PaymentFrequency::Weekly, NOW).is_ok());
    let r = l.update_employee_salary(AUTH, WALLET, vec![8, 8, 8], [0xC3; 32]);
    assert!(r.is_ok());
    let e = l.get_employee(AUTH, WALLET).unwrap();
    assert_eq!(e.encrypted_salary, vec![8, 8, 8]);
    assert_eq!(e.salary_commitment, [0xC3; 32]);
    // Everything else is untouched.
    assert_eq!(e.join_date, NOW);
    assert!(e.is_active);
}

#[test]
fn update_salary_requires_active_employee() {
    let mut l = ledger_with_company();
    assert!(l.add_employee(AUTH, WALLET, vec![1], [0; 32], PaymentFrequency::Weekly, NOW).is_ok());
    assert!(l.remove_employee(AUTH, WALLET).is_ok());
    let r = l.update_employee_salary(AUTH, WALLET, vec![2], [1; 32]);
    assert_eq!(r, Err(GhostPayrollError::EmployeeInactive));
}

#[test]
fn update_salary_requires_record() {
    let mut l = ledger_with_company();
    let r = l.update_employee_salary(AUTH, WALLET, vec![2], [1; 32]);
    assert_eq!(r, Err(GhostPayrollError::EmployeeNotFound));
}

#[test]
fn update_salary_rejects_invalid_blob() {
    let mut l = ledger_with_company();
    assert!(l.add_employee(AUTH, WALLET, vec![1], [0; 32], PaymentFrequency::Weekly, NOW).is_ok());
    let r = l.update_employee_salary(AUTH, WALLET, Vec::new(), [1; 32]);
    assert_eq!(r, Err(GhostPayrollError::InvalidEncryptedSalary));
    let r = l.update_employee_salary(AUTH, WALLET, vec![2; 257], [1; 32]);
    assert_eq!(r, Err(GhostPayrollError::InvalidEncryptedSalary));
    // The stored blob is unchanged.
    assert_eq!(l.get_employee(AUTH, WALLET).unwrap().encrypted_salary, vec![1]);
}

#[test]
fn companies_are_independent() {
    let mut l = ledger_with_company();
    let other_auth = AUTH + 1;
    let r = l.initialize_company(
        other_auth,
        b"Borg".to_vec(),
        [9; 32],
        PaymentFrequency::Biweekly,
        MINT,
        NOW,
    );
    assert!(r.is_ok());
    assert!(l.add_employee(AUTH, WALLET, vec![1], [0; 32], PaymentFrequency::Weekly, NOW).is_ok());
    // The same wallet may hold an employee record under another company.
    assert!(
        l.add_employee(other_auth, WALLET, vec![2], [1; 32], PaymentFrequency::Weekly, NOW).is_ok()
    );
    assert_eq!(l.get_company(AUTH).unwrap().employee_count, 1);
    assert_eq!(l.get_company(other_auth).unwrap().employee_count, 1);
    assert!(l.remove_employee(other_auth, WALLET).is_ok());
    assert_eq!(l.get_company(AUTH).unwrap().employee_count, 1);
    assert!(l.get_employee(AUTH, WALLET).unwrap().is_active);
}
