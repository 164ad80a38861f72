//! Payment processing and payment-proof recording: the treasury transfer,
//! its guards, and the append-only audit trail.

use ghost_payroll::constants::{SECONDS_PER_BIWEEK, SECONDS_PER_MONTH, SECONDS_PER_WEEK};
use ghost_payroll::errors::GhostPayrollError;
use ghost_payroll::ledger::PayrollLedger;
use ghost_payroll::state::{PaymentFrequency, PaymentStatus, TokenAccount};

const AUTH: u64 = 21;
const MINT: u64 = 901;
const WALLET: u64 = 87;
const NOW: i64 = 1_700_000_000;
const PAY_TIME: i64 = 1_700_100_000;

fn ledger_with_employee() -> PayrollLedger {
    let mut l = PayrollLedger::new();
    let r = l.initialize_company(
        AUTH,
        b"Acme".to_vec(),
        [0xA1; 32],
        PaymentFrequency::Weekly,
        MINT,
        NOW,
    );
    assert!(r.is_ok());
    let r = l.add_employee(AUTH, WALLET, vec![0x5A; 32], [0xB2; 32], PaymentFrequency::Monthly, NOW);
    assert!(r.is_ok());
    l
}

fn treasury(amount: u64) -> TokenAccount {
    TokenAccount { owner: AUTH, mint: MINT, amount }
}

fn employee_account(amount: u64) -> TokenAccount {
    TokenAccount { owner: WALLET, mint: MINT, amount }
}

#[test]
fn process_payment_moves_amount_and_advances_counters() {
    let mut l = ledger_with_employee();
    let mut t = treasury(5_000_000);
    let mut d = employee_account(0);
    let r = l.process_payment(&mut t, &mut d, AUTH, WALLET, 2_000_000, [0xC4; 32], PAY_TIME);
    assert!(r.is_ok());
    assert_eq!(t.amount, 3_000_000);
    assert_eq!(d.amount, 2_000_000);
    let e = l.get_employee(AUTH, WALLET).unwrap();
    assert_eq!(e.total_payments_received, 1);
    assert_eq!(e.last_payment_date, PAY_TIME);
    let c = l.get_company(AUTH).unwrap();
    assert_eq!(c.total_payments_made, 1);
    assert_eq!(c.last_payment_timestamp, PAY_TIME);
    // The next due date follows the employee's own cadence, not the
    // company default.
    assert_eq!(c.next_payment_due, PAY_TIME + SECONDS_PER_MONTH);
}

#[test]
fn process_payment_rejects_amount_below_minimum() {
    let mut l = ledger_with_employee();
    let mut t = treasury(5_000_000);
    let mut d = employee_account(0);
    let r = l.process_payment(&mut t, &mut d, AUTH, WALLET, 500_000, [0xC4; 32], PAY_TIME);
    assert_eq!(r, Err(GhostPayrollError::InvalidSalaryAmount));
    // Nothing moved, nothing counted.
    assert_eq!(t.amount, 5_000_000);
    assert_eq!(d.amount, 0);
    assert_eq!(l.get_employee(AUTH, WALLET).unwrap().total_payments_received, 0);
    assert_eq!(l.get_company(AUTH).unwrap().total_payments_made, 0);
}

#[test]
fn process_payment_rejects_insufficient_treasury() {
    let mut l = ledger_with_employee();
    let mut t = treasury(1_500_000);
    let mut d = employee_account(0);
    let r = l.process_payment(&mut t, &mut d, AUTH, WALLET, 2_000_000, [0xC4; 32], PAY_TIME);
    assert_eq!(r, Err(GhostPayrollError::InsufficientCompanyBalance));
    assert_eq!(t.amount, 1_500_000);
    assert_eq!(d.amount, 0);
    assert_eq!(l.get_employee(AUTH, WALLET).unwrap().total_payments_received, 0);
}

#[test]
fn process_payment_rejects_wrong_treasury() {
    let mut l = ledger_with_employee();
    let mut d = employee_account(0);
    let mut wrong_mint = TokenAccount { owner: AUTH, mint: MINT + 1, amount: 5_000_000 };
    let r = l.process_payment(&mut wrong_mint, &mut d, AUTH, WALLET, 2_000_000, [0; 32], PAY_TIME);
    assert_eq!(r, Err(GhostPayrollError::InvalidTokenMint));
    let mut wrong_owner = TokenAccount { owner: AUTH + 1, mint: MINT, amount: 5_000_000 };
    let r = l.process_payment(&mut wrong_owner, &mut d, AUTH, WALLET, 2_000_000, [0; 32], PAY_TIME);
    assert_eq!(r, Err(GhostPayrollError::InvalidTokenMint));
    assert_eq!(d.amount, 0);
}

#[test]
fn process_payment_rejects_wrong_receiving_account() {
    let mut l = ledger_with_employee();
    let mut t = treasury(5_000_000);
    let mut wrong_owner = TokenAccount { owner: WALLET + 1, mint: MINT, amount: 0 };
    let r = l.process_payment(&mut t, &mut wrong_owner, AUTH, WALLET, 2_000_000, [0; 32], PAY_TIME);
    assert_eq!(r, Err(GhostPayrollError::InvalidTokenMint));
    let mut wrong_mint = TokenAccount { owner: WALLET, mint: MINT + 1, amount: 0 };
    let r = l.process_payment(&mut t, &mut wrong_mint, AUTH, WALLET, 2_000_000, [0; 32], PAY_TIME);
    assert_eq!(r, Err(GhostPayrollError::InvalidTokenMint));
    assert_eq!(t.amount, 5_000_000);
}

#[test]
fn process_payment_requires_active_employee() {
    let mut l = ledger_with_employee();
    assert!(l.remove_employee(AUTH, WALLET).is_ok());
    let mut t = treasury(5_000_000);
    let mut d = employee_account(0);
    let r = l.process_payment(&mut t, &mut d, AUTH, WALLET, 2_000_000, [0; 32], PAY_TIME);
    assert_eq!(r, Err(GhostPayrollError::EmployeeInactive));
    assert_eq!(t.amount, 5_000_000);
}

#[test]
fn process_payment_requires_employee_record() {
    let mut l = ledger_with_employee();
    let mut t = treasury(5_000_000);
    let mut d = TokenAccount { owner: WALLET + 1, mint: MINT, amount: 0 };
    let r = l.process_payment(&mut t, &mut d, AUTH, WALLET + 1, 2_000_000, [0; 32], PAY_TIME);
    assert_eq!(r, Err(GhostPayrollError::EmployeeNotFound));
}

#[test]
fn process_payment_rejects_receiving_overflow() {
    let mut l = ledger_with_employee();
    let mut t = treasury(5_000_000);
    let mut d = employee_account(u64::MAX);
    let r = l.process_payment(&mut t, &mut d, AUTH, WALLET, 2_000_000, [0; 32], PAY_TIME);
    assert_eq!(r, Err(GhostPayrollError::ArithmeticOverflow));
    assert_eq!(t.amount, 5_000_000);
    assert_eq!(d.amount, u64::MAX);
    assert_eq!(l.get_employee(AUTH, WALLET).unwrap().total_payments_received, 0);
}

#[test]
fn repeated_payments_accumulate() {
    let mut l = ledger_with_employee();
    let mut t = treasury(10_000_000);
    let mut d = employee_account(0);
    for k in 0..3_i64 {
        let r = l.process_payment(&mut t, &mut d, AUTH, WALLET, 2_000_000, [0; 32], PAY_TIME + k);
        assert!(r.is_ok());
    }
    assert_eq!(t.amount, 4_000_000);
    assert_eq!(d.amount, 6_000_000);
    assert_eq!(l.get_employee(AUTH, WALLET).unwrap().total_payments_received, 3);
    assert_eq!(l.get_company(AUTH).unwrap().total_payments_made, 3);
}

#[test]
fn record_proof_creates_completed_record() {
    let mut l = ledger_with_employee();
    let r = l.record_payment_proof(
        AUTH,
        WALLET,
        7,
        [0xD5; 32],
        vec![0xE6; 64],
        b"shadowwire-reference".to_vec(),
        PAY_TIME,
    );
    assert!(r.is_ok());
    let p = l.get_payment_proof(AUTH, WALLET, 7).expect("proof should exist");
    assert_eq!(p.payment_id, 7);
    assert_eq!(p.employee, WALLET);
    assert_eq!(p.company, AUTH);
    assert_eq!(p.payment_date, PAY_TIME);
    assert_eq!(p.amount_commitment, [0xD5; 32]);
    assert_eq!(p.zk_proof, vec![0xE6; 64]);
    assert_eq!(p.shadowwire_tx_signature, b"shadowwire-reference".to_vec());
    assert_eq!(p.status, PaymentStatus::Completed);
}

#[test]
fn record_proof_rejects_reused_payment_id() {
    let mut l = ledger_with_employee();
    let r = l.record_payment_proof(AUTH, WALLET, 7, [1; 32], vec![1], b"first".to_vec(), PAY_TIME);
    assert!(r.is_ok());
    let r = l.record_payment_proof(
        AUTH,
        WALLET,
        7,
        [2; 32],
        vec![2],
        b"second".to_vec(),
        PAY_TIME + 1,
    );
    assert_eq!(r, Err(GhostPayrollError::PaymentAlreadyProcessed));
    // Exactly one record with this id exists, the first one, unchanged.
    let p = l.get_payment_proof(AUTH, WALLET, 7).unwrap();
    assert_eq!(p.amount_commitment, [1; 32]);
    assert_eq!(p.shadowwire_tx_signature, b"first".to_vec());
    assert_eq!(p.payment_date, PAY_TIME);
}

#[test]
fn record_proof_distinct_ids_coexist() {
    let mut l = ledger_with_employee();
    assert!(l.record_payment_proof(AUTH, WALLET, 1, [1; 32], vec![1], vec![], PAY_TIME).is_ok());
    assert!(l.record_payment_proof(AUTH, WALLET, 2, [2; 32], vec![2], vec![], PAY_TIME).is_ok());
    assert_eq!(l.get_payment_proof(AUTH, WALLET, 1).unwrap().amount_commitment, [1; 32]);
    assert_eq!(l.get_payment_proof(AUTH, WALLET, 2).unwrap().amount_commitment, [2; 32]);
    assert!(l.get_payment_proof(AUTH, WALLET, 3).is_none());
}

#[test]
fn record_proof_rejects_oversize_blobs() {
    let mut l = ledger_with_employee();
    let r = l.record_payment_proof(AUTH, WALLET, 7, [0; 32], vec![1; 513], vec![], PAY_TIME);
    assert_eq!(r, Err(GhostPayrollError::InvalidPaymentProof));
    let r = l.record_payment_proof(AUTH, WALLET, 7, [0; 32], vec![1; 512], vec![2; 89], PAY_TIME);
    assert_eq!(r, Err(GhostPayrollError::InvalidPaymentProof));
    // At the bounds both blobs are accepted.
    let r = l.record_payment_proof(AUTH, WALLET, 7, [0; 32], vec![1; 512], vec![2; 88], PAY_TIME);
    assert!(r.is_ok());
}

#[test]
fn record_proof_requires_employee_record() {
    let mut l = ledger_with_employee();
    let r = l.record_payment_proof(AUTH, WALLET + 1, 7, [0; 32], vec![1], vec![], PAY_TIME);
    assert_eq!(r, Err(GhostPayrollError::EmployeeNotFound));
}

#[test]
fn record_proof_allows_inactive_employee() {
    // Removal soft-deletes; the audit trail still accepts proofs for the
    // retained record.
    let mut l = ledger_with_employee();
    assert!(l.remove_employee(AUTH, WALLET).is_ok());
    let r = l.record_payment_proof(AUTH, WALLET, 7, [0; 32], vec![1], vec![], PAY_TIME);
    assert!(r.is_ok());
}

#[test]
fn record_proof_requires_company() {
    let mut l = PayrollLedger::new();
    let r = l.record_payment_proof(AUTH, WALLET, 7, [0; 32], vec![1], vec![], PAY_TIME);
    assert_eq!(r, Err(GhostPayrollError::CompanyNotFound));
}

#[test]
fn frequency_intervals_are_fixed() {
    assert_eq!(PaymentFrequency::Weekly.seconds_to_next_payment(), SECONDS_PER_WEEK);
    assert_eq!(PaymentFrequency::Biweekly.seconds_to_next_payment(), SECONDS_PER_BIWEEK);
    assert_eq!(PaymentFrequency::Monthly.seconds_to_next_payment(), SECONDS_PER_MONTH);
    assert_eq!(PaymentFrequency::Weekly.seconds_to_next_payment(), 604_800);
    assert_eq!(PaymentFrequency::Biweekly.seconds_to_next_payment(), 1_209_600);
    assert_eq!(PaymentFrequency::Monthly.seconds_to_next_payment(), 2_592_000);
}
