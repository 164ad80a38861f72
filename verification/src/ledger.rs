//! The executable payroll ledger and its six operations.
//!
//! Records are held in keyed vectors (the deterministic-addressing store of
//! `store`); the ledger's view is the map-shaped `LedgerView`, and every
//! operation's contract states that it agrees, result and state both, with
//! the corresponding transition function of `transitions` — or, on an
//! error, that the ledger is left exactly as it was.

use vstd::prelude::*;
use crate::constants::{
    ENCRYPTED_SALARY_MAX_SIZE, MAX_COMPANY_NAME_LENGTH, MAX_EMPLOYEES_PER_COMPANY,
    MAX_SCHEDULABLE_TIMESTAMP, MIN_SALARY_AMOUNT, TX_SIGNATURE_LENGTH, ZK_PROOF_MAX_SIZE,
};
use crate::errors::GhostPayrollError;
use crate::state::{Company, Employee, PaymentFrequency, PaymentProof, PaymentStatus, TokenAccount};
use crate::store::{
    assoc_map, keys_unique, lemma_assoc_at, lemma_assoc_contains, lemma_assoc_push,
    lemma_assoc_update, lemma_remove_insert_is_update,
};
use crate::transitions::{
    add_employee_outcome, company_paid, company_with_count, employee_deactivated, employee_paid,
    employee_with_salary, initialize_company_outcome, process_payment_outcome,
    record_payment_proof_outcome, remove_employee_outcome, update_employee_salary_outcome,
};
use crate::view::{company_key, employee_key, proof_key, LedgerView};

verus! {

/// The authoritative payroll state: every company, employee and payment
/// proof, each under its deterministic address.
pub struct PayrollLedger {
    companies: Vec<Company>,
    employees: Vec<Employee>,
    proofs: Vec<PaymentProof>,
}

impl View for PayrollLedger {
    type V = LedgerView;

    closed spec fn view(&self) -> LedgerView {
        LedgerView {
            companies: assoc_map(self.companies@, company_key()),
            employees: assoc_map(self.employees@, employee_key()),
            proofs: assoc_map(self.proofs@, proof_key()),
        }
    }
}

impl PayrollLedger {
    /// The store invariant: in each store the keys are pairwise distinct
    /// (same identifying tuple, same slot) and every record satisfies its
    /// field bounds. Constructors establish it and every operation
    /// preserves it.
    pub closed spec fn wf(self) -> bool {
        &&& keys_unique(self.companies@, company_key())
        &&& keys_unique(self.employees@, employee_key())
        &&& keys_unique(self.proofs@, proof_key())
        &&& forall|i: int|
            0 <= i < self.companies@.len() ==> (#[trigger] self.companies@[i]).wf()
        &&& forall|i: int|
            0 <= i < self.employees@.len() ==> (#[trigger] self.employees@[i]).wf()
        &&& forall|i: int| 0 <= i < self.proofs@.len() ==> (#[trigger] self.proofs@[i]).wf()
    }

    /// A well-formed ledger's view satisfies the record invariant of
    /// `LedgerView`, so the laws proved over views apply to it.
    pub proof fn lemma_wf_view_inv(&self)
        requires
            self.wf(),
        ensures
            self@.inv(),
    {
        assert forall|a: u64| #[trigger]
            self@.companies.contains_key(a) implies self@.companies[a].authority == a
            && self@.companies[a].wf() by {
            lemma_assoc_contains(self.companies@, company_key(), a);
            let i = choose|i: int|
                0 <= i < self.companies@.len() && company_key()(self.companies@[i]) == a;
            lemma_assoc_at(self.companies@, company_key(), i);
        }
        assert forall|k: (u64, u64)| #[trigger]
            self@.employees.contains_key(k) implies self@.employees[k].company == k.0
            && self@.employees[k].wallet == k.1 && self@.employees[k].wf() by {
            lemma_assoc_contains(self.employees@, employee_key(), k);
            let i = choose|i: int|
                0 <= i < self.employees@.len() && employee_key()(self.employees@[i]) == k;
            lemma_assoc_at(self.employees@, employee_key(), i);
        }
        assert forall|k: (u64, u64, u64)| #[trigger]
            self@.proofs.contains_key(k) implies self@.proofs[k].company == k.0
            && self@.proofs[k].employee == k.1 && self@.proofs[k].payment_id == k.2
            && self@.proofs[k].wf() by {
            lemma_assoc_contains(self.proofs@, proof_key(), k);
            let i = choose|i: int|
                0 <= i < self.proofs@.len() && proof_key()(self.proofs@[i]) == k;
            lemma_assoc_at(self.proofs@, proof_key(), i);
        }
    }

    /// An empty ledger: no companies, no employees, no proofs.
    pub fn new() -> (r: PayrollLedger)
        ensures
            r.wf(),
            r@ == LedgerView::empty(),
    {
        let r = PayrollLedger { companies: Vec::new(), employees: Vec::new(), proofs: Vec::new() };
        proof {
            assert(r@ =~= LedgerView::empty());
        }
        r
    }

    /// Index of the company stored under this authority key, if any.
    fn find_company(&self, authority: u64) -> (r: Option<usize>)
        requires
            self.wf(),
        ensures
            match r {
                Some(i) => i < self.companies@.len() && self.companies@[i as int].authority
                    == authority && self@.companies.contains_key(authority)
                    && self@.companies[authority] == self.companies@[i as int],
                None => (forall|j: int|
                    0 <= j < self.companies@.len() ==> (#[trigger] self.companies@[j]).authority
                        != authority) && !self@.companies.contains_key(authority),
            },
    {
        let n = self.companies.len();
        let mut i: usize = 0;
        while i < n
            invariant
                n == self.companies@.len(),
                i <= n,
                self.wf(),
                forall|j: int|
                    0 <= j < i ==> (#[trigger] self.companies@[j]).authority != authority,
            decreases n - i,
        {
            if self.companies[i].authority == authority {
                proof {
                    lemma_assoc_at(self.companies@, company_key(), i as int);
                }
                return Some(i);
            }
            i = i + 1;
        }
        proof {
            lemma_assoc_contains(self.companies@, company_key(), authority);
        }
        None
    }

    /// Index of the employee stored under this company address and wallet,
    /// if any.
    fn find_employee(&self, company: u64, wallet: u64) -> (r: Option<usize>)
        requires
            self.wf(),
        ensures
            match r {
                Some(i) => i < self.employees@.len() && self.employees@[i as int].company == company
                    && self.employees@[i as int].wallet == wallet && self@.employees.contains_key(
                    (company, wallet),
                ) && self@.employees[(company, wallet)] == self.employees@[i as int],
                None => (forall|j: int|
                    0 <= j < self.employees@.len() ==> !((#[trigger] self.employees@[j]).company
                        == company && self.employees@[j].wallet == wallet))
                    && !self@.employees.contains_key((company, wallet)),
            },
    {
        let n = self.employees.len();
        let mut i: usize = 0;
        while i < n
            invariant
                n == self.employees@.len(),
                i <= n,
                self.wf(),
                forall|j: int|
                    0 <= j < i ==> !((#[trigger] self.employees@[j]).company == company
                        && self.employees@[j].wallet == wallet),
            decreases n - i,
        {
            if self.employees[i].company == company && self.employees[i].wallet == wallet {
                proof {
                    lemma_assoc_at(self.employees@, employee_key(), i as int);
                }
                return Some(i);
            }
            i = i + 1;
        }
        proof {
            lemma_assoc_contains(self.employees@, employee_key(), (company, wallet));
        }
        None
    }

    /// Index of the payment proof stored under this company address, wallet
    /// and payment id, if any.
    fn find_proof(&self, company: u64, wallet: u64, payment_id: u64) -> (r: Option<usize>)
        requires
            self.wf(),
        ensures
            match r {
                Some(i) => i < self.proofs@.len() && self.proofs@[i as int].company == company
                    && self.proofs@[i as int].employee == wallet && self.proofs@[
                    i as int
                ].payment_id == payment_id && self@.proofs.contains_key(
                    (company, wallet, payment_id),
                ) && self@.proofs[(company, wallet, payment_id)] == self.proofs@[i as int],
                None => (forall|j: int|
                    0 <= j < self.proofs@.len() ==> !((#[trigger] self.proofs@[j]).company == company
                        && self.proofs@[j].employee == wallet && self.proofs@[j].payment_id
                        == payment_id)) && !self@.proofs.contains_key(
                    (company, wallet, payment_id),
                ),
            },
    {
        let n = self.proofs.len();
        let mut i: usize = 0;
        while i < n
            invariant
                n == self.proofs@.len(),
                i <= n,
                self.wf(),
                forall|j: int|
                    0 <= j < i ==> !((#[trigger] self.proofs@[j]).company == company
                        && self.proofs@[j].employee == wallet && self.proofs@[j].payment_id
                        == payment_id),
            decreases n - i,
        {
            if self.proofs[i].company == company && self.proofs[i].employee == wallet
                && self.proofs[i].payment_id == payment_id {
                proof {
                    lemma_assoc_at(self.proofs@, proof_key(), i as int);
                }
                return Some(i);
            }
            i = i + 1;
        }
        proof {
            lemma_assoc_contains(self.proofs@, proof_key(), (company, wallet, payment_id));
        }
        None
    }

    /// Create a company under the invoking authority's address, with an
    /// empty roster and the first payment due one interval from now.
    pub fn initialize_company(
        &mut self,
        authority: u64,
        name: Vec<u8>,
        budget_commitment: [u8; 32],
        payment_frequency: PaymentFrequency,
        payment_token: u64,
        now: i64,
    ) -> (r: Result<(), GhostPayrollError>)
        requires
            old(self).wf(),
            now <= MAX_SCHEDULABLE_TIMESTAMP,
        ensures
            final(self).wf(),
            ({
                let o = initialize_company_outcome(
                    old(self)@,
                    authority,
                    name,
                    budget_commitment,
                    payment_frequency,
                    payment_token,
                    now,
                );
                match o {
                    Ok(v2) => r == Ok::<(), GhostPayrollError>(()) && final(self)@ == v2,
                    Err(e) => r == Err::<(), GhostPayrollError>(e) && final(self)@ == old(self)@,
                }
            }),
    {
        if self.find_company(authority).is_some() {
            return Err(GhostPayrollError::CompanyAlreadyExists);
        }
        if name.len() == 0 || name.len() > MAX_COMPANY_NAME_LENGTH {
            return Err(GhostPayrollError::CompanyNameTooLong);
        }
        let interval = payment_frequency.seconds_to_next_payment();
        let c = Company {
            authority,
            name,
            employee_count: 0,
            budget_commitment,
            payment_token,
            payment_frequency,
            last_payment_timestamp: now,
            next_payment_due: now + interval,
            total_payments_made: 0,
            is_active: true,
        };
        let ghost s0 = self.companies@;
        self.companies.push(c);
        proof {
            lemma_assoc_push(s0, company_key(), c);
            assert forall|i: int, j: int|
                0 <= i < self.companies@.len() && 0 <= j < self.companies@.len() && i
                    != j implies company_key()(self.companies@[i]) != company_key()(
                self.companies@[j],
            ) by {
                assert(forall|m: int| 0 <= m < s0.len() ==> self.companies@[m] == s0[m]);
            }
        }
        Ok(())
    }

    /// Add an employee to the invoking authority's company, with the clock
    /// reading `now` as join date and last payment date, and count it on
    /// the roster.
    pub fn add_employee(
        &mut self,
        authority: u64,
        employee_wallet: u64,
        encrypted_salary: Vec<u8>,
        salary_commitment: [u8; 32],
        payment_frequency: PaymentFrequency,
        now: i64,
    ) -> (r: Result<(), GhostPayrollError>)
        requires
            old(self).wf(),
        ensures
            final(self).wf(),
            ({
                let o = add_employee_outcome(
                    old(self)@,
                    authority,
                    employee_wallet,
                    encrypted_salary,
                    salary_commitment,
                    payment_frequency,
                    now,
                );
                match o {
                    Ok(v2) => r == Ok::<(), GhostPayrollError>(()) && final(self)@ == v2,
                    Err(e) => r == Err::<(), GhostPayrollError>(e) && final(self)@ == old(self)@,
                }
            }),
    {
        let ci = match self.find_company(authority) {
            Some(i) => i,
            None => {
                return Err(GhostPayrollError::CompanyNotFound);
            },
        };
        if self.companies[ci].authority != authority {
            return Err(GhostPayrollError::UnauthorizedAccess);
        }
        if !self.companies[ci].is_active {
            return Err(GhostPayrollError::CompanyInactive);
        }
        if self.companies[ci].employee_count >= MAX_EMPLOYEES_PER_COMPANY {
            return Err(GhostPayrollError::MaxEmployeesReached);
        }
        if self.find_employee(authority, employee_wallet).is_some() {
            return Err(GhostPayrollError::EmployeeAlreadyExists);
        }
        if encrypted_salary.len() == 0 || encrypted_salary.len() > ENCRYPTED_SALARY_MAX_SIZE {
            return Err(GhostPayrollError::InvalidEncryptedSalary);
        }
        let e = Employee {
            wallet: employee_wallet,
            company: authority,
            encrypted_salary,
            salary_commitment,
            payment_frequency,
            join_date: now,
            last_payment_date: now,
            total_payments_received: 0,
            is_active: true,
        };
        let ghost es0 = self.employees@;
        self.employees.push(e);
        proof {
            lemma_assoc_push(es0, employee_key(), e);
            assert forall|i: int, j: int|
                0 <= i < self.employees@.len() && 0 <= j < self.employees@.len() && i
                    != j implies employee_key()(self.employees@[i]) != employee_key()(
                self.employees@[j],
            ) by {
                assert(forall|m: int| 0 <= m < es0.len() ==> self.employees@[m] == es0[m]);
            }
        }
        let ghost cs0 = self.companies@;
        let mut c = self.companies.remove(ci);
        c.employee_count = c.employee_count + 1;
        self.companies.insert(ci, c);
        proof {
            lemma_remove_insert_is_update(cs0, ci as int, c);
            lemma_assoc_update(cs0, company_key(), ci as int, c);
            assert(c == company_with_count(
                old(self)@.companies[authority],
                (old(self)@.companies[authority].employee_count + 1) as u16,
            ));
            assert forall|i: int, j: int|
                0 <= i < self.companies@.len() && 0 <= j < self.companies@.len() && i
                    != j implies company_key()(self.companies@[i]) != company_key()(
                self.companies@[j],
            ) by {
                assert(self.companies@ == cs0.update(ci as int, c));
            }
        }
        Ok(())
    }

    /// Replace an active employee's encrypted salary and salary commitment
    /// in place.
    pub fn update_employee_salary(
        &mut self,
        authority: u64,
        employee_wallet: u64,
        new_encrypted_salary: Vec<u8>,
        new_salary_commitment: [u8; 32],
    ) -> (r: Result<(), GhostPayrollError>)
        requires
            old(self).wf(),
        ensures
            final(self).wf(),
            ({
                let o = update_employee_salary_outcome(
                    old(self)@,
                    authority,
                    employee_wallet,
                    new_encrypted_salary,
                    new_salary_commitment,
                );
                match o {
                    Ok(v2) => r == Ok::<(), GhostPayrollError>(()) && final(self)@ == v2,
                    Err(e) => r == Err::<(), GhostPayrollError>(e) && final(self)@ == old(self)@,
                }
            }),
    {
        let ci = match self.find_company(authority) {
            Some(i) => i,
            None => {
                return Err(GhostPayrollError::CompanyNotFound);
            },
        };
        if self.companies[ci].authority != authority {
            return Err(GhostPayrollError::UnauthorizedAccess);
        }
        if !self.companies[ci].is_active {
            return Err(GhostPayrollError::CompanyInactive);
        }
        let ei = match self.find_employee(authority, employee_wallet) {
            Some(i) => i,
            None => {
                return Err(GhostPayrollError::EmployeeNotFound);
            },
        };
        if !self.employees[ei].is_active {
            return Err(GhostPayrollError::EmployeeInactive);
        }
        if new_encrypted_salary.len() == 0 || new_encrypted_salary.len()
            > ENCRYPTED_SALARY_MAX_SIZE {
            return Err(GhostPayrollError::InvalidEncryptedSalary);
        }
        let ghost es0 = self.employees@;
        let mut e = self.employees.remove(ei);
        e.encrypted_salary = new_encrypted_salary;
        e.salary_commitment = new_salary_commitment;
        self.employees.insert(ei, e);
        proof {
            lemma_remove_insert_is_update(es0, ei as int, e);
            lemma_assoc_update(es0, employee_key(), ei as int, e);
            assert(e == employee_with_salary(
                old(self)@.employees[(authority, employee_wallet)],
                new_encrypted_salary,
                new_salary_commitment,
            ));
            assert forall|i: int, j: int|
                0 <= i < self.employees@.len() && 0 <= j < self.employees@.len() && i
                    != j implies employee_key()(self.employees@[i]) != employee_key()(
                self.employees@[j],
            ) by {
                assert(self.employees@ == es0.update(ei as int, e));
            }
        }
        Ok(())
    }

    /// Remove an employee: the record stays, marked inactive, and the
    /// roster count goes down by one, checked.
    pub fn remove_employee(&mut self, authority: u64, employee_wallet: u64) -> (r: Result<
        (),
        GhostPayrollError,
    >)
        requires
            old(self).wf(),
        ensures
            final(self).wf(),
            ({
                let o = remove_employee_outcome(old(self)@, authority, employee_wallet);
                match o {
                    Ok(v2) => r == Ok::<(), GhostPayrollError>(()) && final(self)@ == v2,
                    Err(e) => r == Err::<(), GhostPayrollError>(e) && final(self)@ == old(self)@,
                }
            }),
    {
        let ci = match self.find_company(authority) {
            Some(i) => i,
            None => {
                return Err(GhostPayrollError::CompanyNotFound);
            },
        };
        if self.companies[ci].authority != authority {
            return Err(GhostPayrollError::UnauthorizedAccess);
        }
        if !self.companies[ci].is_active {
            return Err(GhostPayrollError::CompanyInactive);
        }
        let ei = match self.find_employee(authority, employee_wallet) {
            Some(i) => i,
            None => {
                return Err(GhostPayrollError::EmployeeNotFound);
            },
        };
        if self.companies[ci].employee_count == 0 {
            return Err(GhostPayrollError::ArithmeticUnderflow);
        }
        let ghost es0 = self.employees@;
        let mut e = self.employees.remove(ei);
        e.is_active = false;
        self.employees.insert(ei, e);
        let ghost cs0 = self.companies@;
        let mut c = self.companies.remove(ci);
        c.employee_count = c.employee_count - 1;
        self.companies.insert(ci, c);
        proof {
            lemma_remove_insert_is_update(es0, ei as int, e);
            lemma_assoc_update(es0, employee_key(), ei as int, e);
            assert(e == employee_deactivated(old(self)@.employees[(authority, employee_wallet)]));
            lemma_remove_insert_is_update(cs0, ci as int, c);
            lemma_assoc_update(cs0, company_key(), ci as int, c);
            assert(c == company_with_count(
                old(self)@.companies[authority],
                (old(self)@.companies[authority].employee_count - 1) as u16,
            ));
            assert forall|i: int, j: int|
                0 <= i < self.employees@.len() && 0 <= j < self.employees@.len() && i
                    != j implies employee_key()(self.employees@[i]) != employee_key()(
                self.employees@[j],
            ) by {
                assert(self.employees@ == es0.update(ei as int, e));
            }
            assert forall|i: int, j: int|
                0 <= i < self.companies@.len() && 0 <= j < self.companies@.len() && i
                    != j implies company_key()(self.companies@[i]) != company_key()(
                self.companies@[j],
            ) by {
                assert(self.companies@ == cs0.update(ci as int, c));
            }
        }
        Ok(())
    }

    /// Move the requested amount from the company's treasury to the
    /// employee's receiving account and advance the payment bookkeeping,
    /// all of it or none of it.
    pub fn process_payment(
        &mut self,
        treasury: &mut TokenAccount,
        employee_token_account: &mut TokenAccount,
        authority: u64,
        employee_wallet: u64,
        amount: u64,
        amount_commitment: [u8; 32],
        now: i64,
    ) -> (r: Result<(), GhostPayrollError>)
        requires
            old(self).wf(),
            now <= MAX_SCHEDULABLE_TIMESTAMP,
        ensures
            final(self).wf(),
            ({
                let o = process_payment_outcome(
                    old(self)@,
                    *old(treasury),
                    *old(employee_token_account),
                    authority,
                    employee_wallet,
                    amount,
                    now,
                );
                match o {
                    Ok((v2, t2, d2)) => r == Ok::<(), GhostPayrollError>(()) && final(self)@ == v2
                        && *final(treasury) == t2 && *final(employee_token_account) == d2,
                    Err(e) => r == Err::<(), GhostPayrollError>(e) && final(self)@ == old(self)@
                        && *final(treasury) == *old(treasury) && *final(employee_token_account)
                        == *old(employee_token_account),
                }
            }),
    {
        let ci = match self.find_company(authority) {
            Some(i) => i,
            None => {
                return Err(GhostPayrollError::CompanyNotFound);
            },
        };
        if self.companies[ci].authority != authority {
            return Err(GhostPayrollError::UnauthorizedAccess);
        }
        if !self.companies[ci].is_active {
            return Err(GhostPayrollError::CompanyInactive);
        }
        let ei = match self.find_employee(authority, employee_wallet) {
            Some(i) => i,
            None => {
                return Err(GhostPayrollError::EmployeeNotFound);
            },
        };
        if !self.employees[ei].is_active {
            return Err(GhostPayrollError::EmployeeInactive);
        }
        if treasury.owner != authority || treasury.mint != self.companies[ci].payment_token {
            return Err(GhostPayrollError::InvalidTokenMint);
        }
        if employee_token_account.owner != employee_wallet || employee_token_account.mint
            != self.companies[ci].payment_token {
            return Err(GhostPayrollError::InvalidTokenMint);
        }
        if amount < MIN_SALARY_AMOUNT {
            return Err(GhostPayrollError::InvalidSalaryAmount);
        }
        if treasury.amount < amount {
            return Err(GhostPayrollError::InsufficientCompanyBalance);
        }
        if employee_token_account.amount > u64::MAX - amount {
            return Err(GhostPayrollError::ArithmeticOverflow);
        }
        if self.employees[ei].total_payments_received == u64::MAX {
            return Err(GhostPayrollError::ArithmeticOverflow);
        }
        if self.companies[ci].total_payments_made == u64::MAX {
            return Err(GhostPayrollError::ArithmeticOverflow);
        }
        treasury.amount = treasury.amount - amount;
        employee_token_account.amount = employee_token_account.amount + amount;
        let interval = self.employees[ei].payment_frequency.seconds_to_next_payment();
        let ghost es0 = self.employees@;
        let mut e = self.employees.remove(ei);
        e.last_payment_date = now;
        e.total_payments_received = e.total_payments_received + 1;
        self.employees.insert(ei, e);
        let ghost cs0 = self.companies@;
        let mut c = self.companies.remove(ci);
        c.last_payment_timestamp = now;
        c.next_payment_due = now + interval;
        c.total_payments_made = c.total_payments_made + 1;
        self.companies.insert(ci, c);
        proof {
            lemma_remove_insert_is_update(es0, ei as int, e);
            lemma_assoc_update(es0, employee_key(), ei as int, e);
            assert(e == employee_paid(old(self)@.employees[(authority, employee_wallet)], now));
            lemma_remove_insert_is_update(cs0, ci as int, c);
            lemma_assoc_update(cs0, company_key(), ci as int, c);
            assert(c == company_paid(
                old(self)@.companies[authority],
                old(self)@.employees[(authority, employee_wallet)].payment_frequency,
                now,
            ));
            assert forall|i: int, j: int|
                0 <= i < self.employees@.len() && 0 <= j < self.employees@.len() && i
                    != j implies employee_key()(self.employees@[i]) != employee_key()(
                self.employees@[j],
            ) by {
                assert(self.employees@ == es0.update(ei as int, e));
            }
            assert forall|i: int, j: int|
                0 <= i < self.companies@.len() && 0 <= j < self.companies@.len() && i
                    != j implies company_key()(self.companies@[i]) != company_key()(
                self.companies@[j],
            ) by {
                assert(self.companies@ == cs0.update(ci as int, c));
            }
        }
        Ok(())
    }

    /// Record an immutable payment proof under the payment id's
    /// deterministic address, completed at creation.
    pub fn record_payment_proof(
        &mut self,
        authority: u64,
        employee_wallet: u64,
        payment_id: u64,
        amount_commitment: [u8; 32],
        zk_proof: Vec<u8>,
        shadowwire_tx_signature: Vec<u8>,
        now: i64,
    ) -> (r: Result<(), GhostPayrollError>)
        requires
            old(self).wf(),
        ensures
            final(self).wf(),
            ({
                let o = record_payment_proof_outcome(
                    old(self)@,
                    authority,
                    employee_wallet,
                    payment_id,
                    amount_commitment,
                    zk_proof,
                    shadowwire_tx_signature,
                    now,
                );
                match o {
                    Ok(v2) => r == Ok::<(), GhostPayrollError>(()) && final(self)@ == v2,
                    Err(e) => r == Err::<(), GhostPayrollError>(e) && final(self)@ == old(self)@,
                }
            }),
    {
        let ci = match self.find_company(authority) {
            Some(i) => i,
            None => {
                return Err(GhostPayrollError::CompanyNotFound);
            },
        };
        if self.companies[ci].authority != authority {
            return Err(GhostPayrollError::UnauthorizedAccess);
        }
        if !self.companies[ci].is_active {
            return Err(GhostPayrollError::CompanyInactive);
        }
        if self.find_employee(authority, employee_wallet).is_none() {
            return Err(GhostPayrollError::EmployeeNotFound);
        }
        if self.find_proof(authority, employee_wallet, payment_id).is_some() {
            return Err(GhostPayrollError::PaymentAlreadyProcessed);
        }
        if zk_proof.len() > ZK_PROOF_MAX_SIZE {
            return Err(GhostPayrollError::InvalidPaymentProof);
        }
        if shadowwire_tx_signature.len() > TX_SIGNATURE_LENGTH {
            return Err(GhostPayrollError::InvalidPaymentProof);
        }
        let p = PaymentProof {
            payment_id,
            employee: employee_wallet,
            company: authority,
            payment_date: now,
            amount_commitment,
            zk_proof,
            shadowwire_tx_signature,
            status: PaymentStatus::Completed,
        };
        let ghost ps0 = self.proofs@;
        self.proofs.push(p);
        proof {
            lemma_assoc_push(ps0, proof_key(), p);
            assert forall|i: int, j: int|
                0 <= i < self.proofs@.len() && 0 <= j < self.proofs@.len() && i
                    != j implies proof_key()(self.proofs@[i]) != proof_key()(self.proofs@[j]) by {
                assert(forall|m: int| 0 <= m < ps0.len() ==> self.proofs@[m] == ps0[m]);
            }
        }
        Ok(())
    }

    /// The company stored under this authority key, if any.
    pub fn get_company(&self, authority: u64) -> (r: Option<&Company>)
        requires
            self.wf(),
        ensures
            match r {
                Some(c) => self@.companies.contains_key(authority) && *c == self@.companies[
                    authority
                ],
                None => !self@.companies.contains_key(authority),
            },
    {
        match self.find_company(authority) {
            Some(i) => Some(&self.companies[i]),
            None => None,
        }
    }

    /// The employee stored under this company address and wallet, if any.
    pub fn get_employee(&self, company: u64, wallet: u64) -> (r: Option<&Employee>)
        requires
            self.wf(),
        ensures
            match r {
                Some(e) => self@.employees.contains_key((company, wallet)) && *e == self@.employees[
                    (company, wallet)
                ],
                None => !self@.employees.contains_key((company, wallet)),
            },
    {
        match self.find_employee(company, wallet) {
            Some(i) => Some(&self.employees[i]),
            None => None,
        }
    }

    /// The payment proof stored under this company address, wallet and
    /// payment id, if any.
    pub fn get_payment_proof(&self, company: u64, wallet: u64, payment_id: u64) -> (r: Option<
        &PaymentProof,
    >)
        requires
            self.wf(),
        ensures
            match r {
                Some(p) => self@.proofs.contains_key((company, wallet, payment_id)) && *p
                    == self@.proofs[(company, wallet, payment_id)],
                None => !self@.proofs.contains_key((company, wallet, payment_id)),
            },
    {
        match self.find_proof(company, wallet, payment_id) {
            Some(i) => Some(&self.proofs[i]),
            None => None,
        }
    }
}

} // verus!
