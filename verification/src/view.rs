//! The mathematical view of the ledger: three finite maps, one per record
//! kind, each keyed by the record's deterministic address.

use vstd::prelude::*;
use crate::state::{Company, Employee, PaymentProof};
use crate::constants::MAX_EMPLOYEES_PER_COMPANY;

verus! {

/// What the ledger holds, abstractly: companies under their authority key,
/// employees under the pair of company address and wallet, payment proofs
/// under the triple of company address, wallet and payment id.
#[verifier::ext_equal]
pub ghost struct LedgerView {
    /// Every company, under its authority key.
    pub companies: Map<u64, Company>,
    /// Every employee, under its company's address and its wallet.
    pub employees: Map<(u64, u64), Employee>,
    /// Every payment proof, under company address, wallet and payment id.
    pub proofs: Map<(u64, u64, u64), PaymentProof>,
}

/// The key a company record carries: its authority.
pub open spec fn company_key() -> spec_fn(Company) -> u64 {
    |c: Company| c.authority
}

/// The key an employee record carries: its company address and wallet.
pub open spec fn employee_key() -> spec_fn(Employee) -> (u64, u64) {
    |e: Employee| (e.company, e.wallet)
}

/// The key a payment proof carries: company address, wallet and payment id.
pub open spec fn proof_key() -> spec_fn(PaymentProof) -> (u64, u64, u64) {
    |p: PaymentProof| (p.company, p.employee, p.payment_id)
}

impl LedgerView {
    /// The view of a ledger holding nothing.
    pub open spec fn empty() -> LedgerView {
        LedgerView {
            companies: Map::empty(),
            employees: Map::empty(),
            proofs: Map::empty(),
        }
    }

    /// Every record sits under its own key and satisfies its field bounds.
    /// In particular no company's employee count exceeds the maximum.
    pub open spec fn inv(self) -> bool {
        &&& forall|a: u64| #[trigger]
            self.companies.contains_key(a) ==> self.companies[a].authority == a
                && self.companies[a].wf()
        &&& forall|k: (u64, u64)| #[trigger]
            self.employees.contains_key(k) ==> self.employees[k].company == k.0
                && self.employees[k].wallet == k.1 && self.employees[k].wf()
        &&& forall|k: (u64, u64, u64)| #[trigger]
            self.proofs.contains_key(k) ==> self.proofs[k].company == k.0
                && self.proofs[k].employee == k.1 && self.proofs[k].payment_id == k.2
                && self.proofs[k].wf()
    }

    /// The employee count of every company stays within its bounds: never
    /// below zero, never above the configured maximum.
    pub open spec fn employee_counts_bounded(self) -> bool {
        forall|a: u64| #[trigger]
            self.companies.contains_key(a) ==> 0 <= self.companies[a].employee_count
                <= MAX_EMPLOYEES_PER_COMPANY
    }

    /// The bounds on employee counts follow from the record invariant.
    pub proof fn lemma_inv_counts_bounded(self)
        requires
            self.inv(),
        ensures
            self.employee_counts_bounded(),
    {
    }
}

} // verus!
