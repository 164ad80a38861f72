//! A payroll accounting ledger: companies, their employees, and payroll
//! disbursements, with salary amounts kept confidential behind cryptographic
//! commitments and off-system payments recorded as immutable proof records.
//!
//! The ledger is an authoritative state machine. Every entity lives at a
//! deterministic composite key (a company under its authority key, an
//! employee under the pair of company and wallet, a payment proof under the
//! triple of company, wallet and payment id), so a second creation for the
//! same key is detected and rejected. Every mutation is gated by the owning
//! company's authority, uses checked arithmetic, and either commits fully or
//! leaves the ledger untouched.

pub mod constants;
pub mod errors;
pub mod state;
pub mod store;
pub mod view;
pub mod transitions;
pub mod ledger;
pub mod laws;
