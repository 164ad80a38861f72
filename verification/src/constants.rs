//! Business-rule constants: entity bounds, the minimum payment amount, and
//! the fixed payment-schedule intervals.

use vstd::prelude::*;

verus! {

/// Most employees a single company may carry at once.
pub const MAX_EMPLOYEES_PER_COMPANY: u16 = 1000;

/// Longest accepted company name, in bytes.
pub const MAX_COMPANY_NAME_LENGTH: usize = 50;

/// Smallest payment amount accepted by payment processing, in the smallest
/// unit of the payroll asset.
pub const MIN_SALARY_AMOUNT: u64 = 1_000_000;

/// Largest accepted encrypted-salary blob, in bytes.
pub const ENCRYPTED_SALARY_MAX_SIZE: usize = 256;

/// Largest accepted zero-knowledge proof blob, in bytes.
pub const ZK_PROOF_MAX_SIZE: usize = 512;

/// Longest accepted relay transaction signature, in bytes.
pub const TX_SIGNATURE_LENGTH: usize = 88;

/// Seconds in one week.
pub const SECONDS_PER_WEEK: i64 = 604_800;

/// Seconds in two weeks.
pub const SECONDS_PER_BIWEEK: i64 = 1_209_600;

/// Seconds in thirty days (the fixed approximation of a month).
pub const SECONDS_PER_MONTH: i64 = 2_592_000;

/// Latest timestamp from which a next payment due date can still be computed
/// without overflowing a signed 64-bit timestamp, whatever the frequency.
pub const MAX_SCHEDULABLE_TIMESTAMP: i64 = i64::MAX - SECONDS_PER_MONTH;

} // verus!
