use vstd::prelude::*;

pub mod app_error;
pub mod client;
pub mod csv;
pub mod engine;
pub mod laws;
pub mod engine_error;
pub mod transaction;

verus! {

/// A monetary amount, in fixed-point units of one ten-thousandth of the
/// currency: the ledger keeps four decimal places of precision, and the
/// collaborators that read and write the tabular wire format convert
/// between decimal notation and these units.
pub type Amount = i64;

} // verus!
