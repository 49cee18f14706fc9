//! A ledger of client accounts driven by a stream of deposit, withdrawal,
//! dispute, resolve and chargeback records, with amounts held as fixed-point
//! ten-thousandths.
use vstd::prelude::*;

pub mod engine;
pub mod error;
pub mod models;
pub mod money;
pub mod record;
pub mod utils;

verus! {

} // verus!
