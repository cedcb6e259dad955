use vstd::prelude::*;

pub mod db;
pub mod error;
pub mod incoming;
pub mod interrupt;
pub mod laws;
pub mod merge;
pub mod reconcile;
pub mod record;
pub mod store;
pub mod table;
pub mod telemetry;
pub mod transitions;
pub mod update_plan;
pub mod util;

verus! {

} // verus!
