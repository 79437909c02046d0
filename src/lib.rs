use vstd::prelude::*;

pub mod config;
pub mod fetch;
pub mod json;
pub mod logging;
pub mod reconcile;
pub mod record;
pub mod schedule;
pub mod selection;
pub mod text;
pub mod update;

verus! {

} // verus!
