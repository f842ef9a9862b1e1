use vstd::prelude::*;

pub mod action;
pub mod config;
pub mod identity;
pub mod matcher;
pub mod polling;
pub mod snapshot;

verus! {

} // verus!
