//! A verified model of an AMD GPU system-management tool: how the readings of
//! each discovery backend become GPU records, how the records are shown in a
//! table and in a Prometheus exposition, and how the headless HTTP API decides
//! what each request is answered.
use vstd::prelude::*;

pub mod text;
pub mod num;
pub mod gpu;
pub mod http;
pub mod backend;
pub mod render;

verus! {
} // verus!
