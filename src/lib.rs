//! A shared-ownership pointer whose blocks hold a reference count and a
//! payload. The counting protocol (what each clone, drop and exclusivity
//! check does to the count, and when the payload is destroyed) is stated
//! and proved here.
use vstd::prelude::*;

pub mod arc;
pub mod protocol;

pub use arc::{Arc, Heap};

verus! {

} // verus!
