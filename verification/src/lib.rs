//! Verified core of the RealtyPro realtor dashboard and its voice assistant.
use vstd::prelude::*;

pub mod json;
pub mod text;
pub mod voice;
pub mod display;
pub mod models;
pub mod matching;
pub mod bridge;

verus! {

} // verus!
