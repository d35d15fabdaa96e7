use vstd::prelude::*;

pub mod decimal;
pub mod provider;
pub mod laws;

verus! {

} // verus!
