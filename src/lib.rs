use vstd::prelude::*;

pub mod envelope;
pub mod pitch;
pub mod text;
pub mod tone;

verus! {

} // verus!
