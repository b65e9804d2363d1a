use vstd::prelude::*;

pub mod sync;
pub mod text;

verus! {

} // verus!
