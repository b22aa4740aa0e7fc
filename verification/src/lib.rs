use vstd::prelude::*;

pub mod render;
pub mod rhi;
pub mod types;
pub mod ui;

verus! {

} // verus!
