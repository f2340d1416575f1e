use vstd::prelude::*;

pub mod color;
pub mod config;
pub mod escape;
pub mod raster;

verus! {

} // verus!
