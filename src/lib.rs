use vstd::prelude::*;

pub mod nearest;
pub mod ppm;
pub mod raster;

verus! {

} // verus!
