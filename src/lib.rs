// Decisions of a stereo VR renderer, verified: which GPU and queue families
// to use, which commands a frame records for each eye, how the in-flight
// frame fence evolves, and how validation messages are classified.
use vstd::prelude::*;

pub mod debug;
pub mod device;
pub mod error;
pub mod fence;
pub mod frame;

verus! {

} // verus!
