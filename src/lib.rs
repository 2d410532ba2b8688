use vstd::prelude::*;

pub mod fixation;
pub mod fusion;
pub mod geometry;
pub mod pipeline;
pub mod pointer;
pub mod rounding;
pub mod smoothing;

verus! {

/// A request sent to a sensor worker over its private control channel.
pub enum InputAction {
    Shutdown,
}

} // verus!
