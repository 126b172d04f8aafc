//! Arguments handed to the prediction subsystem.
//!
//! The subsystem that runs the inference models is an external
//! collaborator; the viewer core only assembles its arguments and
//! receives its overlay masks as plain pixel buffers.

use vstd::prelude::*;

verus! {

/// What a predictor needs to start: the image path and the extents of
/// the patch grid it works on.
#[derive(Clone, Debug)]
pub struct PredictorArgs {
    pub path: String,
    pub width: u32,
    pub height: u32,
    pub depth: u32,
}

} // verus!
