//! One frame of the screencast.

use vstd::prelude::*;

verus! {

/// One frame, as the browser encoded it.
#[derive(Debug, Clone)]
pub struct Frame {
    pub jpeg: Vec<u8>,
}

} // verus!
