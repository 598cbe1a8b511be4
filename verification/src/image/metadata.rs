use vstd::prelude::*;

verus! {

/// Pixel dimensions of a loaded image.
pub struct Metadata {
    pub width: u32,
    pub height: u32,
}

} // verus!
