use vstd::prelude::*;

pub mod image;

verus! {

/// Requests that the window loop acts on, raised by the viewer.
pub enum ControlFlow {
    CreatePreview,
}

} // verus!
