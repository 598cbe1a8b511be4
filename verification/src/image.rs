use vstd::prelude::*;

pub mod animation;
pub mod avif;
pub mod gif;
pub mod metadata;
pub mod webp;

verus! {

/// A GPU texture that an image is decoded into, possibly in the background.
pub trait Texture {
    /// Whether the first frame has been written.
    fn loaded(&self) -> bool;

    /// Pixel dimensions of the texture.
    fn metadata(&self) -> &metadata::Metadata;
}

} // verus!
