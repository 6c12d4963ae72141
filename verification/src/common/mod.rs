//! Leaf value types shared by every manifest version.

pub mod id;
pub mod order;
pub mod port;
pub mod size;
pub mod text;
pub mod unit;

pub use id::Id;
pub use size::Size;
pub use size::SizeError;
pub use unit::Unit;

use vstd::prelude::*;

verus! {

/// A reference to a container image, held as the text that writes it.
#[derive(Clone, Debug, PartialEq, Eq)]
pub struct Image(pub String);

/// Either a bare image reference or something richer in its place.
#[derive(Clone, Debug, PartialEq, Eq)]
pub enum ImageOr<T> {
    Image(Image),
    Other(T),
}

/// A rejected input, carried back to the caller unchanged.
#[derive(Copy, Clone, Debug, PartialEq, Eq)]
pub struct Invalid<T>(pub T);

} // verus!
