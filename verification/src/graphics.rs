//! Engine-independent drawing abstractions: styling values, resource books,
//! and keys for resolved resources.

pub mod rc;
pub mod style;

use vstd::prelude::*;

verus! {

/// Identifies one resolved resource inside a resource book.
#[derive(PartialEq, Eq, Structural, Debug, Hash)]
pub struct ResourceKey {}

/// Read access to the resolved drawing resources an engine keeps per key.
pub trait GraphicsResourceBook {
    type Font;

    type Color;

    fn get_color(&self, key: &ResourceKey) -> Option<&Self::Color>;

    fn get_font(&self, key: &ResourceKey) -> Option<&Self::Font>;
}

} // verus!
