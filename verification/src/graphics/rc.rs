//! The resource book a drawing engine implements: it turns style colors into
//! engine-owned brushes, pens and fonts, and resolves whole style requests.

use vstd::prelude::*;

use crate::graphics::style::{ColorResource, StyleAccess, StyleRequest};

verus! {

/// A handful of colors every resource book can resolve without registration.
#[derive(PartialEq, Eq, Structural, Clone, Copy, Debug)]
pub enum SpecialColors {
    Clear,
    Black,
    Red,
    Green,
    Blue,
    White,
}

/// What an engine keeps for one drawing session: brushes, pens and fonts
/// looked up by the colors that created them.
pub trait ResourceBook {
    type Brush;

    type Pen;

    type Font;

    type Error;

    fn include_style(&mut self, style: StyleRequest) -> Result<(), Self::Error>;

    /// Resolves the four colors of a style request against the book; `None`
    /// as soon as one of them has no registered brush.
    fn get_style<'a>(&'a self, style: &StyleRequest) -> Option<ResolvedStyle<'a, Self::Brush>> where
        Self::Brush: 'a,
    {
        let bk = self.get(style.get(StyleAccess::Background))?;
        let border = self.get(style.get(StyleAccess::Border))?;
        let accent = self.get(style.get(StyleAccess::Accent))?;
        let fore = self.get(style.get(StyleAccess::Foreground))?;

        Some(ResolvedStyle { background: bk, border, accent, foreground: fore })
    }

    fn make_color(&mut self, key: ColorResource) -> Result<(), Self::Error>;

    fn remove_color(&mut self, key: ColorResource) -> bool;

    fn get_special(&self, key: SpecialColors) -> Option<&Self::Brush>;

    fn get(&self, key: &ColorResource) -> Option<&Self::Brush>;

    fn get_mut(&mut self, key: &ColorResource) -> Option<&Self::Font>;

    fn make_pen<U>(&mut self, key: ColorResource, size: U) -> Result<(), Self::Error>;

    fn get_pen<U>(&self, key: ColorResource, size: U) -> Option<&Self::Pen>;
}

/// A color guide provides the ability for someone to have a basis around a
/// set of colors. This should be used inside of a `ResolvedStyle` structure
/// to store basic color information.
#[derive(Debug, Clone, PartialEq)]
pub struct ResolveColorGuide<'a, C> where C: 'a {
    background: [&'a C; 3],
    accent: &'a C,
    foreground: &'a C,
}

/// A per-view structure used to build a borrowed set of colors. These
/// resolved colors should be able to be directly used by the graphics
/// pipeline.
#[derive(Debug, Clone, PartialEq)]
pub struct ResolvedStyle<'a, C> where C: 'a {
    background: &'a C,
    border: &'a C,
    accent: &'a C,
    foreground: &'a C,
}

impl<'a, C> ResolvedStyle<'a, C> {
    pub closed spec fn spec_background(&self) -> &'a C {
        self.background
    }

    pub closed spec fn spec_border(&self) -> &'a C {
        self.border
    }

    pub closed spec fn spec_accent(&self) -> &'a C {
        self.accent
    }

    pub closed spec fn spec_foreground(&self) -> &'a C {
        self.foreground
    }

    pub fn background(&self) -> (r: &'a C)
        ensures
            r == self.spec_background(),
    {
        self.background
    }

    pub fn border(&self) -> (r: &'a C)
        ensures
            r == self.spec_border(),
    {
        self.border
    }

    pub fn accent(&self) -> (r: &'a C)
        ensures
            r == self.spec_accent(),
    {
        self.accent
    }

    pub fn foreground(&self) -> (r: &'a C)
        ensures
            r == self.spec_foreground(),
    {
        self.foreground
    }
}

} // verus!
