//! The color-book flavor of the resource abstraction: a book that resolves
//! style colors directly, and its extension that templates pens.

use vstd::prelude::*;

use crate::graphics::style::{ColorResource, StyleAccess, StyleRequest};

verus! {

/// A handful of colors every resource book can resolve without registration.
#[derive(PartialEq, Eq, Structural, Clone, Copy, Debug)]
pub enum SpecialColors {
    Clear,
    Black,
    Red,
    Green,
    Blue,
    White,
}

/// A book of resolved colors and fonts looked up by the style colors that
/// created them.
pub trait ResourceBook {
    type Color;

    type Font;

    type Error;

    fn make_from_template(&mut self, style: StyleRequest) -> Result<(), Self::Error>;

    /// Resolves the four colors of a style request against the book; `None`
    /// as soon as one of them is not registered.
    fn get_colors<'a>(&'a self, style: &StyleRequest) -> Option<ResolvedStyle<'a, Self::Color>> where
        Self::Color: 'a,
    {
        let bk = self.get(style.get(StyleAccess::Background))?;
        let border = self.get(style.get(StyleAccess::Border))?;
        let accent = self.get(style.get(StyleAccess::Accent))?;
        let fore = self.get(style.get(StyleAccess::Foreground))?;

        Some(ResolvedStyle { background: bk, border, accent, foreground: fore })
    }

    fn make_color(&mut self, key: ColorResource) -> Result<(), Self::Error>;

    fn remove_color(&mut self, key: ColorResource) -> bool;

    fn get_special(&self, key: SpecialColors) -> Option<&Self::Color>;

    fn get(&self, key: &ColorResource) -> Option<&Self::Color>;

    fn get_mut(&mut self, key: &ColorResource) -> Option<&Self::Font>;
}

/// A color book that can also hand out ready-to-build pen templates.
pub trait PenResourceBook: ResourceBook {
    type Pen;

    fn make_pen_template<'a, U>(&'a self, color: &ColorResource, width: U) -> ResolvedPenTemplate<
        'a,
        Self::Color,
        U,
    >;
}

/// Represents a construct to build a ready to use pen.
#[derive(Debug, Clone, PartialEq)]
pub struct ResolvedPenTemplate<'a, C, U> where C: 'a {
    width: U,
    color: &'a C,
}

impl<'a, C, U> ResolvedPenTemplate<'a, C, U> {
    pub closed spec fn spec_width(&self) -> &U {
        &self.width
    }

    pub closed spec fn spec_color(&self) -> &'a C {
        self.color
    }

    pub fn new(color: &'a C, width: U) -> (r: Self)
        ensures
            *r.spec_width() == width,
            r.spec_color() == color,
    {
        Self { width, color }
    }

    pub fn width(&self) -> (r: &U)
        ensures
            r == self.spec_width(),
    {
        &self.width
    }

    pub fn color(&self) -> (r: &'a C)
        ensures
            r == self.spec_color(),
    {
        self.color
    }
}

/// A color guide provides the ability for someone to have a basis around a
/// set of colors. This should be used inside of a `ResolvedStyle` structure
/// to store basic color information.
#[derive(Debug, Clone, PartialEq)]
pub struct ResolveColorGuide<'a, C> where C: 'a {
    background: [&'a C; 3],
    accent: &'a C,
    foreground: &'a C,
}

/// A per-view structure used to build a borrowed set of colors. These
/// resolved colors should be able to be directly used by the graphics
/// pipeline.
#[derive(Debug, Clone, PartialEq)]
pub struct ResolvedStyle<'a, C> where C: 'a {
    background: &'a C,
    border: &'a C,
    accent: &'a C,
    foreground: &'a C,
}

impl<'a, C> ResolvedStyle<'a, C> {
    pub closed spec fn spec_background(&self) -> &'a C {
        self.background
    }

    pub closed spec fn spec_border(&self) -> &'a C {
        self.border
    }

    pub closed spec fn spec_accent(&self) -> &'a C {
        self.accent
    }

    pub closed spec fn spec_foreground(&self) -> &'a C {
        self.foreground
    }

    pub fn background(&self) -> (r: &'a C)
        ensures
            r == self.spec_background(),
    {
        self.background
    }

    pub fn border(&self) -> (r: &'a C)
        ensures
            r == self.spec_border(),
    {
        self.border
    }

    pub fn accent(&self) -> (r: &'a C)
        ensures
            r == self.spec_accent(),
    {
        self.accent
    }

    pub fn foreground(&self) -> (r: &'a C)
        ensures
            r == self.spec_foreground(),
    {
        self.foreground
    }
}

} // verus!
