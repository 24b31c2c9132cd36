//! Engine-independent styling values: colors with alpha, pen styles, and the
//! four-color style request resolved by a resource book.

use vstd::prelude::*;

verus! {

/// An engine-independent color with alpha. Channels are stored from 0 to 255
/// in the order red, green, blue, alpha. Depending on the drawing engine the
/// packed forms below feed its native color value. The type can be hashed, so
/// it can key a map from colors to resolved drawing resources.
#[derive(PartialEq, Eq, Clone, Copy, Debug, Hash)]
pub struct ColorResource {
    data: [u8; 4],
}

impl ColorResource {
    pub closed spec fn spec_red(self) -> u8 {
        self.data[0]
    }

    pub closed spec fn spec_green(self) -> u8 {
        self.data[1]
    }

    pub closed spec fn spec_blue(self) -> u8 {
        self.data[2]
    }

    pub closed spec fn spec_alpha(self) -> u8 {
        self.data[3]
    }

    /// Creates a color around specified values for RGBA.
    pub fn new(red: u8, green: u8, blue: u8, alpha: u8) -> (r: Self)
        ensures
            r.spec_red() == red,
            r.spec_green() == green,
            r.spec_blue() == blue,
            r.spec_alpha() == alpha,
    {
        Self { data: [red, green, blue, alpha] }
    }

    pub fn red(&self) -> (r: u8)
        ensures
            r == self.spec_red(),
    {
        self.data[0]
    }

    pub fn green(&self) -> (r: u8)
        ensures
            r == self.spec_green(),
    {
        self.data[1]
    }

    pub fn blue(&self) -> (r: u8)
        ensures
            r == self.spec_blue(),
    {
        self.data[2]
    }

    pub fn alpha(&self) -> (r: u8)
        ensures
            r == self.spec_alpha(),
    {
        self.data[3]
    }

    /// The color packed as `0x00BBGGRR`, the little-endian RGB word that
    /// palette-based drawing interfaces take; the alpha channel is dropped.
    pub fn packed_bgr(&self) -> (r: u32)
        ensures
            r == (self.spec_red() as u32) | ((self.spec_green() as u32) << 8) | (
            (self.spec_blue() as u32) << 16),
    {
        (self.data[0] as u32) | ((self.data[1] as u32) << 8) | ((self.data[2] as u32) << 16)
    }

    /// The color packed as `0xAARRGGBB`, the word layout of
    /// alpha-aware drawing interfaces.
    pub fn packed_argb(&self) -> (r: u32)
        ensures
            r == ((self.spec_alpha() as u32) << 24) | ((self.spec_red() as u32) << 16) | (
            (self.spec_green() as u32) << 8) | (self.spec_blue() as u32),
    {
        ((self.data[3] as u32) << 24) | ((self.data[0] as u32) << 16) | ((self.data[1] as u32)
            << 8) | (self.data[2] as u32)
    }
}

/// Reserved for typeface styling; carries nothing yet.
pub struct FontStyle {}

/// How a pen draws: its stroke width and its color.
pub struct PenStyle<T> {
    width: T,
    color: ColorResource,
}

impl<T> PenStyle<T> {
    pub closed spec fn spec_width(&self) -> &T {
        &self.width
    }

    pub closed spec fn spec_color(&self) -> ColorResource {
        self.color
    }

    pub fn new(color: ColorResource, width: T) -> (r: Self)
        ensures
            *r.spec_width() == width,
            r.spec_color() == color,
    {
        Self { width, color }
    }

    pub fn width(&self) -> (r: &T)
        ensures
            r == self.spec_width(),
    {
        &self.width
    }

    pub fn set_width(&mut self, new: T)
        ensures
            *final(self).spec_width() == new,
            final(self).spec_color() == old(self).spec_color(),
    {
        self.width = new
    }

    pub fn color(&self) -> (r: &ColorResource)
        ensures
            *r == self.spec_color(),
    {
        &self.color
    }

    pub fn set_color(&mut self, new: ColorResource)
        ensures
            final(self).spec_color() == new,
            final(self).spec_width() == old(self).spec_width(),
    {
        self.color = new
    }
}

/// Names one of the four roles a style request colors.
#[derive(PartialEq, Eq, Structural, Clone, Copy, Debug)]
pub enum StyleAccess {
    Background,
    Border,
    Accent,
    Foreground,
}

/// The four colors a view asks a resource book to resolve.
pub struct StyleRequest {
    background: ColorResource,
    border: ColorResource,
    accent: ColorResource,
    foreground: ColorResource,
}

impl StyleRequest {
    /// The color stored for a role.
    pub open spec fn spec_get(&self, rc: StyleAccess) -> ColorResource {
        match rc {
            StyleAccess::Background => self.spec_background(),
            StyleAccess::Border => self.spec_border(),
            StyleAccess::Accent => self.spec_accent(),
            StyleAccess::Foreground => self.spec_foreground(),
        }
    }

    pub closed spec fn spec_background(&self) -> ColorResource {
        self.background
    }

    pub closed spec fn spec_border(&self) -> ColorResource {
        self.border
    }

    pub closed spec fn spec_accent(&self) -> ColorResource {
        self.accent
    }

    pub closed spec fn spec_foreground(&self) -> ColorResource {
        self.foreground
    }

    pub fn new(
        background: ColorResource,
        border: ColorResource,
        accent: ColorResource,
        foreground: ColorResource,
    ) -> (r: Self)
        ensures
            r.spec_background() == background,
            r.spec_border() == border,
            r.spec_accent() == accent,
            r.spec_foreground() == foreground,
    {
        Self { background, border, accent, foreground }
    }

    pub fn get(&self, rc: StyleAccess) -> (r: &ColorResource)
        ensures
            *r == self.spec_get(rc),
    {
        match rc {
            StyleAccess::Accent => &self.accent,
            StyleAccess::Border => &self.border,
            StyleAccess::Foreground => &self.foreground,
            StyleAccess::Background => &self.background,
        }
    }

    pub fn get_mut(&mut self, rc: StyleAccess) -> (r: &mut ColorResource)
        ensures
            *r == old(self).spec_get(rc),
            final(self).spec_get(rc) == *final(r),
            forall|other: StyleAccess|
                other != rc ==> final(self).spec_get(other) == old(self).spec_get(other),
    {
        match rc {
            StyleAccess::Accent => &mut self.accent,
            StyleAccess::Border => &mut self.border,
            StyleAccess::Foreground => &mut self.foreground,
            StyleAccess::Background => &mut self.background,
        }
    }
}

} // verus!
