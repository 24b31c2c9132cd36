use netpack::graphics::rc as brush_rc;
use netpack::graphics::rc::ResourceBook as BrushResourceBook;
use netpack::graphics::style::{ColorResource, PenStyle, StyleAccess, StyleRequest};
use netpack::rc as color_rc;
use netpack::rc::ResourceBook as ColorResourceBook;

#[test]
fn test_color_channels_and_packing() {
    let c = ColorResource::new(0x11, 0x22, 0x33, 0x44);
    assert_eq!(c.packed_bgr(), 0x0033_2211);
    assert_eq!(c.packed_argb(), 0x4411_2233);
}

#[test]
fn test_color_packing_edges() {
    assert_eq!(ColorResource::new(0, 0, 0, 0).packed_bgr(), 0);
    assert_eq!(ColorResource::new(0, 0, 0, 0).packed_argb(), 0);
    assert_eq!(ColorResource::new(255, 255, 255, 255).packed_bgr(), 0x00FF_FFFF);
    assert_eq!(ColorResource::new(255, 255, 255, 255).packed_argb(), 0xFFFF_FFFF);
}

#[test]
fn test_pen_style() {
    let red = ColorResource::new(255, 0, 0, 255);
    let blue = ColorResource::new(0, 0, 255, 255);
    let mut pen = PenStyle::new(red.clone(), 4u32);
    assert_eq!(*pen.width(), 4);
    assert_eq!(pen.color(), &red);
    pen.set_width(7);
    assert_eq!(*pen.width(), 7);
    assert_eq!(pen.color(), &red);
    pen.set_color(blue.clone());
    assert_eq!(pen.color(), &blue);
    assert_eq!(*pen.width(), 7);
}

#[test]
fn test_style_request_get() {
    let bg = ColorResource::new(1, 1, 1, 255);
    let bd = ColorResource::new(2, 2, 2, 255);
    let ac = ColorResource::new(3, 3, 3, 255);
    let fg = ColorResource::new(4, 4, 4, 255);
    let req = StyleRequest::new(bg.clone(), bd.clone(), ac.clone(), fg.clone());
    assert_eq!(req.get(StyleAccess::Background), &bg);
    assert_eq!(req.get(StyleAccess::Border), &bd);
    assert_eq!(req.get(StyleAccess::Accent), &ac);
    assert_eq!(req.get(StyleAccess::Foreground), &fg);
}

#[test]
fn test_style_request_get_mut() {
    let c = ColorResource::new(1, 1, 1, 255);
    let new_accent = ColorResource::new(9, 9, 9, 9);
    let mut req = StyleRequest::new(c.clone(), c.clone(), c.clone(), c.clone());
    *req.get_mut(StyleAccess::Accent) = new_accent.clone();
    assert_eq!(req.get(StyleAccess::Accent), &new_accent);
    assert_eq!(req.get(StyleAccess::Background), &c);
    assert_eq!(req.get(StyleAccess::Border), &c);
    assert_eq!(req.get(StyleAccess::Foreground), &c);
}

struct ToyBrushBook {
    brushes: Vec<(ColorResource, String)>,
}

impl brush_rc::ResourceBook for ToyBrushBook {
    type Brush = String;
    type Pen = String;
    type Font = String;
    type Error = ();

    fn include_style(&mut self, style: StyleRequest) -> Result<(), ()> {
        for access in [
            StyleAccess::Background,
            StyleAccess::Border,
            StyleAccess::Accent,
            StyleAccess::Foreground,
        ] {
            self.make_color(style.get(access).clone())?;
        }
        Ok(())
    }

    fn make_color(&mut self, key: ColorResource) -> Result<(), ()> {
        let name = format!("brush-{}", self.brushes.len());
        self.brushes.push((key, name));
        Ok(())
    }

    fn remove_color(&mut self, key: ColorResource) -> bool {
        let before = self.brushes.len();
        self.brushes.retain(|(k, _)| *k != key);
        self.brushes.len() != before
    }

    fn get_special(&self, _key: brush_rc::SpecialColors) -> Option<&String> {
        None
    }

    fn get(&self, key: &ColorResource) -> Option<&String> {
        self.brushes.iter().find(|(k, _)| k == key).map(|(_, v)| v)
    }

    fn get_mut(&mut self, _key: &ColorResource) -> Option<&String> {
        None
    }

    fn make_pen<U>(&mut self, key: ColorResource, _size: U) -> Result<(), ()> {
        self.make_color(key)
    }

    fn get_pen<U>(&self, key: ColorResource, _size: U) -> Option<&String> {
        self.get(&key)
    }
}

#[test]
fn test_brush_book_get_style() {
    let bg = ColorResource::new(1, 0, 0, 255);
    let bd = ColorResource::new(2, 0, 0, 255);
    let ac = ColorResource::new(3, 0, 0, 255);
    let fg = ColorResource::new(4, 0, 0, 255);
    let req = StyleRequest::new(bg.clone(), bd.clone(), ac.clone(), fg.clone());

    let mut book = ToyBrushBook { brushes: Vec::new() };
    assert!(book.get_style(&req).is_none());

    book.include_style(StyleRequest::new(bg.clone(), bd.clone(), ac.clone(), fg.clone()))
        .unwrap();
    let resolved = book.get_style(&req).expect("all four colors are registered");
    assert_eq!(resolved.background(), "brush-0");
    assert_eq!(resolved.border(), "brush-1");
    assert_eq!(resolved.accent(), "brush-2");
    assert_eq!(resolved.foreground(), "brush-3");
}

struct ToyColorBook {
    colors: Vec<(ColorResource, u32)>,
}

impl color_rc::ResourceBook for ToyColorBook {
    type Color = u32;
    type Font = u32;
    type Error = ();

    fn make_from_template(&mut self, style: StyleRequest) -> Result<(), ()> {
        for access in [
            StyleAccess::Background,
            StyleAccess::Border,
            StyleAccess::Accent,
            StyleAccess::Foreground,
        ] {
            self.make_color(style.get(access).clone())?;
        }
        Ok(())
    }

    fn make_color(&mut self, key: ColorResource) -> Result<(), ()> {
        let value = key.packed_argb();
        self.colors.push((key, value));
        Ok(())
    }

    fn remove_color(&mut self, key: ColorResource) -> bool {
        let before = self.colors.len();
        self.colors.retain(|(k, _)| *k != key);
        self.colors.len() != before
    }

    fn get_special(&self, _key: color_rc::SpecialColors) -> Option<&u32> {
        None
    }

    fn get(&self, key: &ColorResource) -> Option<&u32> {
        self.colors.iter().find(|(k, _)| k == key).map(|(_, v)| v)
    }

    fn get_mut(&mut self, _key: &ColorResource) -> Option<&u32> {
        None
    }
}

#[test]
fn test_color_book_get_colors() {
    let bg = ColorResource::new(1, 0, 0, 0);
    let bd = ColorResource::new(2, 0, 0, 0);
    let ac = ColorResource::new(3, 0, 0, 0);
    let fg = ColorResource::new(4, 0, 0, 0);
    let req = StyleRequest::new(bg.clone(), bd.clone(), ac.clone(), fg.clone());

    let mut book = ToyColorBook { colors: Vec::new() };
    assert!(book.get_colors(&req).is_none());

    book.make_from_template(StyleRequest::new(bg.clone(), bd.clone(), ac.clone(), fg.clone()))
        .unwrap();
    let resolved = book.get_colors(&req).expect("all four colors are registered");
    assert_eq!(*resolved.background(), bg.packed_argb());
    assert_eq!(*resolved.border(), bd.packed_argb());
    assert_eq!(*resolved.accent(), ac.packed_argb());
    assert_eq!(*resolved.foreground(), fg.packed_argb());
}

#[test]
fn test_remove_color() {
    let c = ColorResource::new(5, 5, 5, 5);
    let mut book = ToyBrushBook { brushes: Vec::new() };
    book.make_color(c.clone()).unwrap();
    assert!(book.get(&c).is_some());
    assert!(book.remove_color(c.clone()));
    assert!(book.get(&c).is_none());
    assert!(!book.remove_color(c));
}

#[test]
fn test_pen_template() {
    let c = ColorResource::new(7, 7, 7, 255);
    let t = netpack::rc::ResolvedPenTemplate::new(&c, 3u16);
    assert_eq!(*t.width(), 3);
    assert_eq!(t.color(), &c);
}
