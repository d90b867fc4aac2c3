use vstd::prelude::*;

verus! {

/// Pixel sizes applied to one render call: `x` scales glyph advances
/// horizontally, `y` scales the vertical font metrics and is also the edge
/// length of the square that a pictograph is resized to.
#[derive(Clone, Copy, PartialEq, Eq, Structural)]
pub struct ScalePx {
    pub x: u32,
    pub y: u32,
}

/// An RGBA color applied to every glyph painted in one render call.
/// Pictographs carry their own embedded colors and ignore this value.
#[derive(Clone, Copy, PartialEq, Eq, Structural)]
pub struct Color {
    pub r: u8,
    pub g: u8,
    pub b: u8,
    pub a: u8,
}

} // verus!
