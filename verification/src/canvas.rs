use vstd::prelude::*;

use crate::style::Color;

verus! {

#[verifier::external_type_specification]
#[verifier::external_body]
pub struct ExDynamicImage(image::DynamicImage);

#[verifier::external_type_specification]
#[verifier::external_body]
pub struct ExFont<'a>(rusttype::Font<'a>);

#[verifier::external_type_specification]
#[verifier::external_body]
pub struct ExGlyphScale(rusttype::Scale);

/// How far a paint origin may lie from zero, on either axis.  The glyph
/// rasterizer places each glyph pixel by adding its offset within the run
/// to the origin in 32-bit arithmetic before clipping, so the origin must
/// stay a whole run's extent inside the `i32` range; this margin leaves
/// room for runs up to a gigapixel long.
pub const COORD_LIMIT: i32 = 0x4000_0000;

/// One composite operation applied to a canvas: what was painted, and the
/// cursor position it was painted at.
pub enum CanvasOp {
    /// A glyph run painted in the given color at the rasterizer's scale.
    Glyphs { x: int, y: int, text: Seq<char>, color: Color, scale: rusttype::Scale },
    /// A pictograph, resized to an `edge` by `edge` square, composited
    /// over the surface.
    Pictograph { x: int, y: int, edge: nat },
}

/// A raster surface together with the journal of the composite operations
/// applied to it.
///
/// The pixel content of the surface is the business of the image
/// capability; what this crate's contracts speak of is the journal: which
/// operations were applied, with which arguments, in which order.  Every
/// mutation of the surface goes through an operation that appends to the
/// journal, so a call that promises an unchanged journal has left the
/// surface untouched.
pub struct Canvas {
    surface: image::DynamicImage,
    journal: Ghost<Seq<CanvasOp>>,
}

impl Canvas {
    /// The operations applied to this canvas since it was created, oldest
    /// first.
    pub closed spec fn ops(&self) -> Seq<CanvasOp> {
        self.journal@
    }

    /// Wrap a raster surface; the journal starts empty.
    pub fn new(surface: image::DynamicImage) -> (c: Canvas)
        ensures
            c.ops() == Seq::<CanvasOp>::empty(),
    {
        Canvas { surface, journal: Ghost(Seq::empty()) }
    }

    /// Unwrap the raster surface, with whatever has been composited onto
    /// it.
    pub fn into_surface(self) -> image::DynamicImage {
        self.surface
    }
}

/// Relies on imageproc::drawing::draw_text_mut: paints the glyphs of
/// `text` onto the surface with their run origin at pixel `(x, y)`, in the
/// given color, font and scale, clipped to the surface; no other pixel is
/// touched.  Each glyph pixel's position is the run origin plus an offset
/// computed in `i32` before the clipping test, so the origin is kept a
/// margin inside the `i32` range, wide enough for any glyph run the
/// rasterizer can lay out.
#[verifier::external_body]
pub(crate) fn paint_glyphs(
    canvas: &mut Canvas,
    color: Color,
    x: i32,
    y: i32,
    glyph_scale: rusttype::Scale,
    font: &rusttype::Font<'_>,
    text: &str,
)
    requires
        -COORD_LIMIT <= x <= COORD_LIMIT,
        -COORD_LIMIT <= y <= COORD_LIMIT,
    ensures
        final(canvas).ops() == old(canvas).ops().push(
            CanvasOp::Glyphs {
                x: x as int,
                y: y as int,
                text: text@,
                color,
                scale: glyph_scale,
            },
        ),
{
    imageproc::drawing::draw_text_mut(
        &mut canvas.surface,
        image::Rgba([color.r, color.g, color.b, color.a]),
        x,
        y,
        glyph_scale,
        font,
        text,
    );
}

/// Whether the image capability decodes these bytes as an image: success
/// is a function of the bytes alone.
pub uninterp spec fn decodes(bytes: Seq<u8>) -> bool;

/// Relies on image::load_from_memory: guesses the format from the bytes
/// and decodes them, succeeding or failing on the bytes alone.
#[verifier::external_body]
pub(crate) fn decode_pictograph(bytes: &Vec<u8>) -> (r: Option<image::DynamicImage>)
    ensures
        r is Some <==> decodes(bytes@),
{
    image::load_from_memory(bytes.as_slice()).ok()
}

/// Relies on image::DynamicImage::resize_exact and image::imageops::overlay:
/// resamples `img` to an `edge` by `edge` square with the triangle
/// (linearly weighted) filter, stretching a non-square source, and
/// alpha-composites that square over the surface with its top-left corner
/// at pixel `(x, y)`, clipped to the surface; no other pixel is touched.
#[verifier::external_body]
pub(crate) fn composite_pictograph(
    canvas: &mut Canvas,
    img: &image::DynamicImage,
    edge: u32,
    x: i64,
    y: i64,
)
    ensures
        final(canvas).ops() == old(canvas).ops().push(
            CanvasOp::Pictograph { x: x as int, y: y as int, edge: edge as nat },
        ),
{
    let square = img.resize_exact(edge, edge, image::imageops::FilterType::Triangle);
    image::imageops::overlay(&mut canvas.surface, &square, x, y);
}

/// Decode raw pictograph bytes and, on success, resize the image to an
/// `edge` square and composite it at `(x, y)`.  On decode failure the token
/// is skipped silently: the canvas is untouched and the advance is zero.
pub fn draw_pictograph(canvas: &mut Canvas, bytes: &Vec<u8>, x: i64, y: i64, edge: u32) -> (adv:
    u32)
    ensures
        decodes(bytes@) ==> adv == edge && final(canvas).ops() == old(canvas).ops().push(
            CanvasOp::Pictograph { x: x as int, y: y as int, edge: edge as nat },
        ),
        !decodes(bytes@) ==> adv == 0 && final(canvas).ops() == old(canvas).ops(),
{
    match decode_pictograph(bytes) {
        Some(img) => {
            composite_pictograph(canvas, &img, edge, x, y);
            edge
        },
        None => 0,
    }
}

} // verus!
