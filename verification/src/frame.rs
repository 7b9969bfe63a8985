//! The in-memory frame of the display: a 128 x 64 grid of binary pixels kept
//! in an `embedded_graphics` framebuffer, together with the drawing calls the
//! renderer makes on it.
//!
//! Nothing in this module is proved. It states what each drawing call of
//! `embedded_graphics` does to the set of lit pixels; the renderer is verified
//! against these statements.

use vstd::prelude::*;
use embedded_graphics::Drawable;
use embedded_graphics::draw_target::DrawTarget;
use embedded_graphics::framebuffer::Framebuffer;
use embedded_graphics::geometry::{Point, Size};
use embedded_graphics::image::GetPixel;
use embedded_graphics::mono_font::MonoTextStyle;
use embedded_graphics::mono_font::ascii::FONT_6X10;
use embedded_graphics::pixelcolor::BinaryColor;
use embedded_graphics::pixelcolor::raw::{LittleEndian, RawU1};
use embedded_graphics::primitives::{Line, Primitive, PrimitiveStyle, Rectangle};
use embedded_graphics::text::{Baseline, Text};

verus! {

/// Width of the frame in pixels.
pub const FRAME_WIDTH: u32 = 128;

/// Height of the frame in pixels.
pub const FRAME_HEIGHT: u32 = 64;

/// Width of one glyph of the status font in pixels.
pub const GLYPH_WIDTH: u32 = 6;

/// Height of one glyph of the status font in pixels.
pub const GLYPH_HEIGHT: u32 = 10;

/// Largest coordinate magnitude a line end may have.
pub const LINE_COORD_MAX: i32 = 1024;

#[verifier::external_type_specification]
#[verifier::external_body]
#[verifier::reject_recursive_types(C)]
#[verifier::reject_recursive_types(R)]
#[verifier::reject_recursive_types(BO)]
pub struct ExFramebuffer<C, R, BO, const WIDTH: usize, const HEIGHT: usize, const N: usize>(
    Framebuffer<C, R, BO, WIDTH, HEIGHT, N>,
);

#[verifier::external_type_specification]
#[verifier::external_body]
pub struct ExBinaryColor(BinaryColor);

#[verifier::external_type_specification]
#[verifier::external_body]
pub struct ExRawU1(RawU1);

#[verifier::external_type_specification]
#[verifier::external_body]
pub struct ExLittleEndian(LittleEndian);

/// One bit per pixel, 128 columns by 64 rows.
pub type Frame = Framebuffer<BinaryColor, RawU1, LittleEndian, 128, 64, 1024>;

/// The pixels of `frame` that are on, as (column, row) pairs.
pub uninterp spec fn lit_pixels(frame: Frame) -> Set<(int, int)>;

/// The pixels that `Text::draw` turns on for `text` placed with its top-left
/// corner at (`x`, `y`), in the 6 x 10 status font, before clipping.
pub uninterp spec fn glyph_pixels(text: Seq<char>, x: int, y: int) -> Set<(int, int)>;

/// The pixels that a one-pixel-wide styled `Line` from (`x0`, `y0`) to
/// (`x1`, `y1`) turns on, before clipping.
pub uninterp spec fn line_pixels(x0: int, y0: int, x1: int, y1: int) -> Set<(int, int)>;

/// Every pixel position of the frame.
pub open spec fn screen() -> Set<(int, int)> {
    Set::new(|p: (int, int)| 0 <= p.0 < FRAME_WIDTH && 0 <= p.1 < FRAME_HEIGHT)
}

/// The pixel positions of the rectangle with top-left corner (`x`, `y`),
/// `w` columns wide and `h` rows high.
pub open spec fn rect_pixels(x: int, y: int, w: int, h: int) -> Set<(int, int)> {
    Set::new(|p: (int, int)| x <= p.0 < x + w && y <= p.1 < y + h)
}

/// The positions of that rectangle which lie on its one-pixel border.
pub open spec fn outline_pixels(x: int, y: int, w: int, h: int) -> Set<(int, int)> {
    Set::new(
        |p: (int, int)|
            x <= p.0 < x + w && y <= p.1 < y + h && (p.0 == x || p.0 == x + w - 1 || p.1 == y
                || p.1 == y + h - 1),
    )
}

/// Whether a rectangle can be handed to the drawing calls: its corner is not
/// negative and its far edges are representable coordinates.
pub open spec fn rect_drawable(x: int, y: int, w: int, h: int) -> bool {
    0 <= x && 0 <= y && 0 <= w && 0 <= h && x + w <= i32::MAX && y + h <= i32::MAX
}

/// Whether a text can be handed to the drawing call at (`x`, `y`): however
/// its characters fall into lines, no glyph cell leaves the coordinate range.
pub open spec fn text_drawable(text: Seq<char>, x: int, y: int) -> bool {
    0 <= x && 0 <= y && x + GLYPH_WIDTH * (text.len() + 1) <= i32::MAX && y + GLYPH_HEIGHT * (
    text.len() + 2) <= i32::MAX
}

/// Whether a text is drawn as a single line.
pub open spec fn single_line(text: Seq<char>) -> bool {
    !text.contains('\n')
}

/// `Framebuffer::new`: storage of all zero bits, so no pixel is on.
#[verifier::external_body]
pub(crate) fn blank_frame() -> (frame: Frame)
    ensures
        lit_pixels(frame) == Set::<(int, int)>::empty(),
{
    Framebuffer::new()
}

/// `DrawTarget::clear` with the off colour: every pixel of the frame is
/// written off.
#[verifier::external_body]
pub(crate) fn wipe(frame: &mut Frame)
    ensures
        lit_pixels(*final(frame)) == Set::<(int, int)>::empty(),
{
    let _ = frame.clear(BinaryColor::Off);
}

/// `GetPixel::pixel`: the colour stored at a position, and nothing for a
/// position outside the frame. The result says whether the on colour came
/// back.
#[verifier::external_body]
pub(crate) fn is_lit(frame: &Frame, x: i32, y: i32) -> (lit: bool)
    ensures
        lit == lit_pixels(*frame).contains((x as int, y as int)),
{
    matches!(frame.pixel(Point::new(x, y)), Some(BinaryColor::On))
}

/// A `Rectangle` drawn with `PrimitiveStyle::with_fill` in the off colour:
/// every pixel of the rectangle is written off, no other pixel is touched.
#[verifier::external_body]
pub(crate) fn erase_rect(frame: &mut Frame, x: i32, y: i32, w: u32, h: u32)
    requires
        rect_drawable(x as int, y as int, w as int, h as int),
    ensures
        lit_pixels(*final(frame)) == lit_pixels(*old(frame)).difference(
            rect_pixels(x as int, y as int, w as int, h as int),
        ),
{
    let _ = Rectangle::new(Point::new(x, y), Size::new(w, h))
        .into_styled(PrimitiveStyle::with_fill(BinaryColor::Off))
        .draw(frame);
}

/// A `Rectangle` drawn with `PrimitiveStyle::with_stroke` in the on colour,
/// one pixel wide: the border pixels of the rectangle that fall inside the
/// frame are written on, no other pixel is touched.
#[verifier::external_body]
pub(crate) fn stroke_rect(frame: &mut Frame, x: i32, y: i32, w: u32, h: u32)
    requires
        rect_drawable(x as int, y as int, w as int, h as int),
    ensures
        lit_pixels(*final(frame)) == lit_pixels(*old(frame)).union(
            outline_pixels(x as int, y as int, w as int, h as int).intersect(screen()),
        ),
{
    let _ = Rectangle::new(Point::new(x, y), Size::new(w, h))
        .into_styled(PrimitiveStyle::with_stroke(BinaryColor::On, 1))
        .draw(frame);
}

/// `Text::with_baseline(.., Baseline::Top)` drawn in `FONT_6X10` with the on
/// colour and no background: the font's lit glyph pixels that fall inside
/// the frame are written on, no pixel is written off. A text without a line
/// break occupies one row of 6 x 10 cells starting at (`x`, `y`), so pixels
/// outside that row keep their state.
#[verifier::external_body]
pub(crate) fn draw_text(frame: &mut Frame, text: &str, x: i32, y: i32)
    requires
        text_drawable(text@, x as int, y as int),
    ensures
        lit_pixels(*final(frame)) == lit_pixels(*old(frame)).union(
            glyph_pixels(text@, x as int, y as int).intersect(screen()),
        ),
        single_line(text@) ==> forall|p: (int, int)|
            !rect_pixels(
                x as int,
                y as int,
                GLYPH_WIDTH * text@.len(),
                GLYPH_HEIGHT as int,
            ).contains(p) ==> (#[trigger] lit_pixels(*final(frame)).contains(p) == lit_pixels(
                *old(frame),
            ).contains(p)),
{
    let style = MonoTextStyle::new(&FONT_6X10, BinaryColor::On);
    let _ = Text::with_baseline(text, Point::new(x, y), style, Baseline::Top).draw(frame);
}

/// A `Line` drawn with `PrimitiveStyle::with_stroke` in the on colour, one
/// pixel wide: the pixels of the line that fall inside the frame are written
/// on, no other pixel is touched.
#[verifier::external_body]
pub(crate) fn stroke_line(frame: &mut Frame, x0: i32, y0: i32, x1: i32, y1: i32)
    requires
        -LINE_COORD_MAX <= x0 <= LINE_COORD_MAX,
        -LINE_COORD_MAX <= y0 <= LINE_COORD_MAX,
        -LINE_COORD_MAX <= x1 <= LINE_COORD_MAX,
        -LINE_COORD_MAX <= y1 <= LINE_COORD_MAX,
    ensures
        lit_pixels(*final(frame)) == lit_pixels(*old(frame)).union(
            line_pixels(x0 as int, y0 as int, x1 as int, y1 as int).intersect(screen()),
        ),
{
    let _ = Line::new(Point::new(x0, y0), Point::new(x1, y1))
        .into_styled(PrimitiveStyle::with_stroke(BinaryColor::On, 1))
        .draw(frame);
}

} // verus!
