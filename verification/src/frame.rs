//! The drawing surface of the panel as bytes: one bit for each pixel, in the
//! order in which the e-paper panel takes them. Plotting, filling and text are
//! done by `epd_waveshare` and `embedded_graphics` on these bytes.

use embedded_graphics::mono_font::ascii::FONT_6X13;
use embedded_graphics::mono_font::MonoTextStyle;
use embedded_graphics::prelude::{DrawTarget, Point};
use embedded_graphics::text::Text;
use embedded_graphics::Drawable;
use epd_waveshare::graphics::{DisplayRotation, VarDisplay};
use vstd::prelude::*;
use vstd::string::StringSliceAdditionalSpecFns;

verus! {

/// Width of the surface, in pixels.
pub const WIDTH: u32 = 296;

/// Height of the surface, in pixels.
pub const HEIGHT: u32 = 128;

/// Number of bytes of a frame: sixteen for each of the panel's 296 lines.
pub const FRAME_BYTES: usize = 4736;

/// Number of bytes of one line of the panel.
pub const LINE_BYTES: usize = 16;

/// The longest text that is drawn in one call, in bytes.
pub const TEXT_MAX: usize = 1024;

/// Text is anchored no further than this from the origin, on either axis.
pub const ANCHOR_MAX: i32 = 32_767;

/// The two tones of the panel.
#[derive(Debug, Copy, Clone, PartialEq, Eq, Structural)]
pub enum Color {
    Black,
    White,
}

/// A coloured point of the surface. The origin is the top left corner.
#[derive(Debug, Copy, Clone, PartialEq, Eq, Structural)]
pub struct Pixel {
    pub x: i32,
    pub y: i32,
    pub color: Color,
}

/// A rectangle, by its top left corner and its size.
#[derive(Debug, Copy, Clone, PartialEq, Eq, Structural)]
pub struct Rectangle {
    pub x: i32,
    pub y: i32,
    pub width: u32,
    pub height: u32,
}

/// How a line of text lies about its anchor.
#[derive(Debug, Copy, Clone, PartialEq, Eq, Structural)]
pub enum Alignment {
    /// The text starts at the anchor.
    Left,
    /// The text is centred on the anchor.
    Center,
}

/// The rectangle of the whole surface.
pub open spec fn surface_area() -> Rectangle {
    Rectangle { x: 0, y: 0, width: WIDTH, height: HEIGHT }
}

/// Whether `(x, y)` is a point of the surface.
pub open spec fn on_surface(x: int, y: int) -> bool {
    0 <= x < WIDTH && 0 <= y < HEIGHT
}

/// The byte of a frame that holds the pixel `(x, y)`. The panel is mounted
/// turned by a quarter: a column of the surface is a line of the panel, and
/// the bottom of the surface is the start of the line.
pub open spec fn pixel_byte(x: int, y: int) -> int {
    x * LINE_BYTES + (HEIGHT - 1 - y) / 8
}

/// The bit that holds the pixel `(x, y)` within its byte: the first pixel of a
/// line is the highest bit.
pub open spec fn pixel_bit(y: int) -> u8 {
    0x80u8 >> (((HEIGHT - 1 - y) % 8) as u8)
}

/// A frame after one pixel was plotted: the pixel's bit is set for white and
/// cleared for black, and a pixel off the surface changes nothing.
pub open spec fn plotted(frame: Seq<u8>, pixel: Pixel) -> Seq<u8> {
    if on_surface(pixel.x as int, pixel.y as int) {
        let i = pixel_byte(pixel.x as int, pixel.y as int);
        let bit = pixel_bit(pixel.y as int);
        frame.update(
            i,
            match pixel.color {
                Color::Black => frame[i] & !bit,
                Color::White => frame[i] | bit,
            },
        )
    } else {
        frame
    }
}

/// The colour of the pixel `(x, y)` of a frame: white where its bit is set.
pub open spec fn color_at(frame: Seq<u8>, x: int, y: int) -> Color
    recommends
        on_surface(x, y),
        frame.len() == FRAME_BYTES,
{
    if frame[pixel_byte(x, y)] & pixel_bit(y) != 0 {
        Color::White
    } else {
        Color::Black
    }
}

/// Plotting a pixel gives its point the pixel's colour and leaves every other
/// point of the surface as it was.
pub proof fn lemma_plot_colours_one_point(frame: Seq<u8>, pixel: Pixel, x: int, y: int)
    requires
        frame.len() == FRAME_BYTES,
        on_surface(x, y),
    ensures
        plotted(frame, pixel).len() == FRAME_BYTES,
        color_at(plotted(frame, pixel), x, y) == if x == pixel.x && y == pixel.y {
            pixel.color
        } else {
            color_at(frame, x, y)
        },
{
    if on_surface(pixel.x as int, pixel.y as int) {
        let i = pixel_byte(pixel.x as int, pixel.y as int);
        let j = pixel_byte(x, y);
        let s: u8 = ((HEIGHT - 1 - pixel.y) % 8) as u8;
        let t: u8 = ((HEIGHT - 1 - y) % 8) as u8;
        let b: u8 = frame[i];
        if i == j {
            assert(x == pixel.x);
            assert((HEIGHT - 1 - y) / 8 == (HEIGHT - 1 - pixel.y) / 8);
            if y == pixel.y {
                assert(((b | (0x80u8 >> s)) & (0x80u8 >> s)) != 0 && ((b & !(0x80u8 >> s)) & (0x80u8
                    >> s)) == 0) by (bit_vector)
                    requires
                        s < 8,
                ;
            } else {
                assert(s != t);
                assert(((b | (0x80u8 >> s)) & (0x80u8 >> t)) == (b & (0x80u8 >> t)) && ((b & !(0x80u8
                    >> s)) & (0x80u8 >> t)) == (b & (0x80u8 >> t))) by (bit_vector)
                    requires
                        s < 8,
                        t < 8,
                        s != t,
                ;
            }
        }
    }
}

/// A filled frame has its colour at every point of the surface.
pub proof fn lemma_filled_is_uniform(color: Color, x: int, y: int)
    requires
        on_surface(x, y),
    ensures
        filled(color).len() == FRAME_BYTES,
        color_at(filled(color), x, y) == color,
{
    let t: u8 = ((HEIGHT - 1 - y) % 8) as u8;
    assert((0xFFu8 & (0x80u8 >> t)) != 0 && (0x00u8 & (0x80u8 >> t)) == 0) by (bit_vector)
        requires
            t < 8,
    ;
}

/// A frame after each of `pixels` was plotted in turn.
pub open spec fn plotted_all(frame: Seq<u8>, pixels: Seq<Pixel>) -> Seq<u8>
    decreases pixels.len(),
{
    if pixels.len() == 0 {
        frame
    } else {
        plotted_all(plotted(frame, pixels[0]), pixels.skip(1))
    }
}

/// The frame in which every pixel has one colour.
pub open spec fn filled(color: Color) -> Seq<u8> {
    Seq::new(
        FRAME_BYTES as nat,
        |i: int|
            match color {
                Color::Black => 0x00u8,
                Color::White => 0xFFu8,
            },
    )
}

/// Whether a text and its anchor are within what is drawn in one call.
pub open spec fn drawable(text: Seq<char>, x: int, y: int) -> bool {
    &&& vstd::utf8::encode_utf8(text).len() <= TEXT_MAX
    &&& -ANCHOR_MAX <= x <= ANCHOR_MAX
    &&& -ANCHOR_MAX <= y <= ANCHOR_MAX
}

/// Whether a text and its anchor are within what is drawn in one call.
pub fn can_draw(text: &str, x: i32, y: i32) -> (ok: bool)
    ensures
        ok == drawable(text@, x as int, y as int),
{
    assert(text.spec_bytes() == vstd::utf8::encode_utf8(text@));
    text.as_bytes().len() <= TEXT_MAX && -ANCHOR_MAX <= x && x <= ANCHOR_MAX && -ANCHOR_MAX <= y
        && y <= ANCHOR_MAX
}

/// A frame after a line of text was drawn on it: the text in black where it is
/// within what is drawn in one call, and the frame as it was where it is not.
pub open spec fn text_shown(
    frame: Seq<u8>,
    text: Seq<char>,
    x: int,
    y: int,
    alignment: Alignment,
) -> Seq<u8> {
    if drawable(text, x, y) {
        text_drawn(frame, text, x, y, alignment is Center)
    } else {
        frame
    }
}

/// A frame after `text` was drawn on it in black, in the 6 by 13 font, with
/// its baseline at `y`, starting at `x` or centred on it.
pub uninterp spec fn text_drawn(frame: Seq<u8>, text: Seq<char>, x: int, y: int, centered: bool) -> Seq<u8>;

/// `VarDisplay::set_pixel` on a panel turned by a quarter: the pixel's bit of
/// the frame takes the colour, and nothing else changes.
#[verifier::external_body]
pub(crate) fn plot(frame: &mut Vec<u8>, pixel: Pixel)
    requires
        old(frame)@.len() == FRAME_BYTES,
        on_surface(pixel.x as int, pixel.y as int),
    ensures
        final(frame)@ == plotted(old(frame)@, pixel),
        final(frame)@.len() == FRAME_BYTES,
    no_unwind
{
    let color = match pixel.color {
        Color::Black => epd_waveshare::color::Color::Black,
        Color::White => epd_waveshare::color::Color::White,
    };
    if let Ok(mut panel) = VarDisplay::new(
        epd_waveshare::epd2in9_v2::WIDTH,
        epd_waveshare::epd2in9_v2::HEIGHT,
        frame.as_mut_slice(),
        false,
    ) {
        panel.set_rotation(DisplayRotation::Rotate90);
        panel.set_pixel(embedded_graphics::Pixel(Point::new(pixel.x, pixel.y), color));
    }
}

/// `DrawTarget::clear` on the panel: every pixel of the frame takes the
/// colour.
#[verifier::external_body]
pub(crate) fn fill(frame: &mut Vec<u8>, color: Color)
    requires
        old(frame)@.len() == FRAME_BYTES,
    ensures
        final(frame)@ == filled(color),
    no_unwind
{
    let color = match color {
        Color::Black => epd_waveshare::color::Color::Black,
        Color::White => epd_waveshare::color::Color::White,
    };
    if let Ok(mut panel) = VarDisplay::new(
        epd_waveshare::epd2in9_v2::WIDTH,
        epd_waveshare::epd2in9_v2::HEIGHT,
        frame.as_mut_slice(),
        false,
    ) {
        panel.set_rotation(DisplayRotation::Rotate90);
        let _ = panel.clear(color);
    }
}

/// `Text::draw` on the panel, in black and in the 6 by 13 font of
/// `embedded_graphics`: the frame that comes of it is a function of the frame
/// before, the text, the anchor and the alignment, and has the same length.
#[verifier::external_body]
pub(crate) fn draw_text(frame: &mut Vec<u8>, text: &str, x: i32, y: i32, alignment: Alignment)
    requires
        old(frame)@.len() == FRAME_BYTES,
        drawable(text@, x as int, y as int),
    ensures
        final(frame)@ == text_drawn(old(frame)@, text@, x as int, y as int, alignment is Center),
        final(frame)@.len() == FRAME_BYTES,
    no_unwind
{
    let alignment = match alignment {
        Alignment::Left => embedded_graphics::text::Alignment::Left,
        Alignment::Center => embedded_graphics::text::Alignment::Center,
    };
    if let Ok(mut panel) = VarDisplay::new(
        epd_waveshare::epd2in9_v2::WIDTH,
        epd_waveshare::epd2in9_v2::HEIGHT,
        frame.as_mut_slice(),
        false,
    ) {
        panel.set_rotation(DisplayRotation::Rotate90);
        let style = MonoTextStyle::new(&FONT_6X13, epd_waveshare::color::Color::Black);
        let _ = Text::with_alignment(text, Point::new(x, y), style, alignment).draw(&mut panel);
    }
}

} // verus!
