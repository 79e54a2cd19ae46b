//! The frame buffer of a 128 by 32 monochrome display, in the page layout
//! of the SSD1306: one byte holds eight pixels of one column, top pixel in
//! the lowest bit, and the bytes of a page of eight rows follow each other
//! from left to right.

use vstd::prelude::*;
use vstd::string::StringSliceAdditionalSpecFns;
use embedded_graphics::framebuffer::Framebuffer;
use embedded_graphics::geometry::Dimensions;
use embedded_graphics::mono_font::jis_x0201::FONT_8X13;
use embedded_graphics::mono_font::MonoTextStyle;
use embedded_graphics::pixelcolor::raw::LittleEndian;
use embedded_graphics::pixelcolor::raw::RawU1;
use embedded_graphics::pixelcolor::BinaryColor;
use embedded_graphics::text::Alignment;
use embedded_graphics::text::Text;
use embedded_graphics::Drawable;

verus! {

/// Width of the display in pixels.
pub const WIDTH: usize = 128;

/// Height of the display in pixels.
pub const HEIGHT: usize = 32;

/// The longest text, in bytes, that is rendered: sixteen million bytes and
/// a little more. The renderer counts pixels in 32-bit numbers, eight to a
/// character across and thirteen to a line down, and would run out of them
/// on a text about ten times as long.
pub const TEXT_LIMIT: usize = 0x100_0000;

/// The colour of a pixel.
#[derive(Clone, Copy, Debug, PartialEq, Eq, Structural)]
pub enum Color {
    Off,
    On,
}

/// A position on or off the display.
#[derive(Clone, Copy, Debug, PartialEq, Eq, Structural)]
pub struct Point {
    pub x: i32,
    pub y: i32,
}

/// A position with its colour.
#[derive(Clone, Copy, Debug, PartialEq, Eq, Structural)]
pub struct Pixel(pub Point, pub Color);

/// The frame buffer.
pub struct SSD1306Framebuffer128x32 {
    data: [u8; 512],
}

pub type FramebufferType = SSD1306Framebuffer128x32;

/// Whether the position lies on the display.
pub open spec fn on_display(x: int, y: int) -> bool {
    0 <= x < WIDTH && 0 <= y < HEIGHT
}

/// The index of the byte that holds the pixel.
pub open spec fn byte_index(x: int, y: int) -> int {
    x + (y / 8) * 128
}

/// The mask of the pixel within its byte.
pub open spec fn bit_mask(y: int) -> u8 {
    1u8 << ((y % 8) as u8)
}

/// Whether the pixel is lit in the buffer `bytes`.
pub open spec fn is_lit(bytes: Seq<u8>, x: int, y: int) -> bool {
    bytes[byte_index(x, y)] & bit_mask(y) != 0
}

/// The buffer after one pixel is set. A position off the display changes
/// nothing.
pub open spec fn with_pixel(bytes: Seq<u8>, pixel: Pixel) -> Seq<u8> {
    let x = pixel.0.x as int;
    let y = pixel.0.y as int;
    if on_display(x, y) {
        let i = byte_index(x, y);
        match pixel.1 {
            Color::On => bytes.update(i, bytes[i] | bit_mask(y)),
            Color::Off => bytes.update(i, bytes[i] & !bit_mask(y)),
        }
    } else {
        bytes
    }
}

/// The buffer after the pixels are set one after the other.
pub open spec fn drawn(bytes: Seq<u8>, pixels: Seq<Pixel>) -> Seq<u8>
    decreases pixels.len(),
{
    if pixels.len() == 0 {
        bytes
    } else {
        with_pixel(drawn(bytes, pixels.drop_last()), pixels.last())
    }
}

/// The buffer in which every pixel has the colour.
pub open spec fn filled(color: Color) -> Seq<u8> {
    Seq::new(
        512,
        |i: int|
            match color {
                Color::On => 0xFFu8,
                Color::Off => 0x00u8,
            },
    )
}

/// Whether the pixel is lit in a bitmap that is laid out row by row: 16
/// bytes to a row, the leftmost pixel of a byte in its highest bit. A
/// pixel whose byte the bitmap lacks is dark.
pub open spec fn row_lit(rows: Seq<u8>, x: int, y: int) -> bool {
    let i = 16 * y + x / 8;
    0 <= i < rows.len() && rows[i] & (0x80u8 >> ((x % 8) as u8)) != 0
}

/// The bitmap of a text: the display in the row layout, dark but for the
/// glyphs of the text, set in the 8 by 13 font and centred on the middle
/// of the display.
pub uninterp spec fn text_rows(text: Seq<char>) -> Seq<u8>;

/// Renders `text` with `embedded_graphics`: `Text::with_alignment` and its
/// `draw`, in the style of `MonoTextStyle::new` with `FONT_8X13`, centred on
/// the middle of a fresh `Framebuffer` of 128 by 32 binary pixels, whose
/// bytes are handed back. Claimed of it: the bytes are a function of the
/// text alone, and there are 512 of them. That framebuffer lays its pixels
/// out as `row_lit` reads them. Texts beyond `TEXT_LIMIT` are left out: up
/// to it no coordinate of the renderer passes 8 * 2^24 + 72 across or
/// 13 * (2^24 + 2) + 15 down, both below 2^31.
#[verifier::external_body]
fn render_text(text: &str) -> (rows: Vec<u8>)
    requires
        text.spec_bytes().len() <= TEXT_LIMIT,
    ensures
        rows@ == text_rows(text@),
        rows@.len() == 512,
{
    let mut fb = Framebuffer::<BinaryColor, RawU1, LittleEndian, 128, 32, 512>::new();
    let style = MonoTextStyle::new(&FONT_8X13, BinaryColor::On);
    let center = fb.bounding_box().center();
    let _ = Text::with_alignment(text, center, style, Alignment::Center).draw(&mut fb);
    fb.data().to_vec()
}

proof fn lemma_same_bits(a: u8, b: u8)
    by (bit_vector)
    requires
        (a & (1u8 << 0u8) != 0) == (b & (1u8 << 0u8) != 0),
        (a & (1u8 << 1u8) != 0) == (b & (1u8 << 1u8) != 0),
        (a & (1u8 << 2u8) != 0) == (b & (1u8 << 2u8) != 0),
        (a & (1u8 << 3u8) != 0) == (b & (1u8 << 3u8) != 0),
        (a & (1u8 << 4u8) != 0) == (b & (1u8 << 4u8) != 0),
        (a & (1u8 << 5u8) != 0) == (b & (1u8 << 5u8) != 0),
        (a & (1u8 << 6u8) != 0) == (b & (1u8 << 6u8) != 0),
        (a & (1u8 << 7u8) != 0) == (b & (1u8 << 7u8) != 0),
    ensures
        a == b,
{
}

proof fn lemma_same_bit(a: Seq<u8>, b: Seq<u8>, i: int, k: u8)
    requires
        a.len() == 512,
        b.len() == 512,
        forall|x: int, y: int| on_display(x, y) ==> is_lit(a, x, y) == is_lit(b, x, y),
        0 <= i < 512,
        k < 8,
    ensures
        (a[i] & (1u8 << k) != 0) == (b[i] & (1u8 << k) != 0),
{
    let x = i % 128;
    let y = 8 * (i / 128) + k;
    assert(on_display(x, y));
    assert(byte_index(x, y) == i);
    assert((y % 8) as u8 == k);
    assert(is_lit(a, x, y) == is_lit(b, x, y));
}

/// Two buffers in which the same pixels are lit hold the same bytes.
pub proof fn lemma_same_pixels(a: Seq<u8>, b: Seq<u8>)
    requires
        a.len() == 512,
        b.len() == 512,
        forall|x: int, y: int| on_display(x, y) ==> is_lit(a, x, y) == is_lit(b, x, y),
    ensures
        a == b,
{
    assert forall|i: int| 0 <= i < 512 implies a[i] == b[i] by {
        lemma_same_bit(a, b, i, 0);
        lemma_same_bit(a, b, i, 1);
        lemma_same_bit(a, b, i, 2);
        lemma_same_bit(a, b, i, 3);
        lemma_same_bit(a, b, i, 4);
        lemma_same_bit(a, b, i, 5);
        lemma_same_bit(a, b, i, 6);
        lemma_same_bit(a, b, i, 7);
        lemma_same_bits(a[i], b[i]);
    }
    assert(a =~= b);
}

proof fn lemma_bit_set(b: u8, k: u8, j: u8)
    by (bit_vector)
    requires
        k < 8,
        j < 8,
    ensures
        (b | (1u8 << k)) & (1u8 << k) != 0,
        (b & !(1u8 << k)) & (1u8 << k) == 0,
        j != k ==> (b | (1u8 << k)) & (1u8 << j) == b & (1u8 << j),
        j != k ==> (b & !(1u8 << k)) & (1u8 << j) == b & (1u8 << j),
        0xFFu8 & (1u8 << k) != 0,
        0x00u8 & (1u8 << k) == 0,
{
}

/// Setting a pixel on the display gives that pixel the colour and leaves
/// every other pixel of the display as it was.
pub proof fn lemma_with_pixel(bytes: Seq<u8>, pixel: Pixel, x: int, y: int)
    requires
        bytes.len() == 512,
        on_display(x, y),
    ensures
        with_pixel(bytes, pixel).len() == 512,
        on_display(pixel.0.x as int, pixel.0.y as int) && x == pixel.0.x && y == pixel.0.y
            ==> is_lit(with_pixel(bytes, pixel), x, y) == (pixel.1 == Color::On),
        !(x == pixel.0.x && y == pixel.0.y) ==> is_lit(with_pixel(bytes, pixel), x, y) == is_lit(
            bytes,
            x,
            y,
        ),
{
    let px = pixel.0.x as int;
    let py = pixel.0.y as int;
    if on_display(px, py) {
        let i = byte_index(px, py);
        let k = (py % 8) as u8;
        let j = (y % 8) as u8;
        lemma_bit_set(bytes[i], k, j);
        if byte_index(x, y) == i && !(x == px && y == py) {
            assert(x == px);
            assert(y / 8 == py / 8);
            assert(j != k);
        }
    }
}

/// In a filled buffer every pixel of the display has the colour.
pub proof fn lemma_filled(color: Color, x: int, y: int)
    requires
        on_display(x, y),
    ensures
        is_lit(filled(color), x, y) == (color == Color::On),
{
    lemma_bit_set(0, (y % 8) as u8, 0);
}

/// The colour of the last pixel of `pixels` at the position, if there is one.
pub open spec fn last_drawn(pixels: Seq<Pixel>, x: int, y: int) -> Option<Color>
    decreases pixels.len(),
{
    if pixels.len() == 0 {
        None
    } else if pixels.last().0.x == x && pixels.last().0.y == y {
        Some(pixels.last().1)
    } else {
        last_drawn(pixels.drop_last(), x, y)
    }
}

/// What `last_drawn` finds is a pixel of the sequence, and it finds nothing
/// only where no pixel is at the position.
pub proof fn lemma_last_drawn(pixels: Seq<Pixel>, x: int, y: int)
    ensures
        match last_drawn(pixels, x, y) {
            Some(color) => exists|k: int|
                0 <= k < pixels.len() && (#[trigger] pixels[k]).0.x == x && pixels[k].0.y == y
                    && pixels[k].1 == color,
            None => forall|k: int|
                0 <= k < pixels.len() ==> !((#[trigger] pixels[k]).0.x == x && pixels[k].0.y == y),
        },
    decreases pixels.len(),
{
    if pixels.len() > 0 {
        let front = pixels.drop_last();
        let n = pixels.len() - 1;
        if pixels.last().0.x == x && pixels.last().0.y == y {
            assert(pixels[n] == pixels.last());
        } else {
            lemma_last_drawn(front, x, y);
            match last_drawn(front, x, y) {
                Some(color) => {
                    let k = choose|k: int|
                        0 <= k < front.len() && (#[trigger] front[k]).0.x == x && front[k].0.y == y
                            && front[k].1 == color;
                    assert(pixels[k] == front[k]);
                },
                None => {
                    assert forall|k: int| 0 <= k < pixels.len() implies !((#[trigger] pixels[k]).0.x
                        == x && pixels[k].0.y == y) by {
                        if k < n {
                            assert(pixels[k] == front[k]);
                        }
                    }
                },
            }
        }
    }
}

/// After drawing, a pixel of the display has the colour of the last drawn
/// pixel at its position, and is as it was where none was drawn there.
pub proof fn lemma_drawn(bytes: Seq<u8>, pixels: Seq<Pixel>, x: int, y: int)
    requires
        bytes.len() == 512,
        on_display(x, y),
    ensures
        drawn(bytes, pixels).len() == 512,
        is_lit(drawn(bytes, pixels), x, y) == (match last_drawn(pixels, x, y) {
            Some(color) => color == Color::On,
            None => is_lit(bytes, x, y),
        }),
    decreases pixels.len(),
{
    if pixels.len() > 0 {
        let front = pixels.drop_last();
        lemma_drawn(bytes, front, x, y);
        lemma_with_pixel(drawn(bytes, front), pixels.last(), x, y);
    }
}

impl View for SSD1306Framebuffer128x32 {
    type V = Seq<u8>;

    closed spec fn view(&self) -> Seq<u8> {
        self.data@
    }
}

impl SSD1306Framebuffer128x32 {
    /// A buffer with every pixel off.
    pub fn new() -> (r: SSD1306Framebuffer128x32)
        ensures
            r@ == filled(Color::Off),
    {
        let r = SSD1306Framebuffer128x32 { data: [0u8; 512] };
        assert(r@ =~= filled(Color::Off));
        r
    }

    /// The buffer always holds 512 bytes.
    pub proof fn lemma_len(&self)
        ensures
            self@.len() == 512,
    {
    }

    /// Gives every pixel the colour.
    pub fn clear(&mut self, color: Color)
        ensures
            final(self)@ == filled(color),
    {
        let fill_byte: u8 = match color {
            Color::On => 0xFF,
            Color::Off => 0x00,
        };
        let mut i: usize = 0;
        while i < 512
            invariant
                i <= 512,
                fill_byte == filled(color)[0],
                forall|j: int| 0 <= j < i ==> self.data[j] == fill_byte,
            decreases 512 - i,
        {
            self.data[i] = fill_byte;
            i += 1;
        }
        assert(self@ =~= filled(color));
    }

    /// Sets one pixel. A position off the display changes nothing.
    pub fn set_pixel(&mut self, point: Point, color: Color)
        ensures
            final(self)@ == with_pixel(old(self)@, Pixel(point, color)),
    {
        if point.x < 0 || point.x >= 128 || point.y < 0 || point.y >= 32 {
            return ;
        }
        let x: usize = point.x as usize;
        let y: usize = point.y as usize;

        let bit_index: usize = y % 8;
        let byte_index: usize = x + (y / 8) * 128;
        let mask: u8 = 1u8 << bit_index;
        assert(mask == bit_mask(y as int)) by {
            let k = bit_index as u8;
            assert(k < 8);
            assert(1u8 << bit_index == 1u8 << k) by (bit_vector)
                requires
                    k == bit_index,
                    bit_index < 8,
            ;
        }
        match color {
            Color::On => {
                self.data[byte_index] |= mask;
            },
            Color::Off => {
                self.data[byte_index] &= !mask;
            },
        }
        assert(self@ =~= with_pixel(old(self)@, Pixel(point, color)));
    }

    /// Sets the pixels one after the other.
    pub fn draw_iter(&mut self, pixels: &Vec<Pixel>)
        ensures
            final(self)@ == drawn(old(self)@, pixels@),
    {
        let mut i: usize = 0;
        while i < pixels.len()
            invariant
                i <= pixels.len(),
                self@ == drawn(old(self)@, pixels@.take(i as int)),
            decreases pixels.len() - i,
        {
            let Pixel(point, color) = pixels[i];
            self.set_pixel(point, color);
            proof {
                let upto = pixels@.take(i + 1);
                assert(upto.drop_last() =~= pixels@.take(i as int));
                assert(upto.last() == pixels@[i as int]);
            }
            i += 1;
        }
        assert(pixels@.take(pixels@.len() as int) =~= pixels@);
    }

    /// Lights every pixel that is lit in the row bitmap `rows` and leaves
    /// the others as they are.
    pub fn overlay_rows(&mut self, rows: &[u8])
        ensures
            final(self)@.len() == 512,
            forall|x: int, y: int|
                on_display(x, y) ==> #[trigger] is_lit(final(self)@, x, y) == (is_lit(
                    old(self)@,
                    x,
                    y,
                )
                    || row_lit(rows@, x, y)),
    {
        let mut y: usize = 0;
        while y < 32
            invariant
                y <= 32,
                self@.len() == 512,
                forall|a: int, b: int|
                    on_display(a, b) ==> is_lit(self@, a, b) == (is_lit(old(self)@, a, b) || (b < y
                        && row_lit(rows@, a, b))),
            decreases 32 - y,
        {
            let mut x: usize = 0;
            while x < 128
                invariant
                    y < 32,
                    x <= 128,
                    self@.len() == 512,
                    forall|a: int, b: int|
                        on_display(a, b) ==> is_lit(self@, a, b) == (is_lit(old(self)@, a, b) || ((b
                            < y || (b == y && a < x)) && row_lit(rows@, a, b))),
                decreases 128 - x,
            {
                let i: usize = 16 * y + x / 8;
                let shift: usize = x % 8;
                let mask: u8 = 0x80u8 >> shift;
                assert(mask == 0x80u8 >> ((x as int % 8) as u8)) by {
                    let k = shift as u8;
                    assert(0x80u8 >> shift == 0x80u8 >> k) by (bit_vector)
                        requires
                            k == shift,
                            shift < 8,
                    ;
                }
                if i < rows.len() && rows[i] & mask != 0 {
                    let ghost before = self@;
                    let pixel = Pixel(Point { x: x as i32, y: y as i32 }, Color::On);
                    self.set_pixel(pixel.0, pixel.1);
                    proof {
                        assert forall|a: int, b: int| on_display(a, b) implies is_lit(self@, a, b)
                            == (is_lit(old(self)@, a, b) || ((b < y || (b == y && a < x + 1))
                            && row_lit(rows@, a, b))) by {
                            lemma_with_pixel(before, pixel, a, b);
                        }
                    }
                }
                x += 1;
            }
            y += 1;
        }
    }

    /// The bytes as the display takes them.
    pub fn data(&self) -> (r: &[u8])
        ensures
            r@ == self@,
    {
        self.data.as_slice()
    }

    /// Width and height of the display.
    pub fn size(&self) -> (r: (u32, u32))
        ensures
            r.0 == WIDTH,
            r.1 == HEIGHT,
    {
        (128, 32)
    }
}

/// Writes `text` over what the buffer shows: the pixels of its glyphs are
/// lit, all others stay as they are.
pub fn lcd_display_text(buffer: &mut FramebufferType, text: &str)
    requires
        text.spec_bytes().len() <= TEXT_LIMIT,
    ensures
        final(buffer)@.len() == 512,
        forall|x: int, y: int|
            on_display(x, y) ==> #[trigger] is_lit(final(buffer)@, x, y) == (is_lit(
                old(buffer)@,
                x,
                y,
            )
                || row_lit(text_rows(text@), x, y)),
{
    let rows = render_text(text);
    buffer.overlay_rows(rows.as_slice());
}

/// Writes `text` over what the buffer shows, unless it is longer than
/// `TEXT_LIMIT`: then nothing is written, and `false` comes back.
pub fn try_lcd_display_text(buffer: &mut FramebufferType, text: &str) -> (written: bool)
    ensures
        written == (text.spec_bytes().len() <= TEXT_LIMIT),
        !written ==> final(buffer)@ == old(buffer)@,
        written ==> final(buffer)@.len() == 512,
        written ==> forall|x: int, y: int|
            on_display(x, y) ==> #[trigger] is_lit(final(buffer)@, x, y) == (is_lit(
                old(buffer)@,
                x,
                y,
            )
                || row_lit(text_rows(text@), x, y)),
{
    if text.as_bytes().len() > TEXT_LIMIT {
        return false;
    }
    lcd_display_text(buffer, text);
    true
}

/// A buffer on the heap with every pixel off.
pub fn new_lcd_text_buffer() -> (r: Box<FramebufferType>)
    ensures
        r@ == filled(Color::Off),
{
    Box::new(SSD1306Framebuffer128x32::new())
}

} // verus!
