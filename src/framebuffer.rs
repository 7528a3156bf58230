//! Geometry and color values, the byte model of a framebuffer, and the raw
//! write of one pixel.

use vstd::prelude::*;

verus! {

/// A pixel coordinate, zero-based, counted from the top left corner.
#[derive(Clone, Copy, Debug, PartialEq, Eq, Structural)]
pub struct Position {
    pub x: usize,
    pub y: usize,
}

/// A truecolor value with eight bits per channel.
#[derive(Clone, Copy, Debug, PartialEq, Eq, Structural)]
pub struct Color {
    pub red: u8,
    pub green: u8,
    pub blue: u8,
}

/// How the bytes of one pixel encode its color.
#[derive(Clone, Copy, Debug, PartialEq, Eq, Structural)]
pub enum PixelFormat {
    /// Red, green and blue bytes, in this order.
    Rgb,
    /// Blue, green and red bytes, in this order.
    Bgr,
    /// One greyscale byte.
    U8,
    /// An encoding this driver cannot write.
    Unknown { red_position: u8, green_position: u8, blue_position: u8 },
}

/// The layout of a framebuffer, as firmware reports it.
#[derive(Clone, Copy, Debug, PartialEq, Eq, Structural)]
pub struct FrameBufferInfo {
    /// The total size in bytes.
    pub byte_len: usize,
    /// The visible width in pixels.
    pub width: usize,
    /// The visible height in pixels.
    pub height: usize,
    pub pixel_format: PixelFormat,
    pub bytes_per_pixel: usize,
    /// Pixels from the start of one row to the start of the next; at least
    /// the width where rows are padded.
    pub stride: usize,
}

/// A linear video memory buffer together with its layout.
pub struct FrameBuffer {
    pub buffer: Vec<u8>,
    pub info: FrameBufferInfo,
}

/// The framebuffer reports a pixel format that has no encoding here.
#[derive(Clone, Copy, Debug, PartialEq, Eq, Structural)]
pub struct UnsupportedPixelFormat {
    pub format: PixelFormat,
}

/// Whether colors can be written in this format.
pub open spec fn is_supported(f: PixelFormat) -> bool {
    !(f is Unknown)
}

/// The greyscale level of a color: each channel divided by three, then summed.
pub open spec fn grey_level(c: Color) -> u8 {
    (c.red / 3 + c.green / 3 + c.blue / 3) as u8
}

/// The bytes that encode a color in a format, in memory order.
pub open spec fn encode(f: PixelFormat, c: Color) -> Seq<u8> {
    match f {
        PixelFormat::Rgb => seq![c.red, c.green, c.blue],
        PixelFormat::Bgr => seq![c.blue, c.green, c.red],
        PixelFormat::U8 => seq![grey_level(c)],
        PixelFormat::Unknown { .. } => Seq::empty(),
    }
}

/// How many bytes a pixel write changes in a format.
pub open spec fn channel_count(f: PixelFormat) -> int {
    match f {
        PixelFormat::Rgb | PixelFormat::Bgr => 3,
        PixelFormat::U8 => 1,
        PixelFormat::Unknown { .. } => 0,
    }
}

/// A color's encoding has one byte per channel of its format.
pub proof fn lemma_encode_len(f: PixelFormat, c: Color)
    ensures
        encode(f, c).len() == channel_count(f),
{
}

/// `buf` with `bytes` written from index `off` on; bytes that would fall
/// past the end are not written.
pub open spec fn write_at(buf: Seq<u8>, off: int, bytes: Seq<u8>) -> Seq<u8> {
    Seq::new(
        buf.len(),
        |i: int|
            if off <= i < off + bytes.len() {
                bytes[i - off]
            } else {
                buf[i]
            },
    )
}

impl FrameBufferInfo {
    /// The index of a pixel counted row by row, stride included.
    pub open spec fn pixel_index(self, x: int, y: int) -> int {
        y * self.stride + x
    }

    /// The index of the first byte of a pixel.
    pub open spec fn offset_of(self, x: int, y: int) -> int {
        self.pixel_index(x, y) * self.bytes_per_pixel
    }

    pub open spec fn byte_offset(self, p: Position) -> int {
        self.offset_of(p.x as int, p.y as int)
    }

    /// Whether a position lies on the visible canvas.
    pub open spec fn in_bounds(self, p: Position) -> bool {
        p.x < self.width && p.y < self.height
    }

    /// Whether a position's bytes can be written into a buffer of `len`
    /// bytes without leaving it, and its offset computed without overflow.
    pub open spec fn addressable(self, p: Position, len: nat) -> bool {
        &&& self.pixel_index(p.x as int, p.y as int) <= usize::MAX
        &&& self.byte_offset(p) + channel_count(self.pixel_format) <= len
    }

    /// Whether a draw on this layout into a buffer of `len` bytes is safe:
    /// the format can be written, and the last visible pixel, whose bytes
    /// come after those of every other visible pixel, fits in the buffer.
    pub open spec fn fits(self, len: nat) -> bool {
        &&& is_supported(self.pixel_format)
        &&& self.width > 0 && self.height > 0 ==> {
            &&& self.pixel_index(self.width - 1, self.height - 1) <= usize::MAX
            &&& self.offset_of(self.width - 1, self.height - 1) + channel_count(self.pixel_format)
                <= len
        }
    }
}

/// The buffer after drawing one pixel: the color's bytes at the pixel's
/// offset where the position is visible, the buffer unchanged otherwise.
pub open spec fn put_pixel(buf: Seq<u8>, info: FrameBufferInfo, p: Position, c: Color) -> Seq<u8> {
    if info.in_bounds(p) {
        write_at(buf, info.byte_offset(p), encode(info.pixel_format, c))
    } else {
        buf
    }
}

/// The buffer after drawing a sequence of pixels, first to last.
pub open spec fn draw_all(buf: Seq<u8>, info: FrameBufferInfo, pixels: Seq<(Position, Color)>) -> Seq<u8>
    decreases pixels.len(),
{
    if pixels.len() == 0 {
        buf
    } else {
        put_pixel(draw_all(buf, info, pixels.drop_last()), info, pixels.last().0, pixels.last().1)
    }
}

/// The pixel bytes of the last visible pixel come after those of every
/// visible pixel, and its row index bounds theirs.
pub proof fn lemma_last_pixel_bounds(info: FrameBufferInfo, p: Position)
    requires
        info.in_bounds(p),
    ensures
        0 <= info.pixel_index(p.x as int, p.y as int) <= info.pixel_index(
            info.width - 1,
            info.height - 1,
        ),
        0 <= info.byte_offset(p) <= info.offset_of(info.width - 1, info.height - 1),
{
    let s = info.stride as int;
    let b = info.bytes_per_pixel as int;
    let x = p.x as int;
    let y = p.y as int;
    let w = info.width - 1;
    let h = info.height - 1;
    assert(0 <= y * s <= h * s) by (nonlinear_arith)
        requires
            0 <= y <= h,
            0 <= s,
    ;
    assert(0 <= (y * s + x) * b <= (h * s + w) * b) by (nonlinear_arith)
        requires
            0 <= y * s + x <= h * s + w,
            0 <= b,
    ;
}

/// On a layout that fits the buffer, every visible pixel is addressable.
pub proof fn lemma_fits_addressable(info: FrameBufferInfo, len: nat, p: Position)
    requires
        info.fits(len),
        info.in_bounds(p),
    ensures
        info.addressable(p, len),
{
    lemma_last_pixel_bounds(info, p);
}

/// Writes the bytes of `color` for `position` into the framebuffer, at
/// `(y * stride + x) * bytes_per_pixel`, without checking the position
/// against the visible size. Fails, and writes nothing, where the format
/// has no encoding here.
pub fn set_pixel_in(framebuffer: &mut FrameBuffer, position: Position, color: Color) -> (r: Result<
    (),
    UnsupportedPixelFormat,
>)
    requires
        is_supported(old(framebuffer).info.pixel_format) ==> old(framebuffer).info.addressable(
            position,
            old(framebuffer).buffer@.len(),
        ),
    ensures
        final(framebuffer).info == old(framebuffer).info,
        r is Ok <==> is_supported(old(framebuffer).info.pixel_format),
        r is Ok ==> final(framebuffer).buffer@ == write_at(
            old(framebuffer).buffer@,
            old(framebuffer).info.byte_offset(position),
            encode(old(framebuffer).info.pixel_format, color),
        ),
        r matches Err(e) ==> e.format == old(framebuffer).info.pixel_format
            && final(framebuffer).buffer@ == old(framebuffer).buffer@,
{
    let info = framebuffer.info;
    match info.pixel_format {
        PixelFormat::Unknown { .. } => {
            return Err(UnsupportedPixelFormat { format: info.pixel_format });
        },
        _ => {},
    }
    assert(info == old(framebuffer).info && is_supported(info.pixel_format));
    let index = position.y * info.stride + position.x;
    let len = framebuffer.buffer.len();
    let byte_offset = index * info.bytes_per_pixel;
    let ghost before = framebuffer.buffer@;
    proof {
        lemma_encode_len(info.pixel_format, color);
    }
    match info.pixel_format {
        PixelFormat::Rgb => {
            framebuffer.buffer[byte_offset] = color.red;
            framebuffer.buffer[byte_offset + 1] = color.green;
            framebuffer.buffer[byte_offset + 2] = color.blue;
        },
        PixelFormat::Bgr => {
            framebuffer.buffer[byte_offset] = color.blue;
            framebuffer.buffer[byte_offset + 1] = color.green;
            framebuffer.buffer[byte_offset + 2] = color.red;
        },
        _ => {
            // simple greyscale transform
            framebuffer.buffer[byte_offset] = color.red / 3 + color.green / 3 + color.blue / 3;
        },
    }
    assert(framebuffer.buffer@ =~= write_at(before, byte_offset as int, encode(info.pixel_format, color)));
    Ok(())
}

} // verus!
