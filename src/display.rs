//! The display: sole owner of a framebuffer, which drops pixels outside the
//! visible canvas and writes the others.

use vstd::prelude::*;

use crate::framebuffer::{
    draw_all, is_supported, lemma_encode_len, lemma_fits_addressable,
    put_pixel, set_pixel_in, channel_count, encode, Color, FrameBuffer, FrameBufferInfo, PixelFormat,
    Position,
};

verus! {

/// Why a framebuffer cannot back a display.
#[derive(Clone, Copy, Debug, PartialEq, Eq, Structural)]
pub enum DisplayError {
    /// The reported pixel format has no encoding here.
    UnsupportedPixelFormat(PixelFormat),
    /// Some visible pixel lies past the end of the buffer, or its address
    /// does not fit in a machine word.
    BufferTooSmall,
}

/// Exclusive owner of a framebuffer; all writes into it go through here.
pub struct Display {
    framebuffer: FrameBuffer,
}

impl View for Display {
    type V = Seq<u8>;

    /// The bytes of the framebuffer.
    closed spec fn view(&self) -> Seq<u8> {
        self.framebuffer.buffer@
    }
}

impl Display {
    /// The layout of the framebuffer.
    pub closed spec fn layout(&self) -> FrameBufferInfo {
        self.framebuffer.info
    }

    /// The layout can be written and every visible pixel lies in the buffer.
    pub open spec fn wf(&self) -> bool {
        self.layout().fits(self@.len())
    }

    /// Takes ownership of a framebuffer whose layout fits its buffer.
    pub fn new(framebuffer: FrameBuffer) -> (r: Display)
        requires
            framebuffer.info.fits(framebuffer.buffer@.len()),
        ensures
            r.wf(),
            r@ == framebuffer.buffer@,
            r.layout() == framebuffer.info,
    {
        Display { framebuffer }
    }

    /// Checks that a framebuffer's layout fits its buffer, then takes it.
    pub fn try_new(framebuffer: FrameBuffer) -> (r: Result<Display, DisplayError>)
        ensures
            r matches Ok(d) ==> d.wf() && d@ == framebuffer.buffer@ && d.layout()
                == framebuffer.info,
            r is Ok <==> framebuffer.info.fits(framebuffer.buffer@.len()),
            r matches Err(e) ==> e == if is_supported(framebuffer.info.pixel_format) {
                DisplayError::BufferTooSmall
            } else {
                DisplayError::UnsupportedPixelFormat(framebuffer.info.pixel_format)
            },
    {
        let info = framebuffer.info;
        let len = framebuffer.buffer.len();
        let channels: usize = match info.pixel_format {
            PixelFormat::Rgb | PixelFormat::Bgr => 3,
            PixelFormat::U8 => 1,
            PixelFormat::Unknown { .. } => {
                return Err(DisplayError::UnsupportedPixelFormat(info.pixel_format));
            },
        };
        if info.width == 0 || info.height == 0 {
            return Ok(Display { framebuffer });
        }
        let ghost index = info.pixel_index(info.width - 1, info.height - 1);
        let ghost b = info.bytes_per_pixel as int;
        proof {
            let h = info.height - 1;
            let s = info.stride as int;
            assert(0 <= h * s) by (nonlinear_arith)
                requires
                    0 <= h,
                    0 <= s,
            ;
            assert(0 <= index * b) by (nonlinear_arith)
                requires
                    0 <= index,
                    0 <= b,
            ;
        }
        let row = match (info.height - 1).checked_mul(info.stride) {
            Some(row) => row,
            None => {
                return Err(DisplayError::BufferTooSmall);
            },
        };
        let last = match row.checked_add(info.width - 1) {
            Some(last) => last,
            None => {
                return Err(DisplayError::BufferTooSmall);
            },
        };
        assert(last as int == index);
        let offset = match last.checked_mul(info.bytes_per_pixel) {
            Some(offset) => offset,
            None => {
                return Err(DisplayError::BufferTooSmall);
            },
        };
        let end = match offset.checked_add(channels) {
            Some(end) => end,
            None => {
                return Err(DisplayError::BufferTooSmall);
            },
        };
        assert(end as int == info.offset_of(info.width - 1, info.height - 1) + channel_count(
            info.pixel_format,
        ));
        if end <= len {
            Ok(Display { framebuffer })
        } else {
            Err(DisplayError::BufferTooSmall)
        }
    }

    /// The visible width and height in pixels.
    pub fn size(&self) -> (r: (usize, usize))
        ensures
            r == (self.layout().width, self.layout().height),
    {
        (self.framebuffer.info.width, self.framebuffer.info.height)
    }

    /// The layout of the framebuffer.
    pub fn info(&self) -> (r: FrameBufferInfo)
        ensures
            r == self.layout(),
    {
        self.framebuffer.info
    }

    /// The bytes of the framebuffer, to read.
    pub fn buffer(&self) -> (r: &[u8])
        ensures
            r@ == self@,
    {
        self.framebuffer.buffer.as_slice()
    }

    /// Draws one pixel: writes the color's bytes at the position's offset
    /// where the position is visible, and does nothing otherwise.
    pub fn draw_pixel(&mut self, position: Position, color: Color)
        requires
            old(self).wf(),
        ensures
            final(self).wf(),
            final(self).layout() == old(self).layout(),
            final(self)@ == put_pixel(old(self)@, old(self).layout(), position, color),
            final(self)@.len() == old(self)@.len(),
            old(self).layout().in_bounds(position) ==> {
                let off = old(self).layout().byte_offset(position);
                let bytes = encode(old(self).layout().pixel_format, color);
                &&& off + bytes.len() <= old(self)@.len()
                &&& final(self)@.subrange(off, off + bytes.len()) == bytes
                &&& forall|i: int|
                    0 <= i < old(self)@.len() && !(off <= i < off + bytes.len()) ==> final(self)@[i]
                        == old(self)@[i]
            },
            !old(self).layout().in_bounds(position) ==> final(self)@ == old(self)@,
    {
        let width = self.framebuffer.info.width;
        let height = self.framebuffer.info.height;
        if position.x < width && position.y < height {
            proof {
                lemma_fits_addressable(self.layout(), self@.len(), position);
                lemma_encode_len(self.layout().pixel_format, color);
            }
            let ghost before = self@;
            let r = set_pixel_in(&mut self.framebuffer, position, color);
            assert(r is Ok);
            assert(self@.subrange(
                self.layout().byte_offset(position),
                self.layout().byte_offset(position) + channel_count(self.layout().pixel_format),
            ) =~= encode(self.layout().pixel_format, color));
        }
    }

    /// Draws the pixels one after another, in order; a later pixel at the
    /// same position overwrites an earlier one.
    pub fn draw_iter(&mut self, pixels: &[(Position, Color)])
        requires
            old(self).wf(),
        ensures
            final(self).wf(),
            final(self).layout() == old(self).layout(),
            final(self)@ == draw_all(old(self)@, old(self).layout(), pixels@),
    {
        let ghost start = self@;
        let mut i: usize = 0;
        while i < pixels.len()
            invariant
                self.wf(),
                self.layout() == old(self).layout(),
                start == old(self)@,
                i <= pixels@.len(),
                self@ == draw_all(start, self.layout(), pixels@.subrange(0, i as int)),
            decreases pixels@.len() - i,
        {
            let (position, color) = pixels[i];
            proof {
                assert(pixels@.subrange(0, i + 1).drop_last() =~= pixels@.subrange(0, i as int));
            }
            self.draw_pixel(position, color);
            i = i + 1;
        }
        assert(pixels@.subrange(0, pixels@.len() as int) =~= pixels@);
    }
}

} // verus!
