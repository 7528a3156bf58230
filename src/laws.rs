//! Laws relating several draws on one buffer.

use vstd::prelude::*;

use crate::framebuffer::{
    draw_all, encode, lemma_encode_len, put_pixel, Color, FrameBufferInfo, Position,
};

verus! {

/// Drawing the same pixel twice in a row leaves the buffer as drawing it once.
pub proof fn lemma_draw_twice_same(buf: Seq<u8>, info: FrameBufferInfo, p: Position, c: Color)
    ensures
        draw_all(buf, info, seq![(p, c), (p, c)]) == draw_all(buf, info, seq![(p, c)]),
{
    let once = seq![(p, c)];
    let twice = seq![(p, c), (p, c)];
    assert(twice.drop_last() =~= once);
    assert(once.drop_last() =~= Seq::<(Position, Color)>::empty());
    let b1 = put_pixel(buf, info, p, c);
    assert(put_pixel(b1, info, p, c) =~= b1);
}

/// Of two draws at one position, the later color is all that remains.
pub proof fn lemma_last_write_wins(
    buf: Seq<u8>,
    info: FrameBufferInfo,
    p: Position,
    first: Color,
    second: Color,
)
    ensures
        draw_all(buf, info, seq![(p, first), (p, second)]) == draw_all(buf, info, seq![(p, second)]),
{
    let both = seq![(p, first), (p, second)];
    assert(both.drop_last() =~= seq![(p, first)]);
    assert(seq![(p, first)].drop_last() =~= Seq::<(Position, Color)>::empty());
    assert(seq![(p, second)].drop_last() =~= Seq::<(Position, Color)>::empty());
    lemma_encode_len(info.pixel_format, first);
    lemma_encode_len(info.pixel_format, second);
    assert(seq![(p, first)].last() == (p, first));
    assert(seq![(p, second)].last() == (p, second));
    assert(both.last() == (p, second));
    reveal_with_fuel(draw_all, 3);
    let b1 = put_pixel(buf, info, p, first);
    assert(draw_all(buf, info, seq![(p, first)]) == b1);
    assert(draw_all(buf, info, seq![(p, second)]) == put_pixel(buf, info, p, second));
    assert(put_pixel(b1, info, p, second) =~= put_pixel(buf, info, p, second));
}

/// On padded rows, the first pixel of the second row, where visible, starts `stride` pixels
/// into the buffer, not `width`: its bytes land there, and no byte before
/// them changes, the padding after the first row included.
pub proof fn lemma_second_row_uses_stride(buf: Seq<u8>, info: FrameBufferInfo, c: Color)
    requires
        info.fits(buf.len()),
        info.stride > info.width,
        info.in_bounds(Position { x: 0, y: 1 }),
    ensures
        ({
            let after = put_pixel(buf, info, Position { x: 0, y: 1 }, c);
            let start = info.stride * info.bytes_per_pixel;
            let bytes = encode(info.pixel_format, c);
            &&& info.byte_offset(Position { x: 0, y: 1 }) == start
            &&& start + bytes.len() <= buf.len()
            &&& after.subrange(start, start + bytes.len()) == bytes
            &&& forall|i: int| 0 <= i < start ==> after[i] == buf[i]
            &&& info.bytes_per_pixel > 0 ==> after[info.width * info.bytes_per_pixel] == buf[info.width
                * info.bytes_per_pixel]
        }),
{
    let p = Position { x: 0, y: 1 };
    let s = info.stride as int;
    let w = info.width as int;
    let b = info.bytes_per_pixel as int;
    crate::framebuffer::lemma_fits_addressable(info, buf.len(), p);
    lemma_encode_len(info.pixel_format, c);
    assert(info.pixel_index(0, 1) == s);
    if b > 0 {
        assert(0 <= w * b < s * b) by (nonlinear_arith)
            requires
                0 <= w < s,
                0 < b,
        ;
    }
    let after = put_pixel(buf, info, p, c);
    let bytes = encode(info.pixel_format, c);
    assert(after.subrange(s * b, s * b + bytes.len()) =~= bytes);
}

} // verus!
