use kernel_fb::{
    set_pixel_in, Color, Display, DisplayError, FrameBuffer, FrameBufferInfo, PixelFormat,
    Position, UnsupportedPixelFormat,
};

fn info(
    width: usize,
    height: usize,
    stride: usize,
    bytes_per_pixel: usize,
    pixel_format: PixelFormat,
) -> FrameBufferInfo {
    FrameBufferInfo {
        byte_len: stride * height * bytes_per_pixel,
        width,
        height,
        pixel_format,
        bytes_per_pixel,
        stride,
    }
}

fn display(info: FrameBufferInfo) -> Display {
    let buffer = vec![0u8; info.byte_len];
    Display::try_new(FrameBuffer { buffer, info }).unwrap()
}

fn pos(x: usize, y: usize) -> Position {
    Position { x, y }
}

fn color(red: u8, green: u8, blue: u8) -> Color {
    Color { red, green, blue }
}

#[test]
fn rgb_pixel_dropped_out_of_bounds() {
    let mut d = display(info(2, 1, 2, 3, PixelFormat::Rgb));
    d.draw_iter(&[(pos(0, 0), color(255, 0, 0)), (pos(5, 0), color(0, 255, 0))]);
    assert_eq!(d.buffer(), &[255, 0, 0, 0, 0, 0]);
}

#[test]
fn greyscale_nine() {
    let mut d = display(info(2, 1, 2, 1, PixelFormat::U8));
    d.draw_iter(&[(pos(0, 0), color(9, 9, 9))]);
    assert_eq!(d.buffer(), &[9, 0]);
}

#[test]
fn greyscale_divides_each_channel_first() {
    let mut d = display(info(1, 1, 1, 1, PixelFormat::U8));
    d.draw_pixel(pos(0, 0), color(2, 2, 2));
    assert_eq!(d.buffer(), &[0]);
    d.draw_pixel(pos(0, 0), color(255, 255, 255));
    assert_eq!(d.buffer(), &[255]);
    d.draw_pixel(pos(0, 0), color(10, 20, 30));
    assert_eq!(d.buffer(), &[3 + 6 + 10]);
}

#[test]
fn rgb_reads_back_at_offset() {
    let mut d = display(info(3, 2, 4, 3, PixelFormat::Rgb));
    d.draw_pixel(pos(2, 1), color(1, 2, 3));
    let off = (1 * 4 + 2) * 3;
    assert_eq!(&d.buffer()[off..off + 3], &[1, 2, 3]);
    assert_eq!(d.buffer().iter().filter(|b| **b != 0).count(), 3);
}

#[test]
fn bgr_reverses_channels() {
    let mut d = display(info(2, 2, 2, 4, PixelFormat::Bgr));
    d.draw_pixel(pos(1, 1), color(10, 20, 30));
    let off = (1 * 2 + 1) * 4;
    assert_eq!(&d.buffer()[off..off + 4], &[30, 20, 10, 0]);
}

#[test]
fn out_of_bounds_leaves_buffer() {
    let mut d = display(info(2, 2, 3, 3, PixelFormat::Rgb));
    let before = d.buffer().to_vec();
    d.draw_pixel(pos(2, 0), color(1, 1, 1));
    d.draw_pixel(pos(0, 2), color(1, 1, 1));
    d.draw_pixel(pos(usize::MAX, usize::MAX), color(1, 1, 1));
    assert_eq!(d.buffer(), &before[..]);
}

#[test]
fn drawing_twice_equals_once() {
    let mut once = display(info(2, 2, 2, 3, PixelFormat::Rgb));
    let mut twice = display(info(2, 2, 2, 3, PixelFormat::Rgb));
    once.draw_iter(&[(pos(1, 0), color(7, 8, 9))]);
    twice.draw_iter(&[(pos(1, 0), color(7, 8, 9)), (pos(1, 0), color(7, 8, 9))]);
    assert_eq!(once.buffer(), twice.buffer());
}

#[test]
fn later_color_wins() {
    let mut d = display(info(2, 2, 2, 3, PixelFormat::Bgr));
    d.draw_iter(&[(pos(0, 1), color(1, 2, 3)), (pos(0, 1), color(4, 5, 6))]);
    assert_eq!(&d.buffer()[6..9], &[6, 5, 4]);
}

#[test]
fn second_row_starts_at_stride() {
    let mut d = display(info(2, 2, 5, 3, PixelFormat::Rgb));
    d.draw_pixel(pos(0, 1), color(11, 12, 13));
    assert_eq!(&d.buffer()[15..18], &[11, 12, 13]);
    assert_eq!(&d.buffer()[6..9], &[0, 0, 0]);
}

#[test]
fn size_is_visible_dimensions() {
    let d = display(info(640, 3, 700, 1, PixelFormat::U8));
    assert_eq!(d.size(), (640, 3));
    assert_eq!(d.info().stride, 700);
}

#[test]
fn unknown_format_is_rejected() {
    let format = PixelFormat::Unknown { red_position: 0, green_position: 8, blue_position: 16 };
    let i = info(2, 2, 2, 4, format);
    let r = Display::try_new(FrameBuffer { buffer: vec![0; 16], info: i });
    assert!(matches!(r, Err(DisplayError::UnsupportedPixelFormat(f)) if f == format));
}

#[test]
fn short_buffer_is_rejected() {
    let i = info(2, 2, 2, 3, PixelFormat::Rgb);
    let r = Display::try_new(FrameBuffer { buffer: vec![0; 11], info: i });
    assert!(matches!(r, Err(DisplayError::BufferTooSmall)));
    let r = Display::try_new(FrameBuffer { buffer: vec![0; 12], info: i });
    assert!(r.is_ok());
}

#[test]
fn overflowing_geometry_is_rejected() {
    let i = info(2, 2, usize::MAX, 3, PixelFormat::Rgb);
    let r = Display::try_new(FrameBuffer { buffer: vec![0; 12], info: FrameBufferInfo { byte_len: 12, ..i } });
    assert!(matches!(r, Err(DisplayError::BufferTooSmall)));
}

#[test]
fn empty_canvas_accepts_empty_buffer() {
    let i = info(0, 0, 0, 3, PixelFormat::Rgb);
    let mut d = Display::try_new(FrameBuffer { buffer: Vec::new(), info: i }).unwrap();
    d.draw_pixel(pos(0, 0), color(1, 2, 3));
    assert!(d.buffer().is_empty());
}

#[test]
fn new_keeps_buffer() {
    let i = info(1, 1, 1, 3, PixelFormat::Rgb);
    let d = Display::new(FrameBuffer { buffer: vec![4, 5, 6], info: i });
    assert_eq!(d.buffer(), &[4, 5, 6]);
}

#[test]
fn set_pixel_in_writes_without_bounds_check() {
    let i = info(1, 1, 1, 3, PixelFormat::Rgb);
    let mut fb = FrameBuffer { buffer: vec![0; 6], info: i };
    assert_eq!(set_pixel_in(&mut fb, pos(1, 0), color(1, 2, 3)), Ok(()));
    assert_eq!(fb.buffer, vec![0, 0, 0, 1, 2, 3]);
}

#[test]
fn set_pixel_in_unknown_format_fails() {
    let format = PixelFormat::Unknown { red_position: 1, green_position: 2, blue_position: 3 };
    let mut fb = FrameBuffer { buffer: vec![0; 3], info: info(1, 1, 1, 3, format) };
    assert_eq!(
        set_pixel_in(&mut fb, pos(0, 0), color(1, 2, 3)),
        Err(UnsupportedPixelFormat { format })
    );
    assert_eq!(fb.buffer, vec![0, 0, 0]);
}
