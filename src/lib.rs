//! A framebuffer display driver: turns pixel draw requests into raw byte
//! writes whose layout (stride, bytes per pixel, channel order) comes from
//! the geometry that firmware reports.

pub mod display;
pub mod framebuffer;
pub mod laws;

pub use framebuffer::{
    set_pixel_in, Color, FrameBuffer, FrameBufferInfo, PixelFormat, Position, UnsupportedPixelFormat,
};
pub use display::{Display, DisplayError};
