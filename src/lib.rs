//! Framebuffer capture decoding, region extraction for a QR decoder, change detection and
//! poll pacing, with their contracts proved.

pub mod decode;
pub mod image;
pub mod pixel_format;
pub mod poll;
pub mod redact;
