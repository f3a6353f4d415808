use vstd::prelude::*;

verus! {

/// Pixel layouts a framebuffer capture may declare in its header.
#[derive(Clone, Copy, Debug, PartialEq, Eq, Structural)]
pub enum PixelFormat {
    A8,
    RGBA4444,
    RGBA8888,
    RGB565,
}

/// Header code of the one-byte intensity-only layout.
pub const CODE_A8: u32 = 8;
/// Header code of the two-byte layout with four-bit channels.
pub const CODE_RGBA4444: u32 = 7;
/// Header code of the four-byte layout with full-byte channels.
pub const CODE_RGBA8888: u32 = 1;
/// Header code of the two-byte layout with five- and six-bit channels.
pub const CODE_RGB565: u32 = 4;

/// The format that a header code names, if any.
pub open spec fn format_of_code(code: u32) -> Option<PixelFormat> {
    if code == CODE_A8 {
        Some(PixelFormat::A8)
    } else if code == CODE_RGBA4444 {
        Some(PixelFormat::RGBA4444)
    } else if code == CODE_RGBA8888 {
        Some(PixelFormat::RGBA8888)
    } else if code == CODE_RGB565 {
        Some(PixelFormat::RGB565)
    } else {
        None
    }
}

impl PixelFormat {
    /// The header code of this format.
    pub open spec fn code_spec(self) -> u32 {
        match self {
            PixelFormat::A8 => CODE_A8,
            PixelFormat::RGBA4444 => CODE_RGBA4444,
            PixelFormat::RGBA8888 => CODE_RGBA8888,
            PixelFormat::RGB565 => CODE_RGB565,
        }
    }

    /// Number of bytes that one pixel occupies.
    pub open spec fn bpp(self) -> u32 {
        match self {
            PixelFormat::A8 => 1,
            PixelFormat::RGBA4444 => 2,
            PixelFormat::RGBA8888 => 4,
            PixelFormat::RGB565 => 2,
        }
    }

    /// Intensity read from the low byte of a pixel.
    pub open spec fn channel(self, byte: u8) -> u8 {
        match self {
            PixelFormat::A8 => byte,
            PixelFormat::RGBA4444 => byte & 0xF,
            PixelFormat::RGBA8888 => byte,
            PixelFormat::RGB565 => byte & 0x1F,
        }
    }

    /// Resolves a header code; an unknown code gives `None`, never a default.
    pub fn from_code(code: u32) -> (r: Option<PixelFormat>)
        ensures
            r == format_of_code(code),
    {
        if code == CODE_A8 {
            Some(PixelFormat::A8)
        } else if code == CODE_RGBA4444 {
            Some(PixelFormat::RGBA4444)
        } else if code == CODE_RGBA8888 {
            Some(PixelFormat::RGBA8888)
        } else if code == CODE_RGB565 {
            Some(PixelFormat::RGB565)
        } else {
            None
        }
    }

    /// The header code of this format.
    pub fn code(&self) -> (r: u32)
        ensures
            r == self.code_spec(),
    {
        match self {
            PixelFormat::A8 => CODE_A8,
            PixelFormat::RGBA4444 => CODE_RGBA4444,
            PixelFormat::RGBA8888 => CODE_RGBA8888,
            PixelFormat::RGB565 => CODE_RGB565,
        }
    }

    /// Number of bytes that one pixel occupies.
    pub fn bytes_per_pixel(&self) -> (r: u32)
        ensures
            r == self.bpp(),
            1 <= r <= 4,
    {
        match self {
            PixelFormat::A8 => 1,
            PixelFormat::RGBA4444 => 2,
            PixelFormat::RGBA8888 => 4,
            PixelFormat::RGB565 => 2,
        }
    }

    /// Reduces the low byte of a pixel to one intensity byte.
    pub fn get_channel(&self, byte: u8) -> (r: u8)
        ensures
            r == self.channel(byte),
    {
        match self {
            PixelFormat::A8 => byte,
            PixelFormat::RGBA4444 => byte & 0xF,
            PixelFormat::RGBA8888 => byte,
            PixelFormat::RGB565 => byte & 0x1F,
        }
    }
}

/// Every format's code resolves back to that format.
pub proof fn lemma_code_round_trip(f: PixelFormat)
    ensures
        format_of_code(f.code_spec()) == Some(f),
{
}

} // verus!
