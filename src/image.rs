use vstd::prelude::*;
use vstd::arithmetic::div_mod::{lemma_fundamental_div_mod, lemma_fundamental_div_mod_converse};
use crate::pixel_format::{PixelFormat, format_of_code};

verus! {

/// Length of the capture header: width, height and format code, each a little-endian `u32`.
pub const HEADER_LEN: usize = 12;

/// Why a captured byte stream could not be turned into an image.
#[derive(Clone, Copy, Debug, PartialEq, Eq, Structural)]
pub enum CaptureError {
    /// Fewer bytes than the header needs.
    TooShort,
    /// The header names a format code that no known layout has.
    UnknownFormat(u32),
}

/// Why a region could not be extracted from an image.
#[derive(Clone, Copy, Debug, PartialEq, Eq, Structural)]
pub enum RegionError {
    /// The payload does not hold `width * height * bytes_per_pixel` bytes.
    PayloadLength,
    /// The crop region reaches past the right or bottom edge of the image.
    OutOfBounds,
}

/// A decoded framebuffer: `height` rows of `width` pixels, row-major.
pub struct Image {
    pub width: u32,
    pub height: u32,
    pub format: PixelFormat,
    pub pixels: Vec<u8>,
}

/// Mathematical model of an [`Image`].
pub struct ImageView {
    pub width: u32,
    pub height: u32,
    pub format: PixelFormat,
    pub pixels: Seq<u8>,
}

impl View for Image {
    type V = ImageView;

    open spec fn view(&self) -> ImageView {
        ImageView { width: self.width, height: self.height, format: self.format, pixels: self.pixels@ }
    }
}

/// Number of payload bytes that a well-formed image of this shape holds.
pub open spec fn payload_len(width: u32, height: u32, format: PixelFormat) -> int {
    width as int * height as int * format.bpp() as int
}

impl ImageView {
    /// The payload holds exactly one pixel group per pixel.
    pub open spec fn well_formed(self) -> bool {
        self.pixels.len() == payload_len(self.width, self.height, self.format)
    }

    /// The region `[x, x + w) × [y, y + h)` lies inside the image.
    pub open spec fn fits(self, x: u32, y: u32, w: u32, h: u32) -> bool {
        x + w <= self.width && y + h <= self.height
    }

    /// Intensity of the pixel at column `col`, row `row`.
    pub open spec fn intensity_at(self, col: int, row: int) -> u8 {
        self.format.channel(self.pixels[(row * self.width + col) * self.format.bpp()])
    }

    /// Intensities of the region `[x, x + w) × [y, y + h)`, row-major, one byte per pixel.
    pub open spec fn region_luma(self, x: u32, y: u32, w: u32, h: u32) -> Seq<u8> {
        Seq::new(
            (w * h) as nat,
            |k: int| self.intensity_at(x + k % (w as int), y + k / (w as int)),
        )
    }

    /// Outcome of cropping `[x, x + w) × [y, y + h)` and reducing it to intensities.
    pub open spec fn crop(self, x: u32, y: u32, w: u32, h: u32) -> Result<Seq<u8>, RegionError> {
        if !self.well_formed() {
            Err(RegionError::PayloadLength)
        } else if !self.fits(x, y, w, h) {
            Err(RegionError::OutOfBounds)
        } else {
            Ok(self.region_luma(x, y, w, h))
        }
    }

    /// Intensities of every pixel group of the payload, in order.
    pub open spec fn luma(self) -> Seq<u8> {
        Seq::new(
            (self.width * self.height) as nat,
            |k: int| self.format.channel(self.pixels[k * self.format.bpp()]),
        )
    }
}

/// The `u32` stored little-endian in `b[at .. at + 4]`.
pub open spec fn le_u32(b: Seq<u8>, at: int) -> u32 {
    ((b[at] as int) + 256 * (b[at + 1] as int) + 65536 * (b[at + 2] as int) + 16777216 * (
    b[at + 3] as int)) as u32
}

/// The four little-endian bytes of `v`.
pub open spec fn le_bytes(v: u32) -> Seq<u8> {
    seq![
        (v % 256) as u8,
        ((v / 256) % 256) as u8,
        ((v / 65536) % 256) as u8,
        (v / 16777216) as u8,
    ]
}

/// The byte stream that a screen capture of this image produces.
pub open spec fn capture_bytes(width: u32, height: u32, format: PixelFormat, pixels: Seq<u8>) -> Seq<
    u8,
> {
    le_bytes(width) + le_bytes(height) + le_bytes(format.code_spec()) + pixels
}

/// What a captured byte stream parses to.
pub open spec fn parsed(data: Seq<u8>) -> Result<ImageView, CaptureError> {
    if data.len() < HEADER_LEN {
        Err(CaptureError::TooShort)
    } else {
        match format_of_code(le_u32(data, 8)) {
            None => Err(CaptureError::UnknownFormat(le_u32(data, 8))),
            Some(format) => Ok(
                ImageView {
                    width: le_u32(data, 0),
                    height: le_u32(data, 4),
                    format,
                    pixels: data.subrange(HEADER_LEN as int, data.len() as int),
                },
            ),
        }
    }
}

/// The model of a parse result.
pub open spec fn parse_view(r: Result<Image, CaptureError>) -> Result<ImageView, CaptureError> {
    match r {
        Ok(img) => Ok(img@),
        Err(e) => Err(e),
    }
}

/// The model of an intensity buffer result.
pub open spec fn luma_view(r: Result<Vec<u8>, RegionError>) -> Result<Seq<u8>, RegionError> {
    match r {
        Ok(v) => Ok(v@),
        Err(e) => Err(e),
    }
}

/// Reads the little-endian `u32` at `data[at .. at + 4]`.
fn read_u32_le(data: &Vec<u8>, at: usize) -> (r: u32)
    requires
        at + 4 <= data@.len(),
    ensures
        r == le_u32(data@, at as int),
{
    let n = data.len();
    proof {
        assert(at + 4 <= n);
    }
    let b0 = data[at] as u32;
    let b1 = data[at + 1] as u32;
    let b2 = data[at + 2] as u32;
    let b3 = data[at + 3] as u32;
    b0 + 256 * b1 + 65536 * b2 + 16777216 * b3
}

/// Parses a captured byte stream: a 12-byte header (width, height, format code, each
/// little-endian) followed by the pixel payload, which is taken over verbatim.
pub fn capture_screen_and_parse(data: &Vec<u8>) -> (r: Result<Image, CaptureError>)
    ensures
        parse_view(r) == parsed(data@),
{
    if data.len() < HEADER_LEN {
        return Err(CaptureError::TooShort);
    }
    let width = read_u32_le(data, 0);
    let height = read_u32_le(data, 4);
    let code = read_u32_le(data, 8);
    let format = match PixelFormat::from_code(code) {
        Some(f) => f,
        None => {
            return Err(CaptureError::UnknownFormat(code));
        },
    };
    let mut pixels: Vec<u8> = Vec::new();
    let mut i: usize = HEADER_LEN;
    while i < data.len()
        invariant
            HEADER_LEN <= i <= data@.len(),
            pixels@ == data@.subrange(HEADER_LEN as int, i as int),
        decreases data@.len() - i,
    {
        pixels.push(data[i]);
        i = i + 1;
    }
    Ok(Image::new(width, height, format, pixels))
}

/// Bound on the byte index of a pixel inside a well-formed payload.
proof fn lemma_pixel_index(width: int, height: int, bpp: int, row: int, col: int)
    requires
        0 <= row < height,
        0 <= col < width,
        1 <= bpp,
    ensures
        0 <= (row * width + col) * bpp,
        (row * width + col) * bpp + bpp <= width * height * bpp,
{
    assert(0 <= row * width + col) by (nonlinear_arith)
        requires
            0 <= row,
            0 <= col,
            0 <= width,
    ;
    assert(row * width + col + 1 <= width * height) by (nonlinear_arith)
        requires
            0 <= row < height,
            0 <= col < width,
    ;
    assert((row * width + col) * bpp + bpp <= width * height * bpp) by (nonlinear_arith)
        requires
            row * width + col + 1 <= width * height,
            1 <= bpp,
    ;
    assert(0 <= (row * width + col) * bpp) by (nonlinear_arith)
        requires
            0 <= row * width + col,
            1 <= bpp,
    ;
}

impl Image {
    pub fn new(width: u32, height: u32, format: PixelFormat, pixels: Vec<u8>) -> (r: Image)
        ensures
            r@ == (ImageView { width, height, format, pixels: pixels@ }),
    {
        Image { width, height, format, pixels }
    }

    /// Checks that the payload length matches `width * height * bytes_per_pixel`.
    pub fn is_well_formed(&self) -> (r: bool)
        ensures
            r == self@.well_formed(),
    {
        let bpp = self.format.bytes_per_pixel();
        proof {
            assert(self.width as int * self.height as int <= 0xffff_ffff_ffff_ffff_ffff_ffff_ffff_ffffu128) by (nonlinear_arith)
                requires
                    self.width <= 0xffff_ffff,
                    self.height <= 0xffff_ffff,
            ;
        }
        let wh: u128 = (self.width as u128) * (self.height as u128);
        proof {
            assert(wh * bpp <= 0xffff_ffff_ffff_ffff_ffff_ffff_ffff_ffffu128) by (nonlinear_arith)
                requires
                    wh == self.width as int * self.height as int,
                    self.width <= 0xffff_ffff,
                    self.height <= 0xffff_ffff,
                    bpp <= 4,
            ;
        }
        let total: u128 = wh * (bpp as u128);
        self.pixels.len() as u128 == total
    }

    /// Crops the region `[x, x + width) × [y, y + height)` and reduces each of its pixels
    /// to one intensity byte, row-major: the buffer handed to the barcode decoder.
    pub fn crop_luma(&self, x: u32, y: u32, width: u32, height: u32) -> (r: Result<
        Vec<u8>,
        RegionError,
    >)
        ensures
            luma_view(r) == self@.crop(x, y, width, height),
            r matches Ok(v) ==> v@.len() == width * height,
    {
        if !self.is_well_formed() {
            return Err(RegionError::PayloadLength);
        }
        if x as u64 + width as u64 > self.width as u64 || y as u64 + height as u64
            > self.height as u64 {
            return Err(RegionError::OutOfBounds);
        }
        let bpp = self.format.bytes_per_pixel() as usize;
        let image_width = self.width as usize;
        let ghost img = self@;
        let len: usize = self.pixels.len();
        let mut out: Vec<u8> = Vec::new();
        let mut r: usize = 0;
        while r < height as usize
            invariant
                img == self@,
                img.well_formed(),
                img.fits(x, y, width, height),
                len == img.pixels.len(),
                bpp == img.format.bpp(),
                image_width == img.width,
                r <= height,
                out@.len() == r * width,
                forall|k: int|
                    0 <= k < out@.len() ==> #[trigger] out@[k] == img.region_luma(
                        x,
                        y,
                        width,
                        height,
                    )[k],
            decreases height - r,
        {
            let mut c: usize = 0;
            while c < width as usize
                invariant
                    img == self@,
                    img.well_formed(),
                    img.fits(x, y, width, height),
                    len == img.pixels.len(),
                    bpp == img.format.bpp(),
                    image_width == img.width,
                    r < height,
                    c <= width,
                    out@.len() == r * width + c,
                    forall|k: int|
                        0 <= k < out@.len() ==> #[trigger] out@[k] == img.region_luma(
                            x,
                            y,
                            width,
                            height,
                        )[k],
                decreases width - c,
            {
                proof {
                    lemma_pixel_index(
                        img.width as int,
                        img.height as int,
                        bpp as int,
                        y + r,
                        x + c,
                    );
                    let k = r * width + c;
                    lemma_fundamental_div_mod_converse(k, width as int, r as int, c as int);
                    assert(k < width * height) by (nonlinear_arith)
                        requires
                            k == r * width + c,
                            c < width,
                            r < height,
                    ;
                }
                let idx: usize = ((y as usize + r) * image_width + x as usize + c) * bpp;
                out.push(self.format.get_channel(self.pixels[idx]));
                c = c + 1;
            }
            proof {
                assert(out@.len() == (r + 1) * width) by (nonlinear_arith)
                    requires
                        out@.len() == r * width + width,
                ;
            }
            r = r + 1;
        }
        proof {
            assert(out@.len() == width * height) by (nonlinear_arith)
                requires
                    out@.len() == r * width,
                    r == height,
            ;
            assert(out@ =~= img.region_luma(x, y, width, height));
        }
        Ok(out)
    }

    /// Reduces every pixel of the image to one intensity byte, in payload order.
    pub fn luma(&self) -> (r: Result<Vec<u8>, RegionError>)
        ensures
            luma_view(r) == (if self@.well_formed() {
                Ok::<Seq<u8>, RegionError>(self@.luma())
            } else {
                Err(RegionError::PayloadLength)
            }),
    {
        if !self.is_well_formed() {
            return Err(RegionError::PayloadLength);
        }
        let bpp = self.format.bytes_per_pixel() as usize;
        let len: usize = self.pixels.len();
        let count: usize = len / bpp;
        let ghost img = self@;
        proof {
            assert(count == img.width * img.height) by (nonlinear_arith)
                requires
                    img.pixels.len() == img.width as int * img.height as int * bpp,
                    bpp >= 1,
                    count == img.pixels.len() as int / bpp as int,
            ;
        }
        let mut out: Vec<u8> = Vec::new();
        let mut k: usize = 0;
        while k < count
            invariant
                img == self@,
                img.well_formed(),
                bpp == img.format.bpp(),
                count == img.width * img.height,
                len == img.pixels.len(),
                k <= count,
                out@.len() == k,
                forall|i: int| 0 <= i < k ==> #[trigger] out@[i] == img.luma()[i],
            decreases count - k,
        {
            proof {
                assert(k * bpp + bpp <= count * bpp) by (nonlinear_arith)
                    requires
                        k < count,
                ;
                assert(count * bpp == len) by (nonlinear_arith)
                    requires
                        count == img.width * img.height,
                        len == img.width as int * img.height as int * bpp,
                ;
            }
            out.push(self.format.get_channel(self.pixels[k * bpp]));
            k = k + 1;
        }
        proof {
            assert(out@ =~= img.luma());
        }
        Ok(out)
    }
}

/// Parsing the capture of an image gives that image back: width, height, format and
/// payload are read as they were written.
pub proof fn lemma_parse_round_trip(width: u32, height: u32, format: PixelFormat, pixels: Seq<u8>)
    requires
        pixels.len() == payload_len(width, height, format),
    ensures
        parsed(capture_bytes(width, height, format, pixels)) == Ok::<ImageView, CaptureError>(
            ImageView { width, height, format, pixels },
        ),
{
    let data = capture_bytes(width, height, format, pixels);
    lemma_le_round_trip(width);
    lemma_le_round_trip(height);
    lemma_le_round_trip(format.code_spec());
    assert(le_u32(data, 0) == width);
    assert(le_u32(data, 4) == height);
    assert(le_u32(data, 8) == format.code_spec());
    assert(data.subrange(HEADER_LEN as int, data.len() as int) =~= pixels);
}

/// Reading back the little-endian bytes of `v` gives `v`.
pub proof fn lemma_le_round_trip(v: u32)
    ensures
        le_u32(le_bytes(v), 0) == v,
{
    let b = le_bytes(v);
    assert(v == (v % 256) + 256 * ((v / 256) % 256) + 65536 * ((v / 65536) % 256) + 16777216 * (v
        / 16777216)) by (nonlinear_arith);
}

/// Cropping the whole image gives the same intensities as reducing the whole image.
pub proof fn lemma_full_crop_is_luma(img: ImageView)
    ensures
        img.region_luma(0, 0, img.width, img.height) == img.luma(),
{
    let a = img.region_luma(0, 0, img.width, img.height);
    let b = img.luma();
    assert forall|k: int| 0 <= k < a.len() implies a[k] == b[k] by {
        assert(img.width != 0) by (nonlinear_arith)
            requires
                0 <= k < img.width as int * img.height as int,
        ;
        lemma_fundamental_div_mod(k, img.width as int);
        assert((k / img.width as int) * img.width + k % (img.width as int) == k);
    }
    assert(a =~= b);
}

} // verus!
