use rxing::Writer;
use screen_qr::decode::{classify, decode_and_compare, decode_luma, DecodeOutcome};
use screen_qr::image::{capture_screen_and_parse, CaptureError, Image, RegionError};
use screen_qr::pixel_format::PixelFormat;
use screen_qr::poll::{keeps_polling, pace, CropRegion, ErrorPolicy, Pacing, PollError, Poller};
use screen_qr::redact::{redact, remove_all_occurrences};

fn capture(width: u32, height: u32, code: u32, pixels: &[u8]) -> Vec<u8> {
    let mut data = Vec::new();
    data.extend_from_slice(&width.to_le_bytes());
    data.extend_from_slice(&height.to_le_bytes());
    data.extend_from_slice(&code.to_le_bytes());
    data.extend_from_slice(pixels);
    data
}

#[test]
fn format_codes_resolve() {
    assert_eq!(PixelFormat::from_code(8), Some(PixelFormat::A8));
    assert_eq!(PixelFormat::from_code(7), Some(PixelFormat::RGBA4444));
    assert_eq!(PixelFormat::from_code(1), Some(PixelFormat::RGBA8888));
    assert_eq!(PixelFormat::from_code(4), Some(PixelFormat::RGB565));
    assert_eq!(PixelFormat::from_code(0), None);
    assert_eq!(PixelFormat::from_code(2), None);
    assert_eq!(PixelFormat::from_code(0xFFFF_FFFF), None);
}

#[test]
fn format_layouts() {
    assert_eq!(PixelFormat::A8.bytes_per_pixel(), 1);
    assert_eq!(PixelFormat::RGBA4444.bytes_per_pixel(), 2);
    assert_eq!(PixelFormat::RGBA8888.bytes_per_pixel(), 4);
    assert_eq!(PixelFormat::RGB565.bytes_per_pixel(), 2);
    assert_eq!(PixelFormat::A8.get_channel(0xAB), 0xAB);
    assert_eq!(PixelFormat::RGBA4444.get_channel(0xAB), 0x0B);
    assert_eq!(PixelFormat::RGBA8888.get_channel(0xAB), 0xAB);
    assert_eq!(PixelFormat::RGB565.get_channel(0xAB), 0x0B);
    assert_eq!(PixelFormat::RGB565.get_channel(0xFF), 0x1F);
    for f in [PixelFormat::A8, PixelFormat::RGBA4444, PixelFormat::RGBA8888, PixelFormat::RGB565] {
        assert_eq!(PixelFormat::from_code(f.code()), Some(f));
    }
}

#[test]
fn parse_eleven_bytes_is_too_short() {
    let data = vec![0u8; 11];
    assert!(matches!(capture_screen_and_parse(&data), Err(CaptureError::TooShort)));
    assert!(matches!(capture_screen_and_parse(&Vec::new()), Err(CaptureError::TooShort)));
}

#[test]
fn parse_unknown_format() {
    let data = capture(1, 1, 0x1234_5678, &[0]);
    assert!(matches!(
        capture_screen_and_parse(&data),
        Err(CaptureError::UnknownFormat(0x1234_5678))
    ));
}

#[test]
fn parse_round_trip() {
    let pixels: Vec<u8> = (0..24).collect();
    let data = capture(3, 4, 4, &pixels);
    let img = capture_screen_and_parse(&data).unwrap();
    assert_eq!(img.width, 3);
    assert_eq!(img.height, 4);
    assert_eq!(img.format, PixelFormat::RGB565);
    assert_eq!(img.pixels, pixels);
    assert!(img.is_well_formed());

    let big = capture(0x0102_0304, 0xA0B0_C0D0, 1, &[]);
    let img = capture_screen_and_parse(&big).unwrap();
    assert_eq!(img.width, 0x0102_0304);
    assert_eq!(img.height, 0xA0B0_C0D0);
    assert_eq!(img.format, PixelFormat::RGBA8888);
    assert!(img.pixels.is_empty());
    assert!(!img.is_well_formed());
}

#[test]
fn solid_a8_region_keeps_bytes() {
    let img = Image::new(4, 4, PixelFormat::A8, vec![0x5A; 16]);
    let luma = img.crop_luma(0, 0, 4, 4).unwrap();
    assert_eq!(luma.len(), 16);
    assert!(luma.iter().all(|b| *b == 0x5A));
}

#[test]
fn crop_picks_rows_and_columns() {
    // 4x3 image, A8, pixel value = 10 * row + col
    let pixels: Vec<u8> = (0..3u8).flat_map(|r| (0..4u8).map(move |c| 10 * r + c)).collect();
    let img = Image::new(4, 3, PixelFormat::A8, pixels);
    assert_eq!(img.crop_luma(1, 1, 2, 2).unwrap(), vec![11, 12, 21, 22]);
    assert_eq!(img.crop_luma(3, 0, 1, 3).unwrap(), vec![3, 13, 23]);
    assert_eq!(img.crop_luma(0, 2, 4, 1).unwrap(), vec![20, 21, 22, 23]);
}

#[test]
fn crop_reduces_multi_byte_pixels() {
    // 2x2 RGBA4444: low bytes 0x1F, 0x2E, 0x3D, 0x4C; high bytes 0xFF
    let img = Image::new(2, 2, PixelFormat::RGBA4444, vec![0x1F, 0xFF, 0x2E, 0xFF, 0x3D, 0xFF, 0x4C, 0xFF]);
    assert_eq!(img.crop_luma(0, 0, 2, 2).unwrap(), vec![0x0F, 0x0E, 0x0D, 0x0C]);
    assert_eq!(img.crop_luma(1, 1, 1, 1).unwrap(), vec![0x0C]);
    let img = Image::new(2, 1, PixelFormat::RGBA8888, vec![1, 2, 3, 4, 5, 6, 7, 8]);
    assert_eq!(img.crop_luma(0, 0, 2, 1).unwrap(), vec![1, 5]);
    let img = Image::new(1, 2, PixelFormat::RGB565, vec![0xE3, 0x00, 0xFF, 0x00]);
    assert_eq!(img.crop_luma(0, 0, 1, 2).unwrap(), vec![0x03, 0x1F]);
}

#[test]
fn crop_length_is_region_area() {
    let img = Image::new(7, 5, PixelFormat::RGBA8888, vec![9; 7 * 5 * 4]);
    for (x, y, w, h) in [(0, 0, 7, 5), (2, 1, 3, 4), (6, 4, 1, 1), (0, 0, 0, 5), (3, 2, 4, 0)] {
        assert_eq!(img.crop_luma(x, y, w, h).unwrap().len(), (w * h) as usize);
    }
}

#[test]
fn crop_full_image_equals_luma() {
    let pixels: Vec<u8> = (0..30).map(|i| (i * 7) as u8).collect();
    let img = Image::new(5, 3, PixelFormat::RGB565, pixels);
    assert_eq!(img.crop_luma(0, 0, 5, 3).unwrap(), img.luma().unwrap());
    assert_eq!(img.luma().unwrap().len(), 15);
}

#[test]
fn crop_errors() {
    let img = Image::new(4, 4, PixelFormat::A8, vec![0; 16]);
    assert_eq!(img.crop_luma(1, 0, 4, 1), Err(RegionError::OutOfBounds));
    assert_eq!(img.crop_luma(0, 3, 1, 2), Err(RegionError::OutOfBounds));
    assert_eq!(img.crop_luma(u32::MAX, 0, 2, 1), Err(RegionError::OutOfBounds));
    let short = Image::new(4, 4, PixelFormat::A8, vec![0; 15]);
    assert_eq!(short.crop_luma(0, 0, 1, 1), Err(RegionError::PayloadLength));
    assert_eq!(short.luma(), Err(RegionError::PayloadLength));
    let long = Image::new(2, 2, PixelFormat::RGBA8888, vec![0; 17]);
    assert_eq!(long.crop_luma(0, 0, 1, 1), Err(RegionError::PayloadLength));
}

#[test]
fn empty_region_skips_decoder() {
    assert_eq!(decode_luma(Vec::new(), 0, 5), None);
    assert_eq!(decode_luma(Vec::new(), 5, 0), None);
    assert_eq!(decode_luma(vec![0; 3], 2, 2), None);
    assert_eq!(decode_and_compare(Vec::new(), 0, 0, ""), DecodeOutcome::NoCode);
}

#[test]
fn blank_image_has_no_code() {
    assert_eq!(decode_luma(vec![255; 64 * 64], 64, 64), None);
    assert_eq!(decode_and_compare(vec![0; 32 * 32], 32, 32, "x"), DecodeOutcome::NoCode);
}

#[test]
fn classify_outcomes() {
    assert_eq!(classify(None, "a"), DecodeOutcome::NoCode);
    assert_eq!(classify(Some("a".to_string()), "a"), DecodeOutcome::Unchanged);
    assert_eq!(classify(Some("b".to_string()), "a"), DecodeOutcome::Changed("b".to_string()));
    assert_eq!(classify(Some(String::new()), ""), DecodeOutcome::Unchanged);
}

#[test]
fn dispatch_only_on_change() {
    let mut poller = Poller::new();
    let texts = ["A", "A", "B", "B", "A"];
    let mut dispatched = Vec::new();
    for (i, t) in texts.iter().enumerate() {
        let outcome = classify(Some(t.to_string()), &poller.last_payload);
        if let Some(text) = poller.observe(outcome) {
            dispatched.push((i + 1, text));
        }
    }
    assert_eq!(
        dispatched,
        vec![(1, "A".to_string()), (3, "B".to_string()), (5, "A".to_string())]
    );
    assert_eq!(poller.last_payload, "A");
}

#[test]
fn no_code_keeps_last_payload() {
    let mut poller = Poller::new();
    assert_eq!(poller.observe(DecodeOutcome::Changed("x".to_string())), Some("x".to_string()));
    assert_eq!(poller.observe(DecodeOutcome::NoCode), None);
    assert_eq!(poller.observe(DecodeOutcome::Unchanged), None);
    assert_eq!(poller.last_payload, "x");
}

#[test]
fn overrun_is_reported() {
    let ms = 1_000_000u64;
    assert_eq!(pace(100 * ms, 150 * ms), Pacing::Overrun(50 * ms));
    assert_eq!(pace(100 * ms, 30 * ms), Pacing::Sleep(70 * ms));
    assert_eq!(pace(100 * ms, 100 * ms), Pacing::Overrun(0));
}

#[test]
fn redaction_removes_substrings() {
    assert_eq!(redact("secret123", &vec!["secret".to_string()]), "123");
    assert_eq!(redact("a-b-c", &vec!["-".to_string(), "c".to_string()]), "ab");
    assert_eq!(redact("abc", &vec![]), "abc");
    assert_eq!(redact("aaa", &vec!["aa".to_string()]), "a");
    assert_eq!(redact("abcabc", &vec!["bca".to_string(), "abc".to_string()]), "");
    assert_eq!(remove_all_occurrences("xyz", ""), "xyz");
    assert_eq!(remove_all_occurrences("héllo wörld", "ö"), "héllo wrld");
    assert_eq!(remove_all_occurrences("ab", "abc"), "ab");
}

#[test]
fn poll_errors_leave_state() {
    let mut poller = Poller::new();
    let region = CropRegion { x: 0, y: 0, width: 2, height: 2 };
    assert_eq!(poller.poll(&vec![1, 2, 3], &region, &vec![]), Err(PollError::Capture(CaptureError::TooShort)));
    let data = capture(2, 2, 99, &[0; 4]);
    assert_eq!(poller.poll(&data, &region, &vec![]), Err(PollError::Capture(CaptureError::UnknownFormat(99))));
    let data = capture(2, 2, 8, &[0; 3]);
    assert_eq!(poller.poll(&data, &region, &vec![]), Err(PollError::Region(RegionError::PayloadLength)));
    let data = capture(1, 1, 8, &[0]);
    assert_eq!(poller.poll(&data, &region, &vec![]), Err(PollError::Region(RegionError::OutOfBounds)));
    assert_eq!(poller.last_payload, "");
}

#[test]
fn poll_blank_frame_dispatches_nothing() {
    let mut poller = Poller::new();
    let region = CropRegion { x: 2, y: 2, width: 40, height: 40 };
    let data = capture(50, 50, 1, &vec![255; 50 * 50 * 4]);
    assert_eq!(poller.poll(&data, &region, &vec![]), Ok(None));
    assert_eq!(poller.last_payload, "");
}

fn qr_luma(text: &str, size: i32) -> (Vec<u8>, u32, u32) {
    let matrix = rxing::qrcode::QRCodeWriter
        .encode(text, &rxing::BarcodeFormat::QR_CODE, size, size)
        .unwrap();
    let (w, h) = (matrix.getWidth(), matrix.getHeight());
    let mut luma = Vec::new();
    for y in 0..h {
        for x in 0..w {
            luma.push(if matrix.get(x, y) { 0 } else { 255 });
        }
    }
    (luma, w, h)
}

#[test]
fn decodes_qr_code() {
    let (luma, w, h) = qr_luma("hello-42", 120);
    assert_eq!(decode_luma(luma.clone(), w, h), Some("hello-42".to_string()));
    assert_eq!(
        decode_and_compare(luma.clone(), w, h, ""),
        DecodeOutcome::Changed("hello-42".to_string())
    );
    assert_eq!(decode_and_compare(luma, w, h, "hello-42"), DecodeOutcome::Unchanged);
}

#[test]
fn poll_dispatches_redacted_payload_once() {
    let (luma, w, h) = qr_luma("secret123", 120);
    // Embed the code, as RGBA8888, in a larger white frame at (10, 5).
    let (fw, fh) = (w + 20, h + 10);
    let mut pixels = vec![255u8; (fw * fh * 4) as usize];
    for y in 0..h {
        for x in 0..w {
            let v = luma[(y * w + x) as usize];
            let at = (((y + 5) * fw + x + 10) * 4) as usize;
            pixels[at] = v;
            pixels[at + 1] = v;
            pixels[at + 2] = v;
        }
    }
    let data = capture(fw, fh, 1, &pixels);
    let region = CropRegion { x: 10, y: 5, width: w, height: h };
    let subs = vec!["secret".to_string()];
    let mut poller = Poller::new();
    assert_eq!(poller.poll(&data, &region, &subs), Ok(Some("123".to_string())));
    assert_eq!(poller.last_payload, "secret123");
    assert_eq!(poller.poll(&data, &region, &subs), Ok(None));
    assert_eq!(poller.last_payload, "secret123");
}

#[test]
fn error_policy() {
    assert!(keeps_polling(ErrorPolicy::FailFast, false));
    assert!(!keeps_polling(ErrorPolicy::FailFast, true));
    assert!(keeps_polling(ErrorPolicy::Continue, false));
    assert!(keeps_polling(ErrorPolicy::Continue, true));
}
