use vstd::prelude::*;
use rxing::ImmutableReader;

verus! {

/// The text of the QR code that the decoder finds in a `width × height` single-channel
/// image, or `None` when it finds none.
pub uninterp spec fn qr_text_of(luma: Seq<u8>, width: u32, height: u32) -> Option<Seq<char>>;

/// The model of an optional decoded text.
pub open spec fn text_view(t: Option<String>) -> Option<Seq<char>> {
    match t {
        Some(s) => Some(s@),
        None => None,
    }
}

/// What decoding an intensity buffer yields: nothing for an empty image or a buffer whose
/// length does not match the dimensions, the decoder's answer otherwise.
pub open spec fn decoded_text(luma: Seq<u8>, width: u32, height: u32) -> Option<Seq<char>> {
    if width == 0 || height == 0 || luma.len() != width * height {
        None
    } else {
        qr_text_of(luma, width, height)
    }
}

/// Relies on rxing: `Luma8LuminanceSource::new` over the buffer, binarized by
/// `HybridBinarizer` into a `BinaryBitmap`, then `QRCodeReader::immutable_decode` and
/// `RXingResult::getText`. The text found depends on the buffer and dimensions alone; a
/// failed decode gives `None`.
#[verifier::external_body]
fn decode_qr(luma: Vec<u8>, width: u32, height: u32) -> (r: Option<String>)
    requires
        width > 0,
        height > 0,
        luma@.len() == width * height,
    ensures
        text_view(r) == qr_text_of(luma@, width, height),
{
    let source = match rxing::Luma8LuminanceSource::new(luma, width, height) {
        Ok(source) => source,
        Err(_) => return None,
    };
    let mut bitmap = rxing::BinaryBitmap::new(rxing::common::HybridBinarizer::new(source));
    match rxing::qrcode::QRCodeReader::default().immutable_decode(&mut bitmap) {
        Ok(result) => Some(result.getText().to_string()),
        Err(_) => None,
    }
}

/// Decodes an intensity buffer; the decoder is not called on an empty image or on a
/// buffer whose length does not match the dimensions.
pub fn decode_luma(luma: Vec<u8>, width: u32, height: u32) -> (r: Option<String>)
    ensures
        text_view(r) == decoded_text(luma@, width, height),
{
    proof {
        assert(width as int * height as int <= 0xffff_ffff_ffff_ffffu64) by (nonlinear_arith)
            requires
                width <= 0xffff_ffff,
                height <= 0xffff_ffff,
        ;
    }
    if width == 0 || height == 0 || luma.len() as u64 != width as u64 * height as u64 {
        return None;
    }
    decode_qr(luma, width, height)
}

/// Result of one decode, compared with the last known payload.
#[derive(Debug, PartialEq, Eq)]
pub enum DecodeOutcome {
    /// No code was found in the frame.
    NoCode,
    /// The code found holds the last known payload.
    Unchanged,
    /// The code found holds a new payload.
    Changed(String),
}

/// `r` is the outcome of comparing `decoded` with `last`.
pub open spec fn outcome_of(r: DecodeOutcome, decoded: Option<Seq<char>>, last: Seq<char>) -> bool {
    match decoded {
        None => r is NoCode,
        Some(t) => if t == last {
            r is Unchanged
        } else {
            match r {
                DecodeOutcome::Changed(u) => u@ == t,
                _ => false,
            }
        },
    }
}

/// Compares a decoded text with the last known payload.
pub fn classify(decoded: Option<String>, last: &str) -> (r: DecodeOutcome)
    ensures
        outcome_of(r, text_view(decoded), last@),
{
    match decoded {
        None => DecodeOutcome::NoCode,
        Some(text) => {
            let last_owned = String::from_str(last);
            if text == last_owned {
                DecodeOutcome::Unchanged
            } else {
                DecodeOutcome::Changed(text)
            }
        },
    }
}

/// Decodes an intensity buffer and compares the text found with the last known payload.
pub fn decode_and_compare(luma: Vec<u8>, width: u32, height: u32, last: &str) -> (r:
    DecodeOutcome)
    ensures
        outcome_of(r, decoded_text(luma@, width, height), last@),
{
    classify(decode_luma(luma, width, height), last)
}

} // verus!
