//! Media: the generated illustration's bytes, and the file a voice capture
//! is recorded to.
use vstd::prelude::*;

use crate::json::{image_payload, image_payload_of, Json};
use crate::text::{decimal, decimal_string, push_str};

verus! {

#[verifier::external_type_specification]
#[verifier::external_body]
pub struct ExDecodeError(base64::DecodeError);

/// The bytes that standard base64 (with padding) decodes `s` to, or `None`
/// when `s` is no such encoding.
pub uninterp spec fn base64_decoded(s: Seq<char>) -> Option<Seq<u8>>;

/// `base64::engine::general_purpose::STANDARD.decode(s)`.
/// Trusted: decoding succeeds exactly for standard base64 text and gives the
/// bytes it encodes.
#[verifier::external_body]
fn base64_decode(s: &str) -> (r: Result<Vec<u8>, base64::DecodeError>)
    ensures
        r is Ok <==> base64_decoded(s@) is Some,
        r matches Ok(v) ==> base64_decoded(s@) == Some(v@),
{
    base64::Engine::decode(&base64::engine::general_purpose::STANDARD, s)
}

/// Why an image-generation response gave no image.
pub enum ImageError {
    /// The response holds no base64 image.
    NoImage,
    /// The payload is no valid base64.
    Decode(base64::DecodeError),
}

/// The image bytes in an image-generation response: the first image's
/// base64 payload, decoded.
pub fn image_bytes(resp: &Json) -> (r: Result<Vec<u8>, ImageError>)
    ensures
        image_payload_of(*resp) is None ==> r matches Err(ImageError::NoImage),
        image_payload_of(*resp) matches Some(p) ==> match base64_decoded(p) {
            Some(bytes) => r matches Ok(v) && v@ == bytes,
            None => r matches Err(ImageError::Decode(_)),
        },
{
    match image_payload(resp) {
        None => Err(ImageError::NoImage),
        Some(p) => match base64_decode(p.as_str()) {
            Ok(v) => Ok(v),
            Err(e) => Err(ImageError::Decode(e)),
        },
    }
}

#[verifier::external_type_specification]
#[verifier::external_body]
pub struct ExRandError(rand::Error);

/// `rand::RngCore::try_fill_bytes` on `rand::rngs::OsRng` with four bytes,
/// read as a little-endian `u32`.
/// Trusted: nothing is stated of the number, which comes from the operating
/// system's random source; when that source fails, its error comes back.
#[verifier::external_body]
fn os_random_u32() -> Result<u32, rand::Error> {
    let mut buf = [0u8; 4];
    match rand::RngCore::try_fill_bytes(&mut rand::rngs::OsRng, &mut buf) {
        Ok(()) => Ok(u32::from_le_bytes(buf)),
        Err(e) => Err(e),
    }
}

/// The name of the temporary file a voice capture numbered `n` is recorded to.
pub open spec fn capture_file_of(n: u32) -> Seq<char> {
    "gcli_voice_"@ + decimal(n as nat) + ".wav"@
}

/// The temporary file name for voice capture number `n`.
pub fn capture_file_name(n: u32) -> (r: String)
    ensures
        r@ == capture_file_of(n),
{
    let mut r = String::from_str("gcli_voice_");
    let d = decimal_string(n as u64);
    push_str(&mut r, d.as_str());
    push_str(&mut r, ".wav");
    r
}

/// Why no name for a voice capture could be drawn.
pub enum CaptureError {
    /// The operating system's random source failed.
    NoRandomness(rand::Error),
}

/// A temporary file name for a new voice capture, numbered at random; an
/// error when the operating system gives no random number.
pub fn fresh_capture_file_name() -> (r: Result<String, CaptureError>)
    ensures
        r matches Ok(name) ==> exists|n: u32| name@ == #[trigger] capture_file_of(n),
{
    match os_random_u32() {
        Ok(n) => Ok(capture_file_name(n)),
        Err(e) => Err(CaptureError::NoRandomness(e)),
    }
}

} // verus!
