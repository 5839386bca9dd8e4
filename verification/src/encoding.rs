//! Bytes as text.
use vstd::prelude::*;
use base64::alphabet::STANDARD;
use base64::engine::general_purpose::{GeneralPurpose, PAD};
use base64::Engine;
use vstd::arithmetic::power::pow;

verus! {

/// The bytes that a Base58 text stands for, in the alphabet of Bitcoin, where it stands for any.
pub uninterp spec fn base58_decoded(text: Seq<char>) -> Option<Seq<u8>>;

/// The Base58 text of bytes, in the alphabet of Bitcoin.
pub uninterp spec fn base58_encoded(bytes: Seq<u8>) -> Seq<char>;

/// `bs58::decode(..).into_vec()`: the decoded bytes, which have the name `base58_decoded`.
#[verifier::external_body]
pub(crate) fn base58_decode(text: &str) -> (r: Option<Vec<u8>>)
    ensures
        match r {
            Some(bytes) => base58_decoded(text@) == Some(bytes@),
            None => base58_decoded(text@) is None,
        },
{
    bs58::decode(text).into_vec().ok()
}

/// `bs58::encode(..).into_string()`: the encoded text, which has the name `base58_encoded`. It
/// decodes to the bytes that it was made of.
#[verifier::external_body]
pub(crate) fn base58_encode(bytes: &Vec<u8>) -> (r: String)
    requires
        bytes@.len() <= usize::MAX / 4,
    ensures
        r@ == base58_encoded(bytes@),
        base58_decoded(r@) == Some(bytes@),
{
    bs58::encode(bytes).into_string()
}

/// The bytes that a padded Base64 text stands for, in the standard alphabet, where it stands for
/// any.
pub uninterp spec fn base64_decoded(text: Seq<char>) -> Option<Seq<u8>>;

/// The padded Base64 text of bytes, in the standard alphabet.
pub uninterp spec fn base64_encoded(bytes: Seq<u8>) -> Seq<char>;

/// `base64::Engine::decode` of the general engine with the standard alphabet and padding: the
/// decoded bytes, which have the name `base64_decoded`.
#[verifier::external_body]
pub(crate) fn base64_decode(text: &str) -> (r: Option<Vec<u8>>)
    ensures
        match r {
            Some(bytes) => base64_decoded(text@) == Some(bytes@),
            None => base64_decoded(text@) is None,
        },
{
    let engine = GeneralPurpose::new(&STANDARD, PAD);
    engine.decode(text.as_bytes()).ok()
}

/// `base64::Engine::encode` of the same engine: the encoded text, which has the name
/// `base64_encoded`. It decodes to the bytes that it was made of.
#[verifier::external_body]
pub(crate) fn base64_encode(bytes: &Vec<u8>) -> (r: String)
    requires
        bytes@.len() <= usize::MAX / 4,
    ensures
        r@ == base64_encoded(bytes@),
        base64_decoded(r@) == Some(bytes@),
{
    let engine = GeneralPurpose::new(&STANDARD, PAD);
    engine.encode(bytes)
}

/// `image::ImageFormat`: the format of an image.
#[verifier::external_type_specification]
#[verifier::external_body]
pub struct ExImageFormat(image::ImageFormat);

/// The format of an image, guessed from the bytes that it begins with.
pub uninterp spec fn guessed_format(bytes: Seq<u8>) -> Option<image::ImageFormat>;

/// `image::guess_format`: the format whose signature the bytes begin with, which has the name
/// `guessed_format`.
#[verifier::external_body]
fn guess_format(bytes: &Vec<u8>) -> (r: Option<image::ImageFormat>)
    ensures
        r == guessed_format(bytes@),
{
    image::guess_format(bytes).ok()
}

/// The media type of a format.
pub uninterp spec fn format_media_type(format: image::ImageFormat) -> Seq<char>;

/// `ImageFormat::to_mime_type`: the media type of a format, which has the name
/// `format_media_type`.
#[verifier::external_body]
fn to_mime_type(format: image::ImageFormat) -> (r: String)
    ensures
        r@ == format_media_type(format),
{
    format.to_mime_type().to_owned()
}

/// The media type of an image, guessed from the bytes that it begins with.
pub open spec fn guessed_media_type(bytes: Seq<u8>) -> Option<Seq<char>> {
    match guessed_format(bytes) {
        Some(format) => Some(format_media_type(format)),
        None => None,
    }
}

/// The media type of an image, guessed from the bytes that it begins with.
pub(crate) fn guess_media_type(bytes: &Vec<u8>) -> (r: Option<String>)
    ensures
        match r {
            Some(mime) => guessed_media_type(bytes@) == Some(mime@),
            None => guessed_media_type(bytes@) is None,
        },
{
    match guess_format(bytes) {
        Some(format) => Some(to_mime_type(format)),
        None => None,
    }
}

/// The identifier that a text stands for, where it stands for one.
pub uninterp spec fn parsed_uuid(text: Seq<char>) -> Option<u128>;

/// A hexadecimal digit, in lower case.
pub open spec fn hex_digit(n: int) -> char {
    if n < 10 {
        (n + 48) as u8 as char
    } else {
        (n + 87) as u8 as char
    }
}

/// The hyphenated text of an identifier: its 32 hexadecimal digits, the highest first, with a hyphen
/// behind the 8th, the 12th, the 16th and the 20th.
pub open spec fn uuid_text(id: u128) -> Seq<char> {
    let digits = Seq::new(
        32,
        |i: int| hex_digit((id as int / pow(16, (31 - i) as nat)) % 16),
    );
    digits.subrange(0, 8) + seq!['-'] + digits.subrange(8, 12) + seq!['-'] + digits.subrange(12, 16)
        + seq!['-'] + digits.subrange(16, 20) + seq!['-'] + digits.subrange(20, 32)
}

/// `uuid::Uuid::parse_str`: the parsed identifier, which has the name `parsed_uuid`.
#[verifier::external_body]
pub(crate) fn parse_uuid(text: &str) -> (r: Option<u128>)
    ensures
        r == parsed_uuid(text@),
{
    uuid::Uuid::parse_str(text).ok().map(|id| id.as_u128())
}

/// `uuid::Uuid::to_string`: the hyphenated text of an identifier, in lower case. It parses to the
/// identifier that it was made of.
#[verifier::external_body]
pub(crate) fn write_uuid(id: u128) -> (r: String)
    ensures
        r@ == uuid_text(id),
        parsed_uuid(r@) == Some(id),
{
    uuid::Uuid::from_u128(id).to_string()
}

} // verus!
