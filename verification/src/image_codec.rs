//! The image codec: raw RGBA pixels to and from a payload of base64-encoded PNG behind a
//! data-URI header.

use vstd::prelude::*;
use vstd::string::StringExecFns;
use crate::text::{chars_of, find_char, first_index, lemma_first_index, split, string_of};
use base64::Engine;

verus! {

/// A raster image as raw pixels: 8-bit RGBA, row-major.
#[derive(Debug, Clone)]
pub struct RawImage {
    pub width: u32,
    pub height: u32,
    pub bytes: Vec<u8>,
}

/// What a `RawImage` is: its dimensions and its pixel bytes.
pub struct PixelGrid {
    pub width: nat,
    pub height: nat,
    pub pixels: Seq<u8>,
}

impl PixelGrid {
    /// Four bytes for each pixel.
    pub open spec fn valid(self) -> bool {
        self.pixels.len() == self.width * self.height * 4
    }
}

impl View for RawImage {
    type V = PixelGrid;

    open spec fn view(&self) -> PixelGrid {
        PixelGrid { width: self.width as nat, height: self.height as nat, pixels: self.bytes@ }
    }
}

impl RawImage {
    /// Whether the buffer holds exactly `width * height * 4` bytes.
    pub fn is_valid(&self) -> (ok: bool)
        ensures
            ok == self@.valid(),
    {
        let w: u64 = self.width as u64;
        let h: u64 = self.height as u64;
        assert(w * h <= 0xFFFF_FFFF * 0xFFFF_FFFF) by (nonlinear_arith)
            requires
                w <= 0xFFFF_FFFF,
                h <= 0xFFFF_FFFF,
        ;
        let need: u128 = ((w * h) as u128) * 4;
        (self.bytes.len() as u128) == need
    }
}

/// The PNG file that the encoder writes for an RGBA image of the given size and pixels,
/// or `None` where it refuses the image.
pub uninterp spec fn png_encoding(width: nat, height: nat, pixels: Seq<u8>) -> Option<Seq<u8>>;

/// The RGBA image that the decoder reads from a PNG file, or `None` where it refuses the
/// file.
pub uninterp spec fn png_decoding(data: Seq<u8>) -> Option<PixelGrid>;

/// The standard padded base64 text of a byte string.
pub uninterp spec fn base64_text(data: Seq<u8>) -> Seq<char>;

/// The byte string that the standard padded base64 decoder reads from a text, or `None`
/// where it refuses the text.
pub uninterp spec fn base64_bytes(text: Seq<char>) -> Option<Seq<u8>>;

/// A character of the standard base64 alphabet, or the padding sign.
pub open spec fn is_base64_char(c: char) -> bool {
    ('A' <= c <= 'Z') || ('a' <= c <= 'z') || ('0' <= c <= '9') || c == '+' || c == '/' || c == '='
}

/// The longest input whose base64 length still fits a `usize`.
pub const BASE64_INPUT_LIMIT: usize = usize::MAX / 4 * 3;

/// `ImageBuffer::from_raw` and `ImageBuffer::write_to` with `ImageFormat::Png`, into a
/// fresh buffer. Claims: the outcome is `png_encoding` of the arguments; an image with a
/// zero dimension is refused; and the format is lossless, so that whatever the decoder
/// reads from the written file is the image that went in.
#[verifier::external_body]
fn png_encode(width: u32, height: u32, pixels: &Vec<u8>) -> (out: Option<Vec<u8>>)
    requires
        pixels@.len() == width * height * 4,
    ensures
        out matches Some(data) ==> png_encoding(width as nat, height as nat, pixels@) == Some(data@),
        out is None ==> png_encoding(width as nat, height as nat, pixels@) is None,
        (width == 0 || height == 0) ==> out is None,
        out matches Some(data) ==> (png_decoding(data@) matches Some(grid) ==> grid == (PixelGrid {
            width: width as nat,
            height: height as nat,
            pixels: pixels@,
        })),
{
    let buffer = image::ImageBuffer::<image::Rgba<u8>, _>::from_raw(width, height, pixels.as_slice())?;
    let mut data: Vec<u8> = Vec::new();
    buffer.write_to(&mut std::io::Cursor::new(&mut data), image::ImageFormat::Png).ok()?;
    Some(data)
}

/// `image::load_from_memory_with_format` with `ImageFormat::Png`, then
/// `DynamicImage::to_rgba8`. Claims: the outcome is `png_decoding` of the file, and a
/// decoded image holds four bytes for each of its pixels. An error comes back as its
/// message.
#[verifier::external_body]
fn png_decode(data: &Vec<u8>) -> (out: Result<RawImage, String>)
    ensures
        out matches Ok(img) ==> png_decoding(data@) == Some(img@) && img@.valid(),
        out is Err ==> png_decoding(data@) is None,
{
    match image::load_from_memory_with_format(data.as_slice(), image::ImageFormat::Png) {
        Ok(img) => {
            let rgba = img.to_rgba8();
            let (width, height) = rgba.dimensions();
            Ok(RawImage { width, height, bytes: rgba.into_raw() })
        },
        Err(e) => Err(e.to_string()),
    }
}

/// `Engine::encode` of `base64::engine::general_purpose::STANDARD`. Claims: the outcome
/// is `base64_text` of the bytes, made of the standard alphabet and the padding sign
/// alone, and the decoder reads the same bytes back from it.
#[verifier::external_body]
fn base64_encode(data: &Vec<u8>) -> (out: String)
    requires
        data@.len() <= BASE64_INPUT_LIMIT,
    ensures
        out@ == base64_text(data@),
        forall|i: int| 0 <= i < out@.len() ==> is_base64_char(#[trigger] out@[i]),
        base64_bytes(out@) == Some(data@),
{
    base64::engine::general_purpose::STANDARD.encode(data.as_slice())
}

/// `Engine::decode` of `base64::engine::general_purpose::STANDARD`. Claims: the outcome
/// is `base64_bytes` of the text. An error comes back as its message.
#[verifier::external_body]
fn base64_decode(text: &str) -> (out: Result<Vec<u8>, String>)
    ensures
        out matches Ok(data) ==> base64_bytes(text@) == Some(data@),
        out is Err ==> base64_bytes(text@) is None,
{
    match base64::engine::general_purpose::STANDARD.decode(text) {
        Ok(data) => Ok(data),
        Err(e) => Err(e.to_string()),
    }
}

/// Why a payload could not be read as an image. The last two carry the decoder's own
/// message.
#[derive(Debug, Clone, PartialEq, Eq)]
pub enum DecodeError {
    /// No comma ends a header.
    MalformedHeader,
    /// What follows the header is not base64.
    Base64Error(String),
    /// The bytes are not a PNG image that can be read.
    ImageDecodeError(String),
}

/// The three ways in which reading a payload fails.
pub enum DecodeFailure {
    MalformedHeader,
    Base64Error,
    ImageDecodeError,
}

impl DecodeError {
    /// The words for this error: the decoder's own where it gave some.
    pub open spec fn text(&self) -> Seq<char> {
        match self {
            DecodeError::MalformedHeader => "数据格式错误"@,
            DecodeError::Base64Error(message) => message@,
            DecodeError::ImageDecodeError(message) => message@,
        }
    }

    /// The words for this error, for a reader.
    pub fn message(&self) -> (out: String)
        ensures
            out@ == self.text(),
    {
        match self {
            DecodeError::MalformedHeader => "数据格式错误".to_owned(),
            DecodeError::Base64Error(message) => message.clone(),
            DecodeError::ImageDecodeError(message) => message.clone(),
        }
    }

    /// Which of the three failures this is.
    pub open spec fn failure(&self) -> DecodeFailure {
        match self {
            DecodeError::MalformedHeader => DecodeFailure::MalformedHeader,
            DecodeError::Base64Error(_) => DecodeFailure::Base64Error,
            DecodeError::ImageDecodeError(_) => DecodeFailure::ImageDecodeError,
        }
    }
}

/// The header of an image payload.
pub open spec fn data_uri_header() -> Seq<char> {
    "data:image/png;base64,"@
}

/// What stands between the first comma of a payload and the next one, or its end; `None`
/// where the payload holds no comma.
pub open spec fn data_uri_body(payload: Seq<char>) -> Option<Seq<char>> {
    let fields = split(payload, ',');
    if fields.len() >= 2 {
        Some(fields[1])
    } else {
        None
    }
}

/// The payload of an image: the header, then the base64 text of its PNG file. `None` for
/// a grid that is not valid, one that the PNG encoder refuses, and a file too long for
/// base64.
pub open spec fn encoded_image(grid: PixelGrid) -> Option<Seq<char>> {
    if !grid.valid() {
        None
    } else {
        match png_encoding(grid.width, grid.height, grid.pixels) {
            Some(data) => if data.len() <= BASE64_INPUT_LIMIT {
                Some(data_uri_header() + base64_text(data))
            } else {
                None
            },
            None => None,
        }
    }
}

/// The image that a payload holds, or the first step at which reading it fails.
pub open spec fn decoded_image(payload: Seq<char>) -> Result<PixelGrid, DecodeFailure> {
    match data_uri_body(payload) {
        None => Err(DecodeFailure::MalformedHeader),
        Some(body) => match base64_bytes(body) {
            None => Err(DecodeFailure::Base64Error),
            Some(data) => match png_decoding(data) {
                None => Err(DecodeFailure::ImageDecodeError),
                Some(grid) => Ok(grid),
            },
        },
    }
}

/// A header followed by a text without a comma has that text as its body.
pub proof fn lemma_body_after_header(text: Seq<char>)
    requires
        forall|i: int| 0 <= i < text.len() ==> text[i] != ',',
    ensures
        data_uri_body(data_uri_header() + text) == Some(text),
{
    reveal_strlit("data:image/png;base64,");
    let header = data_uri_header();
    let s = header + text;
    assert(header.len() == 22);
    assert(header[21] == ',');
    assert forall|i: int| 0 <= i < 21 implies s[i] != ',' by {
        assert(s[i] == header[i]);
    }
    assert(s[21] == ',');
    crate::text::lemma_first_index_is(s, ',', 21);
    assert(s.skip(22) =~= text);
    crate::text::lemma_first_index_is(text, ',', text.len() as int);
    assert(split(text, ',') =~= seq![text]);
    assert(split(s, ',') =~= seq![s.take(21), text]);
}

/// Puts the header in front of a body.
pub fn frame_payload(body: &str) -> (out: String)
    ensures
        out@ == data_uri_header() + body@,
{
    String::from_str("data:image/png;base64,").concat(body)
}

/// The body of a payload: what stands between its first comma and the next one, or its
/// end. Returns `None` where the payload holds no comma.
pub fn payload_body(payload: &str) -> (out: Option<String>)
    ensures
        out matches Some(body) ==> data_uri_body(payload@) == Some(body@),
        out is None ==> data_uri_body(payload@) is None,
{
    let chars = chars_of(payload);
    let start = find_char(&chars, ',', 0);
    proof {
        lemma_first_index(chars@, ',');
        assert(chars@.skip(0) =~= chars@);
    }
    if start >= chars.len() {
        return None;
    }
    let end = find_char(&chars, ',', start + 1);
    let body = string_of(&chars, start + 1, end);
    proof {
        let rest = chars@.skip(start + 1);
        lemma_first_index(rest, ',');
        let k = first_index(rest, ',');
        assert(body@ =~= rest.take(k));
        if k < rest.len() {
            assert(split(rest, ',')[0] == rest.take(k));
        } else {
            assert(rest.take(k) =~= rest);
        }
        assert(split(chars@, ',') =~= seq![chars@.take(start as int)] + split(rest, ','));
        assert(split(chars@, ',')[1] == split(rest, ',')[0]);
    }
    Some(body)
}

/// Encodes an image as a payload: PNG, then base64, behind the header.
///
/// Returns `None` where the buffer does not hold `width * height * 4` bytes, and where
/// the PNG encoder refuses the image, as it does one with a zero dimension. Reading the
/// payload back gives the same image whenever it gives one at all.
pub fn image_to_base64(img: RawImage) -> (out: Option<String>)
    ensures
        out matches Some(s) ==> encoded_image(img@) == Some(s@),
        out is None ==> encoded_image(img@) is None,
        (img.width == 0 || img.height == 0) ==> out is None,
        out matches Some(s) ==> decoded_image(s@) == Ok::<PixelGrid, DecodeFailure>(img@)
            || decoded_image(s@) == Err::<PixelGrid, DecodeFailure>(DecodeFailure::ImageDecodeError),
{
    if !img.is_valid() {
        return None;
    }
    let data = png_encode(img.width, img.height, &img.bytes)?;
    if data.len() > BASE64_INPUT_LIMIT {
        return None;
    }
    let text = base64_encode(&data);
    proof {
        assert forall|i: int| 0 <= i < text@.len() implies text@[i] != ',' by {
            assert(is_base64_char(text@[i]));
        }
        lemma_body_after_header(text@);
    }
    Some(frame_payload(text.as_str()))
}

/// Reads a payload back into an image: the body behind the header, base64, then PNG.
///
/// Fails with `MalformedHeader` where the payload holds no comma, with `Base64Error`
/// where the body is not base64, and with `ImageDecodeError` where the bytes are not a
/// PNG image that can be read.
pub fn base64_to_image(b64: &str) -> (out: Result<RawImage, DecodeError>)
    ensures
        out matches Ok(img) ==> decoded_image(b64@) == Ok::<PixelGrid, DecodeFailure>(img@) && img@.valid(),
        out matches Err(e) ==> decoded_image(b64@) == Err::<PixelGrid, DecodeFailure>(e.failure()),
{
    let body = match payload_body(b64) {
        Some(body) => body,
        None => { return Err(DecodeError::MalformedHeader); },
    };
    let data = match base64_decode(body.as_str()) {
        Ok(data) => data,
        Err(e) => { return Err(DecodeError::Base64Error(e)); },
    };
    match png_decode(&data) {
        Ok(img) => Ok(img),
        Err(e) => Err(DecodeError::ImageDecodeError(e)),
    }
}

} // verus!
