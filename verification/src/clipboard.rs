//! Limits on what the workstation's clipboard may send to a session.

pub use crate::ipc::MAX_UPLOAD_BYTES;
use crate::text;
use image::{DynamicImage, ImageFormat, RgbaImage};
use std::io::Cursor;
use vstd::prelude::*;
use vstd::utf8::encode_utf8;

verus! {

/// What the clipboard holds.
pub enum ClipboardContent {
    Text(String),
    File { name: String, bytes: Vec<u8> },
}

/// The text that `{:?}` writes for a text.
pub uninterp spec fn quoted(s: Seq<char>) -> Seq<char>;

/// `<str as std::fmt::Debug>::fmt`: the text in quotes, with escapes. The
/// contract says that it is a function of the text.
#[verifier::external_body]
fn quote(s: &str) -> (r: String)
    ensures
        r@ == quoted(s@),
{
    format!("{s:?}")
}

impl ClipboardContent {
    /// What a log shows of the content: its kind and how many bytes it has.
    pub open spec fn summarized(self) -> Seq<char> {
        match self {
            ClipboardContent::Text(text) => "Text("@ + text::decimal(encode_utf8(text@).len())
                + ")"@,
            ClipboardContent::File { name, bytes } => "File { name: "@ + quoted(name@)
                + ", bytes: "@ + text::decimal(bytes@.len()) + " }"@,
        }
    }

    /// What a log shows of the content: its kind and how many bytes it has.
    pub fn summary(&self) -> (r: String)
        ensures
            r@ == self.summarized(),
    {
        match self {
            ClipboardContent::Text(text) => {
                let n: usize = text.as_str().as_bytes().len();
                text::concat3("Text(", text::to_decimal(n as u64).as_str(), ")")
            },
            ClipboardContent::File { name, bytes } => {
                let head = text::concat3("File { name: ", quote(name.as_str()).as_str(), ", bytes: ");
                let n: usize = bytes.len();
                text::concat3(head.as_str(), text::to_decimal(n as u64).as_str(), " }")
            },
        }
    }
}

/// Why clipboard content is not taken.
#[derive(Debug, Clone, Copy, PartialEq, Eq, Structural)]
pub enum ClipboardError {
    /// So many files; only one at a time is taken.
    ManyFiles(usize),
    /// The item is a directory or something stranger.
    NotAFile,
    /// So many bytes; see `MAX_UPLOAD_BYTES`.
    TooLarge(usize),
    /// The image is too wide.
    ImageWidth,
    /// The image is too high.
    ImageHeight,
    /// The image has fewer bytes than its pixels take.
    ImageBuffer,
    /// The image cannot be written as PNG.
    ImageEncoding,
}

/// Refuses what is larger than an upload may be.
pub fn enforce_size(size: usize) -> (r: Result<(), ClipboardError>)
    ensures
        size <= MAX_UPLOAD_BYTES ==> r == Ok::<(), ClipboardError>(()),
        size > MAX_UPLOAD_BYTES ==> r == Err::<(), ClipboardError>(ClipboardError::TooLarge(size)),
{
    if size > MAX_UPLOAD_BYTES {
        Err(ClipboardError::TooLarge(size))
    } else {
        Ok(())
    }
}

/// Whether a list of copied files can be taken: exactly one, a regular file,
/// that is not too large.
pub fn admit_files(count: usize, is_file: bool, size: usize) -> (r: Result<(), ClipboardError>)
    ensures
        r == (if count != 1 {
            Err::<(), ClipboardError>(ClipboardError::ManyFiles(count))
        } else if !is_file {
            Err::<(), ClipboardError>(ClipboardError::NotAFile)
        } else if size > MAX_UPLOAD_BYTES {
            Err::<(), ClipboardError>(ClipboardError::TooLarge(size))
        } else {
            Ok::<(), ClipboardError>(())
        }),
{
    if count != 1 {
        return Err(ClipboardError::ManyFiles(count));
    }
    if !is_file {
        return Err(ClipboardError::NotAFile);
    }
    enforce_size(size)
}

// ---------------------------------------------------------------------------
// Images
// ---------------------------------------------------------------------------

/// An image in PNG, from its width, its height and four bytes for each pixel.
pub uninterp spec fn png_of(width: u32, height: u32, rgba: Seq<u8>) -> Option<Seq<u8>>;

/// `image::RgbaImage::from_raw` and `image::DynamicImage::write_to` as PNG: the
/// image file, or none where the crate cannot write it. The contract says that
/// the result is a function of the pixels. The crate panics on a buffer that is
/// longer than the pixels take.
#[verifier::external_body]
fn encode_png(width: u32, height: u32, rgba: Vec<u8>) -> (r: Option<Vec<u8>>)
    requires
        rgba@.len() == 4 * width * height,
    ensures
        (match r {
            Some(b) => Some(b@),
            None => None,
        }) == png_of(width, height, rgba@),
{
    let pixels = RgbaImage::from_raw(width, height, rgba)?;
    let mut bytes = Vec::new();
    let file = &mut Cursor::new(&mut bytes);
    DynamicImage::ImageRgba8(pixels).write_to(file, ImageFormat::Png).ok()?;
    Some(bytes)
}

/// What is taken of an image once it has been written as PNG.
pub fn png_content(png: Option<Vec<u8>>) -> (r: Result<ClipboardContent, ClipboardError>)
    ensures
        match png {
            None => r == Err::<ClipboardContent, ClipboardError>(ClipboardError::ImageEncoding),
            Some(b) => if b@.len() > MAX_UPLOAD_BYTES {
                r == Err::<ClipboardContent, ClipboardError>(
                    ClipboardError::TooLarge(b@.len() as usize),
                )
            } else {
                r matches Ok(ClipboardContent::File { name, bytes }) && name@ == "clipboard.png"@
                    && bytes == b
            },
        },
{
    let bytes = match png {
        Some(b) => b,
        None => return Err(ClipboardError::ImageEncoding),
    };
    match enforce_size(bytes.len()) {
        Ok(()) => Ok(ClipboardContent::File { name: text::owned("clipboard.png"), bytes }),
        Err(e) => Err(e),
    }
}

/// What is taken of an image: a PNG file that is not too large.
pub fn image_content(width: usize, height: usize, rgba: Vec<u8>) -> (r: Result<
    ClipboardContent,
    ClipboardError,
>)
    requires
        width <= u32::MAX && height <= u32::MAX ==> rgba@.len() <= 4 * width * height,
    ensures
        if width > u32::MAX {
            r == Err::<ClipboardContent, ClipboardError>(ClipboardError::ImageWidth)
        } else if height > u32::MAX {
            r == Err::<ClipboardContent, ClipboardError>(ClipboardError::ImageHeight)
        } else if rgba@.len() < 4 * width * height {
            r == Err::<ClipboardContent, ClipboardError>(ClipboardError::ImageBuffer)
        } else {
            match png_of(width as u32, height as u32, rgba@) {
                None => r == Err::<ClipboardContent, ClipboardError>(
                    ClipboardError::ImageEncoding,
                ),
                Some(b) => if b.len() > MAX_UPLOAD_BYTES {
                    r == Err::<ClipboardContent, ClipboardError>(
                        ClipboardError::TooLarge(b.len() as usize),
                    )
                } else {
                    r matches Ok(ClipboardContent::File { name, bytes }) && name@
                        == "clipboard.png"@ && bytes@ == b
                },
            }
        },
{
    if width > u32::MAX as usize {
        return Err(ClipboardError::ImageWidth);
    }
    if height > u32::MAX as usize {
        return Err(ClipboardError::ImageHeight);
    }
    assert(0 <= 4 * width * height <= 4 * 0xffff_ffff * 0xffff_ffff) by (nonlinear_arith)
        requires
            width <= 0xffff_ffff,
            height <= 0xffff_ffff,
    ;
    assert(4 * width <= 4 * 0xffff_ffff);
    let needed: u128 = 4 * width as u128 * height as u128;
    if (rgba.len() as u128) < needed {
        return Err(ClipboardError::ImageBuffer);
    }
    png_content(encode_png(width as u32, height as u32, rgba))
}

} // verus!
