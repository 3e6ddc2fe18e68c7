//! Image files: turning pixels into the bytes of a file and back.
//!
//! The formats themselves are the `image` crate's. What is stated of it here is
//! the little that the rest of the library rests on: that both directions depend
//! on their input alone, and that the lossless formats give back what they were
//! handed.

use crate::picture::RgbaImage;
use crate::text::last_component;
use vstd::prelude::*;
use vstd::string::*;

verus! {

/// The format of a saved image.
#[derive(Debug, Clone, Copy, PartialEq, Eq, Hash, Structural)]
pub enum SaveFormat {
    /// Lossless, with transparency.
    Png,
    /// Lossy, without transparency.
    Jpeg,
    /// Lossless, with transparency.
    Webp,
}

impl SaveFormat {
    /// Bytes per pixel that an encoder of this format is handed.
    pub open spec fn channels(self) -> int {
        match self {
            SaveFormat::Jpeg => 3,
            _ => 4,
        }
    }

    /// Decoding gives back exactly the pixels that were encoded.
    pub open spec fn lossless(self) -> bool {
        self != SaveFormat::Jpeg
    }
}

/// A size that every format can hold and that a decoder accepts: at least one
/// pixel and at most 16384 in each direction, and at most 256 MiB of RGBA.
pub open spec fn encodable(width: u32, height: u32) -> bool {
    &&& 1 <= width <= 16384
    &&& 1 <= height <= 16384
    &&& width * height * 4 <= 0x1000_0000
}

/// What `image::write_buffer_with_format` writes for pixels in a format, or the
/// message of its error.
pub uninterp spec fn encoding(
    format: SaveFormat,
    width: u32,
    height: u32,
    pixels: Seq<u8>,
) -> Result<Seq<u8>, Seq<char>>;

/// The width, the height and the RGBA bytes that `image::load_from_memory` finds
/// in a file, or the message of its error.
pub uninterp spec fn decoding(file: Seq<u8>) -> Result<(u32, u32, Seq<u8>), Seq<char>>;

/// Whether `image::guess_format` recognises a file by how it begins.
pub uninterp spec fn known_signature(file: Seq<u8>) -> bool;

/// Whether `ImageFormat::from_extension` of the `image` crate knows an extension.
pub uninterp spec fn known_extension(extension: Seq<char>) -> bool;

/// What `image::load_from_memory_with_format` finds in a file, as in
/// [`decoding`], in the format of an extension that is known.
pub uninterp spec fn decoding_as(file: Seq<u8>, extension: Seq<char>) -> Result<
    (u32, u32, Seq<u8>),
    Seq<char>,
>;

/// The extension in a file's name: what follows the last dot of the last
/// component, where something does and something comes before that dot. `/` is
/// what separates components.
pub open spec fn extension_of(name: Seq<char>) -> Option<Seq<char>> {
    let last = crate::text::after_last(name, '/');
    let extension = crate::text::after_last(last, '.');
    if extension.len() == 0 || extension.len() + 1 >= last.len() {
        None
    } else {
        Some(extension)
    }
}

/// Nothing but letters and digits of ASCII.
pub open spec fn is_plain(text: Seq<char>) -> bool {
    forall|i: int|
        0 <= i < text.len() ==> {
            let c = #[trigger] text[i];
            'a' <= c <= 'z' || 'A' <= c <= 'Z' || '0' <= c <= '9'
        }
}

/// What is said of an extension that stands for no format.
pub open spec fn refusal_text(extension: Seq<char>) -> Seq<char> {
    "The file extension `.\""@ + extension + "\"` was not recognized as an image format"@
}

/// What is said where nothing tells the format.
pub const NO_FORMAT: &'static str = "The image format could not be determined";

/// Decoding `file` gives these pixels.
pub open spec fn holds_pixels(file: Seq<u8>, width: u32, height: u32, pixels: Seq<u8>) -> bool {
    decoding(file) == Ok::<(u32, u32, Seq<u8>), Seq<char>>((width, height, pixels))
}

/// `image::write_buffer_with_format`, writing to memory. What it writes depends
/// on the arguments alone. It succeeds on every size that [`encodable`] admits,
/// and a PNG or WebP of such a size decodes to the pixels that went in. It
/// panics on a buffer that does not match the dimensions.
#[verifier::external_body]
pub(crate) fn write_pixels(format: SaveFormat, width: u32, height: u32, pixels: &[u8]) -> (result:
    Result<Vec<u8>, String>)
    requires
        pixels@.len() == width * height * format.channels(),
    ensures
        match result {
            Ok(file) => encoding(format, width, height, pixels@) == Ok::<Seq<u8>, Seq<char>>(file@),
            Err(e) => encoding(format, width, height, pixels@) == Err::<Seq<u8>, Seq<char>>(e@),
        },
        encodable(width, height) ==> result is Ok,
        encodable(width, height) && format.lossless() ==> holds_pixels(
            result->Ok_0@,
            width,
            height,
            pixels@,
        ),
{
    let (color, kind) = match format {
        SaveFormat::Png => (image::ExtendedColorType::Rgba8, image::ImageFormat::Png),
        SaveFormat::Jpeg => (image::ExtendedColorType::Rgb8, image::ImageFormat::Jpeg),
        SaveFormat::Webp => (image::ExtendedColorType::Rgba8, image::ImageFormat::WebP),
    };
    let mut file = std::io::Cursor::new(Vec::new());
    match image::write_buffer_with_format(&mut file, pixels, width, height, color, kind) {
        Ok(()) => Ok(file.into_inner()),
        Err(e) => Err(e.to_string()),
    }
}

/// `image::load_from_memory`, with the pixels as RGBA. The result depends on the
/// bytes alone, and holds four bytes for each pixel.
#[verifier::external_body]
pub(crate) fn read_pixels(file: &[u8]) -> (result: Result<RgbaImage, String>)
    ensures
        match result {
            Ok(p) => p.wf() && holds_pixels(file@, p.width, p.height, p.data@),
            Err(e) => decoding(file@) == Err::<(u32, u32, Seq<u8>), Seq<char>>(e@),
        },
{
    match image::load_from_memory(file) {
        Ok(decoded) => {
            let rgba = decoded.into_rgba8();
            let (width, height) = rgba.dimensions();
            Ok(RgbaImage { width, height, data: rgba.into_raw() })
        },
        Err(e) => Err(e.to_string()),
    }
}

/// `image::guess_format`: whether it recognises the file depends on the bytes
/// alone.
#[verifier::external_body]
pub(crate) fn recognises(file: &[u8]) -> (yes: bool)
    ensures
        yes == known_signature(file@),
{
    image::guess_format(file).is_ok()
}

/// `ImageFormat::from_extension` of the `image` crate: whether it knows an
/// extension depends on the text alone.
#[verifier::external_body]
pub(crate) fn knows_extension(extension: &str) -> (yes: bool)
    ensures
        yes == known_extension(extension@),
{
    image::ImageFormat::from_extension(extension).is_some()
}

/// `image::load_from_memory_with_format`, in the format of a known extension and
/// with the pixels as RGBA. The result depends on the bytes and the extension
/// alone, and holds four bytes for each pixel.
#[verifier::external_body]
pub(crate) fn read_pixels_as(file: &[u8], extension: &str) -> (result: Result<RgbaImage, String>)
    requires
        known_extension(extension@),
    ensures
        match result {
            Ok(p) => p.wf() && decoding_as(file@, extension@) == Ok::<
                (u32, u32, Seq<u8>),
                Seq<char>,
            >((p.width, p.height, p.data@)),
            Err(e) => decoding_as(file@, extension@) == Err::<(u32, u32, Seq<u8>), Seq<char>>(e@),
        },
{
    let format = image::ImageFormat::from_extension(extension).expect("a known extension");
    match image::load_from_memory_with_format(file, format) {
        Ok(decoded) => {
            let rgba = decoded.into_rgba8();
            let (width, height) = rgba.dimensions();
            Ok(RgbaImage { width, height, data: rgba.into_raw() })
        },
        Err(e) => Err(e.to_string()),
    }
}

/// The text of the `image` crate's error for an extension that stands for no
/// format (`ImageFormatHint::PathExtension`). It quotes the extension; how other
/// characters than letters and digits of ASCII are quoted depends on the system,
/// and is not claimed.
#[verifier::external_body]
pub(crate) fn extension_refusal(extension: &str) -> (text: String)
    ensures
        is_plain(extension@) ==> text@ == refusal_text(extension@),
{
    let hint = image::error::ImageFormatHint::PathExtension(extension.into());
    image::error::UnsupportedError::from(hint).to_string()
}

/// The text of the `image` crate's error where nothing tells the format
/// (`ImageFormatHint::Unknown`): a fixed sentence.
#[verifier::external_body]
pub(crate) fn no_format() -> (text: String)
    ensures
        text@ == NO_FORMAT@,
{
    image::error::UnsupportedError::from(image::error::ImageFormatHint::Unknown).to_string()
}

/// The picture that decoding found.
pub open spec fn is_picture(image: RgbaImage, decoded: (u32, u32, Seq<u8>)) -> bool {
    &&& image.wf()
    &&& image.width == decoded.0
    &&& image.height == decoded.1
    &&& image.data@ == decoded.2
}

/// The picture in an image file, or the decoder's message.
pub fn decode(file: &[u8]) -> (result: Result<RgbaImage, String>)
    ensures
        is_decoded(result, decoding(file@)),
{
    read_pixels(file)
}

/// The extension in a file's name.
pub fn extension(name: &str) -> (found: Option<&str>)
    ensures
        match found {
            Some(e) => extension_of(name@) == Some(e@),
            None => extension_of(name@) is None,
        },
{
    let last = last_component(name, '/');
    let extension = last_component(last, '.');
    let length: usize = extension.unicode_len();
    let all: usize = last.unicode_len();
    if length == 0 || length >= all || all - length == 1 {
        None
    } else {
        Some(extension)
    }
}

/// `result` is what decoding came to.
pub open spec fn is_decoded(
    result: Result<RgbaImage, String>,
    decoded: Result<(u32, u32, Seq<u8>), Seq<char>>,
) -> bool {
    match decoded {
        Ok(found) => result matches Ok(image) && is_picture(image, found),
        Err(message) => result matches Err(e) && e@ == message,
    }
}

/// What a file comes to whose name alone tells its format. An extension that is
/// not plain is refused in words that are left open.
pub open spec fn is_decoded_by_name(
    result: Result<RgbaImage, String>,
    file: Seq<u8>,
    name: Seq<char>,
) -> bool {
    match extension_of(name) {
        Some(extension) => if known_extension(extension) {
            is_decoded(result, decoding_as(file, extension))
        } else {
            result matches Err(e) && (is_plain(extension) ==> e@ == refusal_text(extension))
        },
        None => result matches Err(e) && e@ == NO_FORMAT@,
    }
}

/// What a file comes to that has a name: how it begins tells its format, and
/// only where that tells nothing does the name.
pub open spec fn is_decoded_named(
    result: Result<RgbaImage, String>,
    file: Seq<u8>,
    name: Seq<char>,
) -> bool {
    if known_signature(file) {
        is_decoded(result, decoding(file))
    } else {
        is_decoded_by_name(result, file, name)
    }
}

/// The picture in an image file whose name tells its format, or why there is
/// none.
pub fn decode_by_name(file: &[u8], name: &str) -> (result: Result<RgbaImage, String>)
    ensures
        is_decoded_by_name(result, file@, name@),
{
    match extension(name) {
        Some(extension) => if knows_extension(extension) {
            read_pixels_as(file, extension)
        } else {
            Err(extension_refusal(extension))
        },
        None => Err(no_format()),
    }
}

/// The picture in an image file that has a name, or why there is none.
pub fn decode_named(file: &[u8], name: &str) -> (result: Result<RgbaImage, String>)
    ensures
        is_decoded_named(result, file@, name@),
{
    if recognises(file) {
        read_pixels(file)
    } else {
        decode_by_name(file, name)
    }
}

/// A file's extension is what follows the last dot of its last component, where
/// something comes before that dot. Dots in directories do not count.
pub proof fn law_extensions_follow_the_last_dot(
    directory: Seq<char>,
    stem: Seq<char>,
    extension: Seq<char>,
)
    requires
        directory.len() > 0 ==> directory.last() == '/',
        forall|i: int| 0 <= i < stem.len() ==> #[trigger] stem[i] != '/',
        forall|i: int|
            0 <= i < extension.len() ==> #[trigger] extension[i] != '/' && extension[i] != '.',
    ensures
        stem.len() > 0 && extension.len() > 0 ==> extension_of(
            directory + stem + seq!['.'] + extension,
        ) == Some(extension),
        stem.len() == 0 || extension.len() == 0 ==> extension_of(
            directory + stem + seq!['.'] + extension,
        ) is None,
        extension_of(directory + extension) is None,
{
    let file = stem + seq!['.'] + extension;
    let name = directory + stem + seq!['.'] + extension;
    assert(name =~= directory + file);
    assert forall|i: int| 0 <= i < file.len() implies #[trigger] file[i] != '/' by {
        if i > stem.len() {
            assert(file[i] == extension[i - stem.len() - 1]);
        } else if i < stem.len() {
            assert(file[i] == stem[i]);
        }
    }
    lemma_component(directory, file, '/');
    assert(file =~= (stem + seq!['.']) + extension);
    lemma_component(stem + seq!['.'], extension, '.');
    lemma_component(directory, extension, '/');
    lemma_component(Seq::empty(), extension, '.');
    assert(Seq::<char>::empty() + extension =~= extension);
}

/// What comes after a text that ends with a separator, and holds none itself, is
/// the last component.
proof fn lemma_component(before: Seq<char>, after: Seq<char>, separator: char)
    requires
        before.len() > 0 ==> before.last() == separator,
        forall|i: int| 0 <= i < after.len() ==> #[trigger] after[i] != separator,
    ensures
        crate::text::after_last(before + after, separator) == after,
{
    let whole = before + after;
    let n = before.len() as int;
    let from = crate::text::law_the_last_component_follows_the_last_separator(whole, separator);
    if from > n {
        assert(whole[from - 1] == after[from - 1 - n]);
    } else if from < n {
        assert(whole[n - 1] == before[n - 1]);
    }
    assert(whole.subrange(n, whole.len() as int) =~= after);
}

/// What decoding found is handed on as it is: the size, the pixels, or the
/// decoder's own words.
pub proof fn law_decoding_is_handed_on(
    result: Result<RgbaImage, String>,
    decoded: Result<(u32, u32, Seq<u8>), Seq<char>>,
)
    requires
        is_decoded(result, decoded),
    ensures
        result is Ok <==> decoded is Ok,
        result matches Ok(image) ==> decoded->Ok_0 == (image.width, image.height, image.data@),
        result matches Err(e) ==> decoded->Err_0 == e@,
{
}

/// A file with a name is read by how it begins where that tells its format, and
/// by its name otherwise; and a name without a known extension tells nothing.
pub proof fn law_names_count_only_where_the_file_tells_nothing(
    result: Result<RgbaImage, String>,
    file: Seq<u8>,
    name: Seq<char>,
)
    requires
        is_decoded_named(result, file, name),
    ensures
        known_signature(file) ==> is_decoded(result, decoding(file)),
        !known_signature(file) ==> match extension_of(name) {
            Some(extension) => {
                &&& known_extension(extension) ==> is_decoded(result, decoding_as(file, extension))
                &&& !known_extension(extension) ==> result is Err
            },
            None => result is Err,
        },
{
}

} // verus!
