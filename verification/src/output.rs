//! Saving and copying the annotated image.
//!
//! Everything here works on a freshly rendered copy of the document rather than
//! on what the editor has on screen: the exported image is at full resolution
//! and unaffected by zoom, pan or the toolbars. What is decided here is which
//! bytes go where; writing them is left to the caller.

use crate::codec::{decode, write_pixels, SaveFormat};
use crate::picture::{flatten_on_white, RgbaImage};
use crate::text::{ascii_lowercase, joined, last_component, same_text};
use vstd::prelude::*;
use vstd::string::*;

verus! {

/// Why an image could not be saved or copied.
#[derive(Debug)]
pub enum OutputError {
    /// There is no configured place to save to.
    NoOutputPath,
    /// The image could not be encoded or decoded.
    Encode(String),
    /// The file could not be written.
    Write {
        /// Where to.
        path: String,
        /// Why not.
        source: String,
    },
    /// The system clipboard refused.
    Clipboard(String),
    /// The configured copy command failed.
    CopyCommand {
        /// The command line.
        command: String,
        /// What happened.
        message: String,
    },
}

impl OutputError {
    /// The message shown to the user.
    pub open spec fn text(self) -> Seq<char> {
        match self {
            OutputError::NoOutputPath => {
                "no output filename configured; use --output-filename or Ctrl+Shift+S"@
            },
            OutputError::Encode(what) => "could not encode the image: "@ + what@,
            OutputError::Write { path, source } => {
                "could not write "@ + path@ + ": "@ + source@
            },
            OutputError::Clipboard(what) => "clipboard unavailable: "@ + what@,
            OutputError::CopyCommand { command, message } => {
                "copy command `"@ + command@ + "` failed: "@ + message@
            },
        }
    }

    /// The message shown to the user.
    pub fn message(&self) -> (text: String)
        ensures
            text@ == self.text(),
    {
        match self {
            OutputError::NoOutputPath => {
                "no output filename configured; use --output-filename or Ctrl+Shift+S".to_owned()
            },
            OutputError::Encode(what) => joined("could not encode the image: ", what.as_str()),
            OutputError::Write { path, source } => {
                let mut text = joined("could not write ", path.as_str());
                text.append(": ");
                text.append(source.as_str());
                text
            },
            OutputError::Clipboard(what) => joined("clipboard unavailable: ", what.as_str()),
            OutputError::CopyCommand { command, message } => {
                let mut text = joined("copy command `", command.as_str());
                text.append("` failed: ");
                text.append(message.as_str());
                text
            },
        }
    }
}

/// The bytes that an encoder of `format` is handed for a picture: all four
/// channels, or the picture on white where the format has no alpha.
pub open spec fn encoder_input(image: RgbaImage, format: SaveFormat) -> Seq<u8> {
    match format {
        SaveFormat::Jpeg => crate::picture::flattened(image.data@, image.width * image.height),
        _ => image.data@,
    }
}

/// What encoding a picture gives.
pub open spec fn is_encoded(
    result: Result<Vec<u8>, OutputError>,
    image: RgbaImage,
    format: SaveFormat,
) -> bool {
    let input = encoder_input(image, format);
    &&& match crate::codec::encoding(format, image.width, image.height, input) {
        Ok(file) => result matches Ok(bytes) && bytes@ == file,
        Err(message) => result matches Err(OutputError::Encode(m)) && m@ == message,
    }
    &&& crate::codec::encodable(image.width, image.height) ==> result is Ok
    &&& crate::codec::encodable(image.width, image.height) && format.lossless()
        ==> crate::codec::holds_pixels(result->Ok_0@, image.width, image.height, image.data@)
}

/// Encode a picture. JPEG has no alpha channel, so the picture is laid on white
/// first.
pub fn encode(image: &RgbaImage, format: SaveFormat) -> (result: Result<Vec<u8>, OutputError>)
    requires
        image.wf(),
    ensures
        is_encoded(result, *image, format),
{
    let encoded = match format {
        SaveFormat::Jpeg => {
            let flat = flatten_on_white(image);
            write_pixels(format, image.width, image.height, flat.as_slice())
        },
        _ => write_pixels(format, image.width, image.height, image.data.as_slice()),
    };
    match encoded {
        Ok(bytes) => Ok(bytes),
        Err(message) => Err(OutputError::Encode(message)),
    }
}

/// The output filename that means standard output.
pub const STDOUT: &'static str = "-";

/// The format that a file name's extension stands for.
pub open spec fn format_of_path(path: Seq<char>) -> SaveFormat {
    let extension = crate::text::lowered(crate::text::after_last(path, '.'));
    if extension.len() == path.len() {
        SaveFormat::Png
    } else if extension == "jpg"@ || extension == "jpeg"@ {
        SaveFormat::Jpeg
    } else if extension == "webp"@ {
        SaveFormat::Webp
    } else {
        SaveFormat::Png
    }
}

impl SaveFormat {
    /// The format that a file name's extension stands for; PNG for one that
    /// stands for none, and for a name without one. The extension is taken to
    /// be the text after the last dot, wherever that dot is.
    pub fn from_path(path: &str) -> (format: SaveFormat)
        ensures
            format == format_of_path(path@),
    {
        let extension = ascii_lowercase(last_component(path, '.'));
        if extension.as_str().unicode_len() == path.unicode_len() {
            SaveFormat::Png
        } else if same_text(extension.as_str(), "jpg") || same_text(extension.as_str(), "jpeg") {
            SaveFormat::Jpeg
        } else if same_text(extension.as_str(), "webp") {
            SaveFormat::Webp
        } else {
            SaveFormat::Png
        }
    }
}

/// The format to write in: the one the chosen name asks for. Standard output,
/// and a name that is no text, have nothing to ask with.
pub open spec fn chosen_format(path: Option<&str>, configured: SaveFormat) -> SaveFormat {
    match path {
        Some(p) if p@ != STDOUT@ => format_of_path(p@),
        _ => configured,
    }
}

/// Where the bytes of a saved image go.
#[derive(Debug, Clone, Copy, PartialEq, Eq, Structural)]
pub enum Destination {
    /// Standard output.
    Stdout,
    /// The file that was named.
    File,
}

/// The bytes of a saved image and where they go.
#[derive(Debug)]
pub struct WritePlan {
    /// Where to.
    pub destination: Destination,
    /// The encoded image.
    pub bytes: Vec<u8>,
}

/// The place that was configured, if there is one.
pub fn require_output_path(resolved: Option<String>) -> (result: Result<String, OutputError>)
    ensures
        match resolved {
            Some(path) => result == Ok::<String, OutputError>(path),
            None => result == Err::<String, OutputError>(OutputError::NoOutputPath),
        },
{
    match resolved {
        Some(path) => Ok(path),
        None => Err(OutputError::NoOutputPath),
    }
}

/// What to write, and where, to save a rendered image under `path`, which is
/// `None` for a name that is no text.
///
/// The extension that the user chose counts, not just the configured default:
/// saving as `shot.jpg` produces a JPEG.
pub fn plan_write(rendered: &RgbaImage, path: Option<&str>, configured: SaveFormat) -> (result:
    Result<WritePlan, OutputError>)
    requires
        rendered.wf(),
    ensures
        match result {
            Ok(plan) => {
                &&& is_encoded(Ok(plan.bytes), *rendered, chosen_format(path, configured))
                &&& plan.destination == (if path matches Some(p) && p@ == STDOUT@ {
                    Destination::Stdout
                } else {
                    Destination::File
                })
            },
            Err(e) => is_encoded(Err(e), *rendered, chosen_format(path, configured)),
        },
{
    let (destination, format) = match path {
        Some(p) => {
            if same_text(p, STDOUT) {
                (Destination::Stdout, configured)
            } else {
                (Destination::File, SaveFormat::from_path(p))
            }
        },
        None => (Destination::File, configured),
    };
    match encode(rendered, format) {
        Ok(bytes) => Ok(WritePlan { destination, bytes }),
        Err(e) => Err(e),
    }
}

/// How an image gets to the clipboard.
#[derive(Debug)]
pub enum CopyPlan {
    /// Through a command that takes a PNG on its standard input.
    Pipe {
        /// The command line.
        command: String,
        /// The PNG.
        png: Vec<u8>,
    },
    /// Through the system clipboard.
    Clipboard(RgbaImage),
}

/// Put a rendered image on the clipboard.
///
/// A configured copy command wins: in some sessions no clipboard interface
/// works in the process, and piping to a tool is the only reliable route.
pub fn copy_to_clipboard(rendered: RgbaImage, copy_command: Option<&str>) -> (result: Result<
    CopyPlan,
    OutputError,
>)
    requires
        rendered.wf(),
    ensures
        match copy_command {
            None => result == Ok::<CopyPlan, OutputError>(CopyPlan::Clipboard(rendered)),
            Some(line) => match result {
                Ok(CopyPlan::Pipe { command, png }) => command@ == line@ && is_encoded(
                    Ok(png),
                    rendered,
                    SaveFormat::Png,
                ),
                Ok(CopyPlan::Clipboard(_)) => false,
                Err(e) => is_encoded(Err(e), rendered, SaveFormat::Png),
            },
        },
{
    match copy_command {
        Some(line) => match encode(&rendered, SaveFormat::Png) {
            Ok(png) => Ok(CopyPlan::Pipe { command: line.to_owned(), png }),
            Err(e) => Err(e),
        },
        None => Ok(CopyPlan::Clipboard(rendered)),
    }
}

fn bytes_of(data: &[u8]) -> (copy: Vec<u8>)
    ensures
        copy@ == data@,
{
    let mut copy: Vec<u8> = Vec::new();
    let mut i: usize = 0;
    while i < data.len()
        invariant
            i <= data@.len(),
            copy@ == data@.take(i as int),
        decreases data@.len() - i,
    {
        copy.push(data[i]);
        assert(copy@ =~= data@.take(i + 1));
        i = i + 1;
    }
    assert(data@.take(i as int) =~= data@);
    copy
}

/// What putting an encoded PNG on the clipboard comes to.
pub open spec fn is_recopied(
    result: Result<CopyPlan, OutputError>,
    png: Seq<u8>,
    copy_command: Option<&str>,
) -> bool {
    match copy_command {
        Some(line) => result matches Ok(CopyPlan::Pipe { command, png: bytes }) && command@ == line@
            && bytes@ == png,
        None => match crate::codec::decoding(png) {
            Ok(found) => result matches Ok(CopyPlan::Clipboard(image)) && crate::codec::is_picture(
                image,
                found,
            ),
            Err(message) => result matches Err(OutputError::Encode(m)) && m@ == message,
        },
    }
}

/// Put an already encoded PNG on the clipboard, to copy it again from history.
pub fn copy_png_bytes(png: &[u8], copy_command: Option<&str>) -> (result: Result<
    CopyPlan,
    OutputError,
>)
    ensures
        is_recopied(result, png@, copy_command),
{
    match copy_command {
        Some(line) => Ok(CopyPlan::Pipe { command: line.to_owned(), png: bytes_of(png) }),
        None => match decode(png) {
            Ok(image) => Ok(CopyPlan::Clipboard(image)),
            Err(message) => Err(OutputError::Encode(message)),
        },
    }
}

/// A capture that was encoded and is copied again puts the very pixels on the
/// clipboard that were rendered.
pub proof fn law_copying_again_gives_back_the_pixels(
    image: RgbaImage,
    file: Vec<u8>,
    result: Result<CopyPlan, OutputError>,
)
    requires
        image.wf(),
        crate::codec::encodable(image.width, image.height),
        is_encoded(Ok(file), image, SaveFormat::Png),
        is_recopied(result, file@, None),
    ensures
        result matches Ok(CopyPlan::Clipboard(again)) && again.width == image.width && again.height
            == image.height && again.data@ == image.data@,
{
}

/// The shell that runs a copy command, and the flag that hands it the line.
pub fn shell_for(windows: bool) -> (shell: (&'static str, &'static str))
    ensures
        windows ==> shell.0@ == "cmd"@ && shell.1@ == "/C"@,
        !windows ==> shell.0@ == "sh"@ && shell.1@ == "-c"@,
{
    if windows {
        ("cmd", "/C")
    } else {
        ("sh", "-c")
    }
}

/// How running a copy command went.
#[derive(Debug)]
pub enum PipeOutcome {
    /// The command took the image and succeeded.
    Succeeded,
    /// The command ended, and says so.
    Exited(String),
    /// The command's standard input could not be opened.
    NoInput,
    /// The command could not be started, fed or waited for.
    Failed(String),
}

/// What went wrong with a copy command.
pub open spec fn pipe_failure(outcome: PipeOutcome) -> Option<Seq<char>> {
    match outcome {
        PipeOutcome::Succeeded => None,
        PipeOutcome::Exited(status) => Some("exited with "@ + status@),
        PipeOutcome::NoInput => Some("could not open stdin"@),
        PipeOutcome::Failed(message) => Some(message@),
    }
}

/// A copy command that fails is reported, not swallowed.
pub fn pipe_result(command: &str, outcome: PipeOutcome) -> (result: Result<(), OutputError>)
    ensures
        match pipe_failure(outcome) {
            None => result is Ok,
            Some(why) => result matches Err(OutputError::CopyCommand { command: c, message: m })
                && c@ == command@ && m@ == why,
        },
{
    let message = match outcome {
        PipeOutcome::Succeeded => {
            return Ok(());
        },
        PipeOutcome::Exited(status) => joined("exited with ", status.as_str()),
        PipeOutcome::NoInput => "could not open stdin".to_owned(),
        PipeOutcome::Failed(message) => message,
    };
    Err(OutputError::CopyCommand { command: command.to_owned(), message })
}

/// The extension of a chosen name asks for the format, in any case of its
/// letters. A name without one, or with one that stands for no format, asks for
/// PNG.
pub proof fn law_extensions_ask_for_formats(stem: Seq<char>, extension: Seq<char>)
    requires
        forall|i: int| 0 <= i < extension.len() ==> #[trigger] extension[i] != '.',
    ensures
        ({
            let format = format_of_path(stem + seq!['.'] + extension);
            let asked = crate::text::lowered(extension);
            &&& format is Jpeg <==> asked == "jpg"@ || asked == "jpeg"@
            &&& format is Webp <==> asked == "webp"@
            &&& format is Png <==> asked != "jpg"@ && asked != "jpeg"@ && asked != "webp"@
        }),
        format_of_path(extension) is Png,
{
    let path = stem + seq!['.'] + extension;
    let n = stem.len() as int;
    let from = crate::text::law_the_last_component_follows_the_last_separator(path, '.');
    assert(path[n] == '.');
    if from > n + 1 {
        assert(path[from - 1] == extension[from - 1 - n - 1]);
    }
    assert(from == n + 1);
    assert(path.subrange(n + 1, path.len() as int) =~= extension);
    let bare = crate::text::law_the_last_component_follows_the_last_separator(extension, '.');
    assert(bare == 0) by {
        if bare > 0 {
            assert(extension[bare - 1] == '.');
        }
    }
    assert(extension.subrange(0, extension.len() as int) =~= extension);
    reveal_strlit("jpg");
    reveal_strlit("jpeg");
    reveal_strlit("webp");
    assert("webp"@[0] != "jpg"@[0] && "webp"@[0] != "jpeg"@[0]);
}

/// The name that was chosen decides the format. Standard output, and a name that
/// is no text, leave it as configured.
pub proof fn law_the_chosen_name_decides(path: &str, configured: SaveFormat)
    ensures
        chosen_format(None, configured) == configured,
        path@ == "-"@ ==> chosen_format(Some(path), configured) == configured,
        path@ != "-"@ ==> chosen_format(Some(path), configured) == format_of_path(path@),
{
}

/// An encoder gets the picture's own bytes, or three for each pixel where the
/// format has no alpha.
pub proof fn law_encoders_get_the_pictures_bytes(image: RgbaImage)
    ensures
        encoder_input(image, SaveFormat::Png) == image.data@,
        encoder_input(image, SaveFormat::Webp) == image.data@,
        encoder_input(image, SaveFormat::Jpeg).len() == 3 * (image.width * image.height),
{
    assert(0 <= image.width * image.height) by (nonlinear_arith);
}

/// A copy command has failed unless it succeeded.
pub proof fn law_only_success_is_no_failure(outcome: PipeOutcome)
    ensures
        pipe_failure(outcome) is None <==> outcome is Succeeded,
{
}

/// The encoder's file is handed on byte by byte, and its message as it is.
pub proof fn law_encoding_is_handed_on(
    result: Result<Vec<u8>, OutputError>,
    image: RgbaImage,
    format: SaveFormat,
)
    requires
        is_encoded(result, image, format),
    ensures
        ({
            let encoded = crate::codec::encoding(
                format,
                image.width,
                image.height,
                encoder_input(image, format),
            );
            &&& result is Ok <==> encoded is Ok
            &&& result matches Ok(bytes) ==> bytes@ == encoded->Ok_0
            &&& result matches Err(e) ==> (e matches OutputError::Encode(m) && m@
                == encoded->Err_0)
        }),
{
}

} // verus!
