use bettershot::codec::{decode, SaveFormat};
use bettershot::output::{
    copy_png_bytes, copy_to_clipboard, encode, pipe_result, plan_write, require_output_path,
    shell_for, CopyPlan, Destination, OutputError, PipeOutcome,
};
use bettershot::picture::RgbaImage;

fn base() -> RgbaImage {
    RgbaImage::from_pixel(40, 30, [255, 255, 255, 255]).unwrap()
}

/// The base with a filled rectangle drawn on it.
fn annotated() -> RgbaImage {
    let mut img = base();
    for y in 5..20usize {
        for x in 5..25usize {
            let at = (y * 40 + x) * 4;
            img.data[at..at + 4].copy_from_slice(&[200, 30, 40, 128]);
        }
    }
    img
}

#[test]
fn png_and_webp_round_trip_through_the_encoder() {
    let rendered = annotated();
    for format in [SaveFormat::Png, SaveFormat::Webp] {
        let bytes = encode(&rendered, format).expect("should encode");
        assert!(!bytes.is_empty(), "{format:?} produced nothing");
        let decoded = image::load_from_memory(&bytes).expect("should decode");
        assert_eq!(decoded.width(), 40);
        assert_eq!(decoded.height(), 30);
        assert_eq!(decoded.into_rgba8().into_raw(), rendered.data);
        let again = decode(&bytes).expect("should decode");
        assert_eq!((again.width, again.height), (40, 30));
        assert_eq!(again.data, rendered.data);
    }
}

#[test]
fn jpeg_export_flattens_transparency_instead_of_failing() {
    let mut transparent = base();
    transparent.data[0..4].copy_from_slice(&[0, 0, 0, 0]);
    let bytes = encode(&transparent, SaveFormat::Jpeg).expect("JPEG should encode");
    let decoded = image::load_from_memory(&bytes).expect("should decode");
    assert_eq!(decoded.width(), 40);
    assert!(decoded.into_rgba8().get_pixel(0, 0).0[0] > 240, "clear pixels become white");
}

#[test]
fn the_largest_allowed_sizes_still_encode() {
    for (width, height) in [(16384, 1), (1, 16384)] {
        let wide = RgbaImage::from_pixel(width, height, [1, 2, 3, 4]).unwrap();
        for format in [SaveFormat::Png, SaveFormat::Webp, SaveFormat::Jpeg] {
            let bytes = encode(&wide, format).expect("should encode");
            if format != SaveFormat::Jpeg {
                assert_eq!(decode(&bytes).unwrap().data, wide.data);
            }
        }
    }
}

#[test]
fn an_image_too_large_for_the_format_is_an_error() {
    let wide = RgbaImage::from_pixel(70_000, 1, [0, 0, 0, 255]).unwrap();
    match encode(&wide, SaveFormat::Jpeg) {
        Err(OutputError::Encode(why)) => {
            assert_eq!(
                OutputError::Encode(why.clone()).message(),
                format!("could not encode the image: {why}")
            );
        }
        other => panic!("unexpected: {other:?}"),
    }
}

#[test]
fn saving_without_a_configured_path_is_a_clear_error() {
    let err = require_output_path(None).unwrap_err();
    assert!(matches!(err, OutputError::NoOutputPath));
    assert_eq!(
        err.message(),
        "no output filename configured; use --output-filename or Ctrl+Shift+S"
    );
    assert_eq!(require_output_path(Some("a.png".to_owned())).unwrap(), "a.png");
}

#[test]
fn a_dash_output_path_writes_to_stdout_not_a_file_called_dash() {
    let plan = plan_write(&annotated(), Some("-"), SaveFormat::Webp).expect("should encode");
    assert_eq!(plan.destination, Destination::Stdout);
    assert_eq!(image::guess_format(&plan.bytes).unwrap(), image::ImageFormat::WebP);
}

#[test]
fn the_extension_chooses_the_format_over_the_configured_default() {
    let plan = plan_write(&annotated(), Some("/tmp/a/shot.jpg"), SaveFormat::Png).expect("encodes");
    assert_eq!(plan.destination, Destination::File);
    assert_eq!(image::guess_format(&plan.bytes).unwrap(), image::ImageFormat::Jpeg);
    let plan = plan_write(&annotated(), None, SaveFormat::Png).expect("encodes");
    assert_eq!(plan.destination, Destination::File);
    assert_eq!(image::guess_format(&plan.bytes).unwrap(), image::ImageFormat::Png);
}

#[test]
fn file_names_name_their_format() {
    assert_eq!(SaveFormat::from_path("shot.JPEG"), SaveFormat::Jpeg);
    assert_eq!(SaveFormat::from_path("a.b/shot.webp"), SaveFormat::Webp);
    assert_eq!(SaveFormat::from_path("shot.png"), SaveFormat::Png);
    assert_eq!(SaveFormat::from_path("jpg"), SaveFormat::Png);
    assert_eq!(SaveFormat::from_path("shot.tiff"), SaveFormat::Png);
}

#[test]
fn a_copy_command_receives_the_png_on_stdin() {
    match copy_to_clipboard(annotated(), Some("cat > /tmp/piped.png")).expect("should encode") {
        CopyPlan::Pipe { command, png } => {
            assert_eq!(command, "cat > /tmp/piped.png");
            assert!(!png.is_empty());
            assert_eq!(&png[1..4], b"PNG", "stdin received a PNG");
        }
        CopyPlan::Clipboard(_) => panic!("the command was ignored"),
    }
}

#[test]
fn a_failing_copy_command_is_reported_not_swallowed() {
    let err = pipe_result("exit 3", PipeOutcome::Exited("exit status: 3".to_owned())).unwrap_err();
    assert_eq!(err.message(), "copy command `exit 3` failed: exited with exit status: 3");
    assert!(
        matches!(err, OutputError::CopyCommand { .. }),
        "got {err:?}"
    );
    let err = pipe_result("cat", PipeOutcome::NoInput).unwrap_err();
    assert_eq!(err.message(), "copy command `cat` failed: could not open stdin");
    let err = pipe_result("cat", PipeOutcome::Failed("no such file".to_owned())).unwrap_err();
    assert_eq!(err.message(), "copy command `cat` failed: no such file");
    assert!(pipe_result("cat", PipeOutcome::Succeeded).is_ok());
}

#[test]
fn without_a_copy_command_the_pixels_go_to_the_clipboard() {
    match copy_to_clipboard(annotated(), None).unwrap() {
        CopyPlan::Clipboard(img) => assert_eq!(img.data, annotated().data),
        CopyPlan::Pipe { .. } => panic!("there is no command"),
    }
}

#[test]
fn copying_a_remembered_capture_gives_back_its_pixels() {
    let png = encode(&annotated(), SaveFormat::Png).unwrap();
    match copy_png_bytes(&png, None).unwrap() {
        CopyPlan::Clipboard(img) => assert_eq!(img.data, annotated().data),
        CopyPlan::Pipe { .. } => panic!("there is no command"),
    }
    match copy_png_bytes(&png, Some("wl-copy")).unwrap() {
        CopyPlan::Pipe { command, png: piped } => {
            assert_eq!(command, "wl-copy");
            assert_eq!(piped, png);
        }
        CopyPlan::Clipboard(_) => panic!("the command was ignored"),
    }
    assert!(matches!(copy_png_bytes(b"junk", None), Err(OutputError::Encode(_))));
}

#[test]
fn the_shell_follows_the_platform() {
    assert_eq!(shell_for(true), ("cmd", "/C"));
    assert_eq!(shell_for(false), ("sh", "-c"));
}

#[test]
fn write_and_clipboard_errors_name_their_cause() {
    let write = OutputError::Write { path: "/x".to_owned(), source: "denied".to_owned() };
    assert_eq!(write.message(), "could not write /x: denied");
    let clipboard = OutputError::Clipboard("busy".to_owned());
    assert_eq!(clipboard.message(), "clipboard unavailable: busy");
}
