use lazymagick::magick::{safe_output_path, CommandBuilder, ExifInfo, MagickError};

fn strings(v: &[&str]) -> Vec<String> {
    v.iter().map(|s| s.to_string()).collect()
}

// ── build_argv ──────────────────────────────────────────────────────

#[test]
fn build_argv_basic_structure() {
    let argv = CommandBuilder::build_argv(
        "in.png",
        &strings(&["-strip"]),
        &strings(&["-quality", "85"]),
        "out.webp",
    );

    assert_eq!(argv[0], "magick");
    assert_eq!(argv[1], "in.png");
    assert_eq!(argv[2], "-strip");
    assert_eq!(argv[3], "-quality");
    assert_eq!(argv[4], "85");
    assert_eq!(argv[5], "out.webp");
}

#[test]
fn build_argv_empty_args() {
    let argv = CommandBuilder::build_argv("a.jpg", &Vec::new(), &Vec::new(), "b.png");

    assert_eq!(argv.len(), 3);
    assert_eq!(argv[0], "magick");
    assert_eq!(argv[1], "a.jpg");
    assert_eq!(argv[2], "b.png");
}

#[test]
fn build_argv_multiple_recipe_args() {
    let recipe_args = strings(&["-strip", "-flatten", "-resize", "800x600"]);
    let argv = CommandBuilder::build_argv(
        "input.tif",
        &recipe_args,
        &strings(&["-quality", "90"]),
        "output.jpg",
    );

    assert_eq!(argv[0], "magick");
    assert_eq!(argv[1], "input.tif");
    assert_eq!(argv[2], "-strip");
    assert_eq!(argv[3], "-flatten");
    assert_eq!(argv[4], "-resize");
    assert_eq!(argv[5], "800x600");
    assert_eq!(argv[6], "-quality");
    assert_eq!(argv[7], "90");
    assert_eq!(argv[8], "output.jpg");
}

// ── identify ────────────────────────────────────────────────────────

#[test]
fn identify_parses_real_image() {
    let path = "/tmp/test_identify.png";
    let info = CommandBuilder::parse_identify(path, true, "PNG|100x100|1-bit|Gray|321B\n", "")
        .ok()
        .unwrap();

    assert_eq!(info.path, path);
    assert_eq!(info.format, "PNG");
    assert_eq!(info.dimensions, "100x100");
    assert_eq!(info.bit_depth, "1-bit");
    assert_eq!(info.color_space, "Gray");
    assert_eq!(info.file_size, "321B");
}

#[test]
fn identify_fails_on_missing_file() {
    let missing = "/tmp/this_file_does_not_exist_42.png";
    let stderr = "magick: unable to open image '/tmp/this_file_does_not_exist_42.png': \
                  No such file or directory\n";
    let err = CommandBuilder::parse_identify(missing, false, "", stderr).err().unwrap();

    assert!(
        matches!(err, MagickError::IdentifyFailed(_)),
        "expected IdentifyFailed, got {}",
        err.message()
    );
    match err {
        MagickError::IdentifyFailed(m) => assert_eq!(m, stderr.trim()),
        _ => unreachable!(),
    }
}

#[test]
fn identify_rejects_short_output() {
    let err = CommandBuilder::parse_identify("x.png", true, "  PNG|10x10 \n", "").err().unwrap();
    match err {
        MagickError::IdentifyFailed(m) => {
            assert_eq!(m, "unexpected identify output format: \"PNG|10x10\"");
        }
        _ => panic!("expected IdentifyFailed"),
    }
}

#[test]
fn identify_keeps_extra_fields_out() {
    let info = CommandBuilder::parse_identify("y.jpg", true, "JPEG|1x2|8-bit|sRGB|1KB|extra", "")
        .ok()
        .unwrap();
    assert_eq!(info.format, "JPEG");
    assert_eq!(info.file_size, "1KB");
}

// ── error messages ──────────────────────────────────────────────────

#[test]
fn magick_error_messages() {
    assert_eq!(MagickError::NotFound.message(), "magick binary not found on $PATH");
    assert_eq!(
        MagickError::IdentifyFailed("bad".into()).message(),
        "magick identify failed: bad"
    );
    assert_eq!(MagickError::RunFailed("boom".into()).message(), "magick command failed: boom");
    let io = std::io::Error::new(std::io::ErrorKind::NotFound, "no such thing");
    assert_eq!(MagickError::Io(io).message(), "I/O error: no such thing");
}

// ── EXIF ────────────────────────────────────────────────────────────

#[test]
fn parse_exif_reads_known_properties() {
    let out = "Image: photo.jpg\n  Format: JPEG\n  Properties:\n    exif:Make: Canon\n    \
               exif:Model: EOS 5D\n    exif:ISOSpeedRatings: 400\n    exif:ExposureTime: 1/200\n    \
               exif:FNumber: 28/10\n    exif:FocalLength: 50/1\n    \
               exif:DateTimeOriginal: 2020:01:02 03:04:05\n    exif:Software: GIMP\n    \
               exif:Orientation: 1\n    exif:Flash: 16\n    date:create: 2024-01-01\n\
               Artifacts:\n    exif:Make: Ignored\n";
    let exif = CommandBuilder::parse_exif(out);
    assert_eq!(exif.make, "Canon");
    assert_eq!(exif.model, "EOS 5D");
    assert_eq!(exif.iso, "400");
    assert_eq!(exif.exposure, "1/200");
    assert_eq!(exif.aperture, "28/10");
    assert_eq!(exif.focal_length, "50/1");
    assert_eq!(exif.date_taken, "2020:01:02 03:04:05");
    assert_eq!(exif.software, "GIMP");
    assert_eq!(exif.orientation, "1");
    assert!(exif.raw.iter().any(|(k, v)| k == "exif:Flash" && v == "16"));
    assert!(exif.raw.iter().any(|(k, v)| k == "date:create" && v == "2024-01-01"));
}

#[test]
fn parse_exif_of_nothing_is_empty() {
    let exif = CommandBuilder::parse_exif("");
    let empty = ExifInfo::new();
    assert_eq!(exif.make, empty.make);
    assert!(exif.raw.is_empty());
    assert!(exif.model.is_empty());
}

// ── safe_output_path ────────────────────────────────────────────────

#[test]
fn safe_output_different_extensions() {
    let out = safe_output_path("photo.png", "photo.webp", "to webp");
    assert_eq!(out, "photo.webp");
}

#[test]
fn safe_output_same_extension_adds_suffix() {
    let out = safe_output_path("photo.png", "photo.png", "optimize");
    assert_eq!(out, "photo_optimize.png");
}

#[test]
fn safe_output_same_extension_custom_suffix() {
    let out = safe_output_path("input.jpg", "input.jpg", "Convert To Small");
    assert_eq!(out, "input_converttosmall.jpg");
}

#[test]
fn safe_output_no_input_extension() {
    let out = safe_output_path("input", "input.webp", "test");
    assert_eq!(out, "input.webp");
}

#[test]
fn safe_output_both_no_extension() {
    let out = safe_output_path("input", "output", "process");
    assert_eq!(out, "output_process");
}

#[test]
fn safe_output_preserves_directory() {
    let out = safe_output_path("sub/photo.png", "sub/photo.png", "opt");
    assert_eq!(out, "sub/photo_opt.png");
}

#[test]
fn safe_output_extension_case_is_ignored() {
    let out = safe_output_path("photo.PNG", "photo.png", "Crop Center");
    assert_eq!(out, "photo_cropcenter.png");
}

#[test]
fn safe_output_on_its_own_input_never_overwrites() {
    for input in ["a.png", "dir/b.JPG", "noext", "/abs/c.tar.gz", ".hidden"] {
        assert_ne!(safe_output_path(input, input, "Some Recipe"), input);
    }
}

#[test]
fn safe_output_never_gives_back_the_input() {
    assert_eq!(safe_output_path("a_b.png", "a.png", "b"), "a_b_b.png");
    assert_eq!(safe_output_path("dir/x_y.jpg", "dir/x.jpg", "Y"), "dir/x_y_y.jpg");
    assert_eq!(safe_output_path("dir/x_y.jpg", "dir/x.JPG", "Y"), "dir/x_y.JPG");
}
