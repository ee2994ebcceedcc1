use lazymagick::fs_utils::{
    format_file_size, is_image, safe_output_path, sanitize_name, DirListing,
};

const IMAGE_EXTENSIONS: [&str; 12] = [
    "png", "jpg", "jpeg", "webp", "avif", "heic", "jxl", "tiff", "tif", "gif", "bmp", "svg",
];

// ── is_image ────────────────────────────────────────────────────────

#[test]
fn is_image_recognises_common_formats() {
    for ext in IMAGE_EXTENSIONS {
        let name = format!("photo.{ext}");
        assert!(is_image(&name), "expected {ext} to be recognised");
    }
}

#[test]
fn is_image_rejects_non_images() {
    assert!(!is_image("readme.txt"));
    assert!(!is_image("script.rs"));
    assert!(!is_image("Makefile"));
    assert!(!is_image("data.json"));
}

#[test]
fn is_image_case_insensitive() {
    assert!(is_image("photo.PNG"));
    assert!(is_image("photo.JPG"));
    assert!(is_image("photo.WebP"));
    assert!(is_image("photo.AVIF"));
}

#[test]
fn is_image_no_extension() {
    assert!(!is_image("photo"));
    assert!(!is_image(".hidden"));
}

#[test]
fn is_image_looks_at_the_last_extension_only() {
    assert!(is_image("archive.tar.png"));
    assert!(!is_image("photo.png.bak"));
    assert!(is_image("dir.with.dots/photo.gif"));
    assert!(!is_image("images.png/readme"));
}

// ── directory listings ──────────────────────────────────────────────

fn entry(p: &str, is_dir: bool) -> (String, bool) {
    (p.to_string(), is_dir)
}

#[test]
fn list_directory_on_temp_dir() {
    let listing = DirListing::from_entries(vec![
        entry("/tmp/t/photo.png", false),
        entry("/tmp/t/image.jpg", false),
        entry("/tmp/t/notes.txt", false),
        entry("/tmp/t/subdir", true),
        entry("/tmp/t/.hidden", false),
    ]);

    assert_eq!(listing.directories.len(), 1);
    assert!(listing.directories[0].ends_with("subdir"));

    assert_eq!(listing.image_files.len(), 2);
    assert!(listing.image_files.iter().any(|p| p.ends_with("photo.png")));
    assert!(listing.image_files.iter().any(|p| p.ends_with("image.jpg")));

    assert_eq!(listing.other_files.len(), 2);
    assert!(listing.other_files.iter().any(|p| p.ends_with("notes.txt")));
    assert!(listing.other_files.iter().any(|p| p.ends_with(".hidden")));

    assert!(!listing.is_empty());
    assert_eq!(listing.total(), 5);
}

#[test]
fn list_directory_empty() {
    let listing = DirListing::from_entries(Vec::new());
    assert!(listing.is_empty());
    assert_eq!(listing.total(), 0);
}

#[test]
fn listing_buckets_are_sorted_by_path() {
    let listing = DirListing::from_entries(vec![
        entry("d/b.png", false),
        entry("d/z", true),
        entry("d/a.png", false),
        entry("d/c.txt", false),
        entry("d/a", true),
        entry("d/B.txt", false),
    ]);
    assert_eq!(listing.directories, vec!["d/a", "d/z"]);
    assert_eq!(listing.image_files, vec!["d/a.png", "d/b.png"]);
    assert_eq!(listing.other_files, vec!["d/B.txt", "d/c.txt"]);
    assert_eq!(listing.total(), 6);
}

#[test]
fn new_listing_is_empty() {
    let listing = DirListing::new();
    assert!(listing.is_empty());
    assert_eq!(listing.total(), 0);
}

// ── safe_output_path ────────────────────────────────────────────────

#[test]
fn safe_output_path_different_ext_no_suffix() {
    let p = safe_output_path("photo.png", "webp", "lazymagick");
    assert_eq!(p, "photo.webp");
}

#[test]
fn safe_output_path_same_ext_adds_suffix() {
    let p = safe_output_path("photo.png", "png", "lazymagick");
    assert_eq!(p, "photo_lazymagick.png");
}

#[test]
fn safe_output_path_same_ext_case_insensitive() {
    let p = safe_output_path("photo.PNG", "png", "v2");
    assert_eq!(p, "photo_v2.png");
}

#[test]
fn safe_output_path_no_input_extension() {
    let p = safe_output_path("photo", "png", "lazymagick");
    assert_eq!(p, "photo.png");
}

#[test]
fn safe_output_path_preserves_parent() {
    let p = safe_output_path("sub/photo.png", "png", "v2");
    assert_eq!(p, "sub/photo_v2.png");
}

#[test]
fn safe_output_path_never_returns_the_input() {
    for input in ["photo.png", "a/b/photo.PNG", "photo", ".hidden", "/x/y.tar.gz", "dir/"] {
        for ext in ["png", "webp", "gz", "hidden"] {
            let p = safe_output_path(input, ext, "s");
            assert_ne!(p, input, "{input} with {ext}");
        }
    }
}

#[test]
fn safe_output_path_stays_beside_the_input() {
    for input in ["photo.png", "a/b/photo.PNG", "/x/y.tar.gz", "/top.jpg", "deep/dir/.hidden"] {
        for ext in ["png", "webp", "gz"] {
            let p = safe_output_path(input, ext, "s");
            let want = std::path::Path::new(input).parent().unwrap_or(std::path::Path::new(""));
            assert_eq!(std::path::Path::new(&p).parent(), Some(want), "{input} with {ext}");
        }
    }
}

#[test]
fn safe_output_path_without_file_name_gives_the_extension() {
    assert_eq!(safe_output_path("/", "png", "s"), "png");
    assert_eq!(safe_output_path("", "png", "s"), "png");
}

// ── format_file_size ────────────────────────────────────────────────

#[test]
fn format_file_size_bytes() {
    assert_eq!(format_file_size(0), "0B");
    assert_eq!(format_file_size(1), "1B");
    assert_eq!(format_file_size(1023), "1023B");
}

#[test]
fn format_file_size_kb() {
    assert_eq!(format_file_size(1024), "1KB");
    assert_eq!(format_file_size(45_000), "44KB");
    assert_eq!(format_file_size(1_048_575), "1024KB");
}

#[test]
fn format_file_size_mb() {
    assert_eq!(format_file_size(1_048_576), "1.0MB");
    assert_eq!(format_file_size(2_097_152), "2.0MB");
    assert_eq!(format_file_size(1_500_000), "1.4MB");
}

#[test]
fn format_file_size_rounds_half_to_even() {
    // 1536 B is exactly 1.5 KB: rounded away from zero.
    assert_eq!(format_file_size(1536), "2KB");
    // 2560 B is exactly 2.5 KB.
    assert_eq!(format_file_size(2560), "3KB");
    // 1.25 MB and 1.75 MB are exact in binary; {:.1} rounds them to even.
    assert_eq!(format_file_size(1_310_720), "1.2MB");
    assert_eq!(format_file_size(1_835_008), "1.8MB");
}

#[test]
fn format_file_size_agrees_with_float_formatting() {
    let samples: [u64; 10] = [
        1_048_576,
        1_100_000,
        5_242_880,
        10_000_000,
        123_456_789,
        999_999_999,
        1 << 40,
        (1 << 53) + 1,
        u64::MAX / 3,
        u64::MAX,
    ];
    for b in samples {
        let expected = format!("{:.1}MB", b as f64 / 1_048_576.0);
        assert_eq!(format_file_size(b), expected, "{b}");
    }
    for b in [1024u64, 1500, 2047, 2048, 500_000, 1_048_575] {
        let expected = format!("{}KB", (b as f64 / 1024.0).round() as u64);
        assert_eq!(format_file_size(b), expected, "{b}");
    }
}

// ── sanitize_name ───────────────────────────────────────────────────

#[test]
fn sanitize_name_lowercases() {
    assert_eq!(sanitize_name("HELLO"), "hello");
}

#[test]
fn sanitize_name_replaces_spaces() {
    assert_eq!(sanitize_name("my recipe"), "my_recipe");
}

#[test]
fn sanitize_name_removes_special_chars() {
    assert_eq!(sanitize_name("Resize-50%!"), "resize_50");
}

#[test]
fn sanitize_name_handles_leading_trailing_spaces() {
    assert_eq!(sanitize_name("  hello  world  "), "hello_world");
}

#[test]
fn sanitize_name_empty_string() {
    assert_eq!(sanitize_name(""), "");
}

#[test]
fn sanitize_name_doc_examples() {
    assert_eq!(sanitize_name("My Recipe!"), "my_recipe");
    assert_eq!(sanitize_name("  Hello  World  "), "hello_world");
    assert_eq!(sanitize_name("Resize-50%"), "resize_50");
}

#[test]
fn sanitize_name_is_idempotent_and_clean() {
    for s in ["__a__b__", "Ünïcode Name", "x", "---", "A1 b2 C3", "tab\tsep"] {
        let once = sanitize_name(s);
        assert_eq!(sanitize_name(&once), once);
        assert!(once.chars().all(|c| c.is_ascii_lowercase() || c.is_ascii_digit() || c == '_'));
        assert!(!once.starts_with('_') && !once.ends_with('_') && !once.contains("__"));
    }
    assert_eq!(sanitize_name("Ünïcode Name"), "n_code_name");
}
