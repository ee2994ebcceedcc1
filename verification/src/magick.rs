//! The `magick` command line: argument vectors, output naming, and the
//! parsing of what `magick identify` prints.

use vstd::prelude::*;
use vstd::string::*;
use crate::paths::{extension, file_stem, join, join_path, parent, PathParts};
use crate::text::{
    all_ascii, ascii_lower, ascii_lower_seq, char_lowercase, char_to_lowercase, chars_of, copy_str,
    ends_with, non_white_chars,
    has_prefix, has_suffix, is_white, lemma_strs_push, lines, lines_str, push_char,
    push_chars, push_str, split, split_once, split_once_str, split_str, starts_with, str_eq,
    strs, trim, trim_str, white,
};
use crate::fs_utils::ascii_lowercase;

verus! {

/// Information about an image file, as `magick identify` reports it.
pub struct ImageInfo {
    /// Path of the image (as passed to `identify`).
    pub path: String,
    /// Image format, e.g. `PNG`.
    pub format: String,
    /// Dimensions, e.g. `1920x1080`.
    pub dimensions: String,
    /// Bit depth, e.g. `8-bit`.
    pub bit_depth: String,
    /// Colour space, e.g. `sRGB`.
    pub color_space: String,
    /// Human-readable file size, e.g. `2.1MB`.
    pub file_size: String,
}

/// EXIF metadata read from `magick identify -verbose`.
pub struct ExifInfo {
    /// Camera make.
    pub make: String,
    /// Camera model.
    pub model: String,
    /// ISO speed.
    pub iso: String,
    /// Exposure time.
    pub exposure: String,
    /// Aperture.
    pub aperture: String,
    /// Focal length.
    pub focal_length: String,
    /// Date taken.
    pub date_taken: String,
    /// GPS latitude.
    pub gps_latitude: String,
    /// GPS longitude.
    pub gps_longitude: String,
    /// Software used.
    pub software: String,
    /// Orientation.
    pub orientation: String,
    /// Other `exif:` and `date:` properties, in the order read.
    pub raw: Vec<(String, String)>,
}

/// The contents of an [`ExifInfo`].
pub struct ExifView {
    pub make: Seq<char>,
    pub model: Seq<char>,
    pub iso: Seq<char>,
    pub exposure: Seq<char>,
    pub aperture: Seq<char>,
    pub focal_length: Seq<char>,
    pub date_taken: Seq<char>,
    pub gps_latitude: Seq<char>,
    pub gps_longitude: Seq<char>,
    pub software: Seq<char>,
    pub orientation: Seq<char>,
    pub raw: Seq<(Seq<char>, Seq<char>)>,
}

impl View for ExifInfo {
    type V = ExifView;

    open spec fn view(&self) -> ExifView {
        ExifView {
            make: self.make@,
            model: self.model@,
            iso: self.iso@,
            exposure: self.exposure@,
            aperture: self.aperture@,
            focal_length: self.focal_length@,
            date_taken: self.date_taken@,
            gps_latitude: self.gps_latitude@,
            gps_longitude: self.gps_longitude@,
            software: self.software@,
            orientation: self.orientation@,
            raw: self.raw@.map_values(|p: (String, String)| (p.0@, p.1@)),
        }
    }
}

/// An [`ExifView`] with every field empty.
pub open spec fn empty_exif() -> ExifView {
    ExifView {
        make: Seq::empty(),
        model: Seq::empty(),
        iso: Seq::empty(),
        exposure: Seq::empty(),
        aperture: Seq::empty(),
        focal_length: Seq::empty(),
        date_taken: Seq::empty(),
        gps_latitude: Seq::empty(),
        gps_longitude: Seq::empty(),
        software: Seq::empty(),
        orientation: Seq::empty(),
        raw: Seq::empty(),
    }
}

impl ExifInfo {
    /// Metadata with every field empty.
    pub fn new() -> (r: ExifInfo)
        ensures
            r@ == empty_exif(),
    {
        let r = ExifInfo {
            make: String::new(),
            model: String::new(),
            iso: String::new(),
            exposure: String::new(),
            aperture: String::new(),
            focal_length: String::new(),
            date_taken: String::new(),
            gps_latitude: String::new(),
            gps_longitude: String::new(),
            software: String::new(),
            orientation: String::new(),
            raw: Vec::new(),
        };
        assert(r@.raw =~= Seq::<(Seq<char>, Seq<char>)>::empty());
        r
    }
}

impl Default for ExifInfo {
    fn default() -> (r: ExifInfo)
        ensures
            r@ == empty_exif(),
    {
        ExifInfo::new()
    }
}

/// `std::io::Error`, carried through in [`MagickError::Io`].
#[verifier::external_type_specification]
#[verifier::external_body]
pub struct ExIoError(std::io::Error);

/// Errors of `magick` operations.
pub enum MagickError {
    /// The `magick` binary was not found on `$PATH`.
    NotFound,
    /// `magick identify` failed (the message says why).
    IdentifyFailed(String),
    /// A `magick` command failed (its stderr).
    RunFailed(String),
    /// An I/O error, e.g. while spawning the process.
    Io(std::io::Error),
}

/// The text of an I/O error (`Display` of `std::io::Error`). It depends on
/// the operating system's messages, and the contract says nothing of it.
#[verifier::external_body]
fn io_error_text(e: &std::io::Error) -> String {
    format!("{e}")
}

impl MagickError {
    /// The message shown for the error.
    pub fn message(&self) -> (r: String)
        ensures
            match self {
                MagickError::NotFound => r@ == "magick binary not found on $PATH"@,
                MagickError::IdentifyFailed(m) => r@ == "magick identify failed: "@ + m@,
                MagickError::RunFailed(m) => r@ == "magick command failed: "@ + m@,
                MagickError::Io(_) => starts_with(r@, "I/O error: "@),
            },
    {
        let mut r = String::new();
        match self {
            MagickError::NotFound => {
                push_str(&mut r, "magick binary not found on $PATH");
            },
            MagickError::IdentifyFailed(m) => {
                push_str(&mut r, "magick identify failed: ");
                push_str(&mut r, m.as_str());
            },
            MagickError::RunFailed(m) => {
                push_str(&mut r, "magick command failed: ");
                push_str(&mut r, m.as_str());
            },
            MagickError::Io(e) => {
                push_str(&mut r, "I/O error: ");
                let ghost head = r@;
                let t = io_error_text(e);
                push_str(&mut r, t.as_str());
                assert(r@.subrange(0, head.len() as int) =~= head);
            },
        }
        r
    }
}

/// Builds the argument vectors of `magick` commands and reads what
/// `magick identify` prints.
pub struct CommandBuilder;

/// The argument vector `magick {input} {recipe_args} {format_args}
/// {output}`.
pub open spec fn argv_of(
    input: Seq<char>,
    recipe_args: Seq<Seq<char>>,
    format_args: Seq<Seq<char>>,
    output: Seq<char>,
) -> Seq<Seq<char>> {
    seq!["magick"@, input] + recipe_args + format_args + seq![output]
}

/// What `format!("{:?}", s)` gives for a string.
pub uninterp spec fn debug_text(s: Seq<char>) -> Seq<char>;

/// `Debug` formatting of a string (quoted, with escapes). The contract
/// names the result and says nothing more of it.
#[verifier::external_body]
fn debug_quoted(s: &str) -> (r: String)
    ensures
        r@ == debug_text(s@),
{
    format!("{s:?}")
}

/// Pushes copies of `src[from..]` onto `dst`.
fn extend_cloned(dst: &mut Vec<String>, src: &Vec<String>)
    ensures
        strs(final(dst)@) == strs(old(dst)@) + strs(src@),
{
    let ghost start = strs(dst@);
    let mut i: usize = 0;
    while i < src.len()
        invariant
            i <= src.len(),
            strs(dst@) == start + strs(src@).subrange(0, i as int),
        decreases src.len() - i,
    {
        let x = src[i].clone();
        proof {
            lemma_strs_push(dst@, x);
        }
        dst.push(x);
        i = i + 1;
        assert(strs(dst@) =~= start + strs(src@).subrange(0, i as int));
    }
    assert(strs(src@).subrange(0, src.len() as int) =~= strs(src@));
}

/// The identify result for a run that succeeded with output `out`
/// (already trimmed): the five `|`-separated fields, or an error when
/// fewer came back.
pub open spec fn identify_fields_ok(
    path: Seq<char>,
    out: Seq<char>,
    info: ImageInfo,
) -> bool {
    let f = split(out, '|');
    &&& f.len() >= 5
    &&& info.path@ == path
    &&& info.format@ == f[0]
    &&& info.dimensions@ == f[1]
    &&& info.bit_depth@ == f[2]
    &&& info.color_space@ == f[3]
    &&& info.file_size@ == f[4]
}

impl CommandBuilder {
    /// Build the argument vector for a `magick` command: `magick`, the
    /// input, the recipe arguments, the format arguments, the output.
    pub fn build_argv(
        input: &str,
        recipe_args: &Vec<String>,
        format_args: &Vec<String>,
        output: &str,
    ) -> (r: Vec<String>)
        ensures
            strs(r@) == argv_of(input@, strs(recipe_args@), strs(format_args@), output@),
    {
        let mut argv: Vec<String> = Vec::new();
        let m = copy_str("magick");
        proof {
            lemma_strs_push(argv@, m);
        }
        argv.push(m);
        let i = copy_str(input);
        proof {
            lemma_strs_push(argv@, i);
        }
        argv.push(i);
        extend_cloned(&mut argv, recipe_args);
        extend_cloned(&mut argv, format_args);
        let o = copy_str(output);
        proof {
            lemma_strs_push(argv@, o);
        }
        argv.push(o);
        assert(strs(argv@) =~= argv_of(
            input@,
            strs(recipe_args@),
            strs(format_args@),
            output@,
        ));
        argv
    }

    /// Read the result of `magick identify -format
    /// '%m|%wx%h|%z-bit|%[colorspace]|%b' {path}`: on failure, the trimmed
    /// stderr; on success, the five `|`-separated fields of the trimmed
    /// stdout, or an error naming the output when there are fewer.
    pub fn parse_identify(path: &str, success: bool, stdout: &str, stderr: &str) -> (r: Result<
        ImageInfo,
        MagickError,
    >)
        ensures
            !success ==> (r matches Err(MagickError::IdentifyFailed(m)) && m@ == trim(stderr@)),
            success && split(trim(stdout@), '|').len() < 5 ==> (r matches Err(
                MagickError::IdentifyFailed(m),
            ) && m@ == "unexpected identify output format: "@ + debug_text(trim(stdout@))),
            success && split(trim(stdout@), '|').len() >= 5 ==> (r matches Ok(info)
                && identify_fields_ok(path@, trim(stdout@), info)),
    {
        if !success {
            return Err(MagickError::IdentifyFailed(trim_str(stderr)));
        }
        let out = trim_str(stdout);
        let fields = split_str(out.as_str(), '|');
        if fields.len() < 5 {
            let mut m = String::new();
            push_str(&mut m, "unexpected identify output format: ");
            let q = debug_quoted(out.as_str());
            push_str(&mut m, q.as_str());
            return Err(MagickError::IdentifyFailed(m));
        }
        assert(fields@[0]@ == strs(fields@)[0]);
        assert(fields@[1]@ == strs(fields@)[1]);
        assert(fields@[2]@ == strs(fields@)[2]);
        assert(fields@[3]@ == strs(fields@)[3]);
        assert(fields@[4]@ == strs(fields@)[4]);
        Ok(
            ImageInfo {
                path: copy_str(path),
                format: fields[0].clone(),
                dimensions: fields[1].clone(),
                bit_depth: fields[2].clone(),
                color_space: fields[3].clone(),
                file_size: fields[4].clone(),
            },
        )
    }

    /// Read the EXIF metadata out of what `magick identify -verbose`
    /// printed. Fields that are not present stay empty.
    pub fn parse_exif(stdout: &str) -> (r: ExifInfo)
        ensures
            r@ == exif_of(lines(stdout@)),
    {
        let ls = lines_str(stdout);
        let mut exif = ExifInfo::new();
        let mut in_props = false;
        let mut i: usize = 0;
        while i < ls.len()
            invariant
                strs(ls@) == lines(stdout@),
                i <= ls.len(),
                (in_props, exif@) == exif_fold(lines(stdout@), i as int),
            decreases ls.len() - i,
        {
            assert(ls@[i as int]@ == lines(stdout@)[i as int]);
            in_props = exif_line_step(in_props, &mut exif, ls[i].as_str());
            i = i + 1;
        }
        exif
    }
}

// ── EXIF parsing ──────────────────────────────────────────────────────

/// Whether a trimmed property line is one the parser reads.
pub open spec fn is_exif_property(t: Seq<char>) -> bool {
    starts_with(t, "exif:"@) || starts_with(t, "date:"@) || starts_with(t, "xmp:"@)
        || starts_with(t, "png:"@) || starts_with(t, "jpeg:"@) || starts_with(t, "signature"@)
}

/// The metadata after reading the property `key` with value `val`.
pub open spec fn exif_set(x: ExifView, key: Seq<char>, val: Seq<char>) -> ExifView {
    if key == "exif:Make"@ {
        ExifView { make: val, ..x }
    } else if key == "exif:Model"@ {
        ExifView { model: val, ..x }
    } else if key == "exif:ISOSpeedRatings"@ || key == "exif:ISOSpeed"@ {
        ExifView { iso: val, ..x }
    } else if key == "exif:ExposureTime"@ {
        ExifView { exposure: val, ..x }
    } else if key == "exif:FNumber"@ {
        ExifView { aperture: val, ..x }
    } else if key == "exif:FocalLength"@ {
        ExifView { focal_length: val, ..x }
    } else if key == "exif:DateTimeOriginal"@ || key == "exif:DateTimeDigitized"@ {
        if x.date_taken.len() == 0 {
            ExifView { date_taken: val, ..x }
        } else {
            x
        }
    } else if key == "exif:GPSLatitude"@ {
        ExifView { gps_latitude: val, ..x }
    } else if key == "exif:GPSLongitude"@ {
        ExifView { gps_longitude: val, ..x }
    } else if key == "exif:Software"@ {
        ExifView { software: val, ..x }
    } else if key == "exif:Orientation"@ {
        ExifView { orientation: val, ..x }
    } else if starts_with(key, "exif:"@) || starts_with(key, "date:"@) {
        ExifView { raw: x.raw.push((key, val)), ..x }
    } else {
        x
    }
}

/// One line of `identify -verbose` output read into the parser state:
/// whether the `Properties:` section is open, and the metadata so far.
pub open spec fn exif_line(in_props: bool, x: ExifView, line: Seq<char>) -> (bool, ExifView) {
    let t = trim(line);
    if t == "Properties:"@ {
        (true, x)
    } else if !in_props {
        (false, x)
    } else if t.len() == 0 || !is_exif_property(t) {
        if !starts_with(line, " "@) && ends_with(t, ":"@) {
            (false, x)
        } else {
            (true, x)
        }
    } else {
        match split_once(t, ": "@) {
            Some((key, value)) => (true, exif_set(x, key, trim(value))),
            None => (true, x),
        }
    }
}

/// The parser state after the first `k` lines.
pub open spec fn exif_fold(ls: Seq<Seq<char>>, k: int) -> (bool, ExifView)
    decreases k,
{
    if k <= 0 {
        (false, empty_exif())
    } else {
        let prev = exif_fold(ls, k - 1);
        exif_line(prev.0, prev.1, ls[k - 1])
    }
}

/// The metadata read from all the lines.
pub open spec fn exif_of(ls: Seq<Seq<char>>) -> ExifView {
    exif_fold(ls, ls.len() as int).1
}

fn exif_assign(exif: &mut ExifInfo, key: &str, val: String)
    ensures
        final(exif)@ == exif_set(old(exif)@, key@, val@),
{
    if str_eq(key, "exif:Make") {
        exif.make = val;
    } else if str_eq(key, "exif:Model") {
        exif.model = val;
    } else if str_eq(key, "exif:ISOSpeedRatings") || str_eq(key, "exif:ISOSpeed") {
        exif.iso = val;
    } else if str_eq(key, "exif:ExposureTime") {
        exif.exposure = val;
    } else if str_eq(key, "exif:FNumber") {
        exif.aperture = val;
    } else if str_eq(key, "exif:FocalLength") {
        exif.focal_length = val;
    } else if str_eq(key, "exif:DateTimeOriginal") || str_eq(key, "exif:DateTimeDigitized") {
        if exif.date_taken.as_str().unicode_len() == 0 {
            exif.date_taken = val;
        }
    } else if str_eq(key, "exif:GPSLatitude") {
        exif.gps_latitude = val;
    } else if str_eq(key, "exif:GPSLongitude") {
        exif.gps_longitude = val;
    } else if str_eq(key, "exif:Software") {
        exif.software = val;
    } else if str_eq(key, "exif:Orientation") {
        exif.orientation = val;
    } else if has_prefix(key, "exif:") || has_prefix(key, "date:") {
        let ghost before = exif@;
        exif.raw.push((copy_str(key), val));
        assert(exif@.raw =~= before.raw.push((key@, val@)));
    }
}

fn exif_line_step(in_props: bool, exif: &mut ExifInfo, line: &str) -> (r: bool)
    ensures
        (r, final(exif)@) == exif_line(in_props, old(exif)@, line@),
{
    let t = trim_str(line);
    if str_eq(t.as_str(), "Properties:") {
        return true;
    }
    if !in_props {
        return false;
    }
    let tv = t.as_str();
    if tv.unicode_len() == 0 || !(has_prefix(tv, "exif:") || has_prefix(tv, "date:")
        || has_prefix(tv, "xmp:") || has_prefix(tv, "png:") || has_prefix(tv, "jpeg:")
        || has_prefix(tv, "signature")) {
        if !has_prefix(line, " ") && has_suffix(tv, ":") {
            return false;
        }
        return true;
    }
    match split_once_str(tv, ": ") {
        Some((key, value)) => {
            let val = trim_str(value.as_str());
            exif_assign(exif, key.as_str(), val);
            true
        },
        None => true,
    }
}

// ── Output naming ─────────────────────────────────────────────────────

/// The Unicode lowercase of the non-whitespace characters of `s`.
pub open spec fn lower_no_white(s: Seq<char>) -> Seq<char>
    decreases s.len(),
{
    if s.len() == 0 {
        Seq::empty()
    } else {
        let c = s.last();
        lower_no_white(s.drop_last()) + if is_white(c) {
            Seq::empty()
        } else {
            char_lowercase(c)
        }
    }
}

/// `output` with `tail` put between its stem and its extension.
pub open spec fn suffixed(output: Seq<char>, tail: Seq<char>) -> Seq<char> {
    let stem = match file_stem(output) {
        Some(t) => t,
        None => Seq::empty(),
    };
    let dir = match parent(output) {
        Some(d) => d,
        None => Seq::empty(),
    };
    let base = stem + tail;
    let fname = match extension(output) {
        Some(e) => base + seq!['.'] + e,
        None => base,
    };
    join(dir, fname)
}

/// The path that [`safe_output_path`] gives for `input`, `output` and the
/// recipe name: `output` itself when its extension differs from the
/// input's (ignoring ASCII case); otherwise `output` with `_{suffix}`
/// after its stem, or with `_{suffix}_{suffix}` where a single suffix
/// would give the input path back.
pub open spec fn magick_safe_output(input: Seq<char>, output: Seq<char>, name: Seq<char>) -> Seq<
    char,
> {
    let ie = match extension(input) {
        Some(e) => Some(ascii_lower_seq(e)),
        None => None,
    };
    let oe = match extension(output) {
        Some(e) => Some(ascii_lower_seq(e)),
        None => None,
    };
    let t = seq!['_'] + lower_no_white(name);
    if ie != oe {
        output
    } else if suffixed(output, t) == input {
        suffixed(output, t + t)
    } else {
        suffixed(output, t)
    }
}

/// The lowercase, whitespace-free form of a recipe name.
fn squeeze_name(name: &str) -> (r: String)
    ensures
        r@ == lower_no_white(name@),
        all_ascii(name@) ==> r@ == ascii_lower_seq(non_white_chars(name@)),
{
    let v = chars_of(name);
    let mut r = String::new();
    let mut i: usize = 0;
    while i < v.len()
        invariant
            v@ == name@,
            i <= v.len(),
            r@ == lower_no_white(v@.subrange(0, i as int)),
            all_ascii(v@) ==> r@ == ascii_lower_seq(non_white_chars(v@.subrange(0, i as int))),
        decreases v.len() - i,
    {
        let ghost cur = v@.subrange(0, i + 1);
        let ghost before = v@.subrange(0, i as int);
        assert(cur.drop_last() =~= before);
        assert(cur.last() == v@[i as int]);
        proof {
            reveal(Seq::filter);
        }
        if !white(v[i]) {
            let l = char_to_lowercase(v[i]);
            push_chars(&mut r, &l, 0, l.len());
            assert(l@.subrange(0, l@.len() as int) =~= l@);
            proof {
                assert(non_white_chars(cur) == non_white_chars(before).push(v@[i as int]));
                assert(ascii_lower_seq(non_white_chars(before).push(v@[i as int])) =~= ascii_lower_seq(
                    non_white_chars(before),
                ).push(ascii_lower(v@[i as int])));
                if all_ascii(v@) {
                    assert(v@[i as int] <= '\x7f');
                }
            }
        } else {
            assert(non_white_chars(cur) == non_white_chars(before));
        }
        i = i + 1;
        assert(r@ =~= lower_no_white(cur));
    }
    assert(v@.subrange(0, v@.len() as int) =~= v@);
    r
}

fn lowered_ext(x: Option<String>) -> (r: Option<String>)
    ensures
        match x {
            Some(e) => r matches Some(l) && l@ == ascii_lower_seq(e@),
            None => r is None,
        },
{
    match x {
        Some(e) => Some(ascii_lowercase(e.as_str())),
        None => None,
    }
}

/// Generate an output path that never overwrites the source.
///
/// When the output's extension differs from the input's (ignoring ASCII
/// case, and counting a missing extension), the output is used as it is.
/// Otherwise `_{suffix}` goes between the output's stem and extension,
/// where the suffix is the recipe name lowercased with all whitespace
/// removed; where that would give the input path itself, the suffix goes
/// in twice.
pub fn safe_output_path(input: &str, output: &str, recipe_name: &str) -> (r: String)
    ensures
        r@ == magick_safe_output(input@, output@, recipe_name@),
        all_ascii(recipe_name@) ==> lower_no_white(recipe_name@) == ascii_lower_seq(
            non_white_chars(recipe_name@),
        ),
{
    let ip = PathParts::new(input);
    let op = PathParts::new(output);
    let ie = lowered_ext(ip.extension());
    let oe = lowered_ext(op.extension());
    let same = match (&ie, &oe) {
        (Some(a), Some(b)) => str_eq(a.as_str(), b.as_str()),
        (None, None) => true,
        _ => false,
    };
    let suffix = squeeze_name(recipe_name);
    if !same {
        return copy_str(output);
    }
    let mut tail = String::new();
    push_char(&mut tail, '_');
    push_str(&mut tail, suffix.as_str());
    let first = suffixed_path(&op, output, tail.as_str());
    if str_eq(first.as_str(), input) {
        let mut twice = copy_str(tail.as_str());
        push_str(&mut twice, tail.as_str());
        suffixed_path(&op, output, twice.as_str())
    } else {
        first
    }
}

fn suffixed_path(op: &PathParts, output: &str, tail: &str) -> (r: String)
    requires
        op.of(output@),
    ensures
        r@ == suffixed(output@, tail@),
{
    let stem = op.stem_or_empty();
    let dir = op.parent_or_empty();
    let mut fname = String::new();
    push_str(&mut fname, stem.as_str());
    push_str(&mut fname, tail);
    match op.extension() {
        Some(e) => {
            push_char(&mut fname, '.');
            push_str(&mut fname, e.as_str());
        },
        None => {},
    }
    join_path(dir.as_str(), fname.as_str())
}

} // verus!
