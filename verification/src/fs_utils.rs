//! File classification, output naming and size formatting.

use vstd::prelude::*;
use vstd::string::*;
use crate::sort::{is_stable_sort, KeyView, SortKey, sort_by_keys};
use crate::paths::{extension, file_stem, join, join_path, parent, PathParts};
use crate::text::{
    ascii_alnum, ascii_lower, ascii_lower_seq, chars_of, decimal, digit_char, is_ascii_alnum,
    lower_ascii_char, lower_ascii_chars, push_char, push_decimal, push_str, str_eq, strs,
};

verus! {

/// Whether a lowercase extension is one of the recognised image
/// extensions: png, jpg, jpeg, webp, avif, heic, jxl, tiff, tif, gif, bmp,
/// svg.
pub open spec fn is_image_ext(e: Seq<char>) -> bool {
    e == "png"@ || e == "jpg"@ || e == "jpeg"@ || e == "webp"@ || e == "avif"@ || e == "heic"@
        || e == "jxl"@ || e == "tiff"@ || e == "tif"@ || e == "gif"@ || e == "bmp"@ || e
        == "svg"@
}

/// Whether a path names an image: its extension, lowercased (ASCII), is an
/// image extension.
pub open spec fn is_image_path(p: Seq<char>) -> bool {
    match extension(p) {
        Some(x) => is_image_ext(ascii_lower_seq(x)),
        None => false,
    }
}

/// Executable form of [`is_image_ext`].
pub fn image_ext(e: &str) -> (r: bool)
    ensures
        r == is_image_ext(e@),
{
    str_eq(e, "png") || str_eq(e, "jpg") || str_eq(e, "jpeg") || str_eq(e, "webp") || str_eq(
        e,
        "avif",
    ) || str_eq(e, "heic") || str_eq(e, "jxl") || str_eq(e, "tiff") || str_eq(e, "tif")
        || str_eq(e, "gif") || str_eq(e, "bmp") || str_eq(e, "svg")
}

/// A string with the ASCII-lowercase characters of `s`.
pub fn ascii_lowercase(s: &str) -> (r: String)
    ensures
        r@ == ascii_lower_seq(s@),
{
    let v = chars_of(s);
    let l = lower_ascii_chars(&v);
    let mut r = String::new();
    crate::text::push_chars(&mut r, &l, 0, l.len());
    assert(l@.subrange(0, l@.len() as int) =~= l@);
    r
}

/// Returns `true` when `path` has an image extension (case-insensitive).
pub fn is_image(path: &str) -> (r: bool)
    ensures
        r == is_image_path(path@),
{
    let parts = PathParts::new(path);
    match parts.extension() {
        Some(x) => {
            let lower = ascii_lowercase(x.as_str());
            image_ext(lower.as_str())
        },
        None => false,
    }
}

/// Result of listing a directory: subdirectories, image files, and all
/// other files.
pub struct DirListing {
    /// Subdirectories.
    pub directories: Vec<String>,
    /// Files whose extension is an image extension.
    pub image_files: Vec<String>,
    /// All other files.
    pub other_files: Vec<String>,
}

impl DirListing {
    /// A listing with no entries.
    pub fn new() -> (r: DirListing)
        ensures
            r.directories@.len() == 0,
            r.image_files@.len() == 0,
            r.other_files@.len() == 0,
    {
        DirListing { directories: Vec::new(), image_files: Vec::new(), other_files: Vec::new() }
    }

    /// Number of entries across the three buckets.
    pub open spec fn count(&self) -> nat {
        self.directories@.len() + self.image_files@.len() + self.other_files@.len()
    }

    /// `true` when all three buckets are empty.
    pub fn is_empty(&self) -> (r: bool)
        ensures
            r == (self.count() == 0),
    {
        self.directories.len() == 0 && self.image_files.len() == 0 && self.other_files.len() == 0
    }

    /// Total number of entries across all buckets.
    pub fn total(&self) -> (r: usize)
        requires
            self.count() <= usize::MAX,
        ensures
            r == self.count(),
    {
        self.directories.len() + self.image_files.len() + self.other_files.len()
    }
}

// ── Safe output names ─────────────────────────────────────────────────

/// The file name that [`safe_output_path`] gives: `{stem}_{suffix}.{ext}`
/// when the input already has that extension (ignoring ASCII case),
/// otherwise `{stem}.{ext}`, or just `ext` when the stem is empty.
pub open spec fn safe_file_name(input: Seq<char>, ext: Seq<char>, suffix: Seq<char>) -> Seq<
    char,
> {
    let stem = match file_stem(input) {
        Some(t) => t,
        None => Seq::empty(),
    };
    let same = match extension(input) {
        Some(x) => ascii_lower_seq(x) == ascii_lower_seq(ext),
        None => false,
    };
    if same {
        stem + seq!['_'] + suffix + seq!['.'] + ext
    } else if stem.len() == 0 {
        ext
    } else {
        stem + seq!['.'] + ext
    }
}

/// The path that [`safe_output_path`] gives: the safe file name in the
/// input's parent directory.
pub open spec fn safe_output(input: Seq<char>, ext: Seq<char>, suffix: Seq<char>) -> Seq<char> {
    let dir = match parent(input) {
        Some(d) => d,
        None => Seq::empty(),
    };
    join(dir, safe_file_name(input, ext, suffix))
}

/// Generate an output path that avoids overwriting the source file.
///
/// A different extension gives `{stem}.{ext}`; the same extension (ignoring
/// ASCII case) gives `{stem}_{suffix}.{ext}`; an input without a stem gives
/// just `ext`. The result stays in the input's directory.
pub fn safe_output_path(input: &str, output_ext: &str, suffix: &str) -> (r: String)
    ensures
        r@ == safe_output(input@, output_ext@, suffix@),
{
    let parts = PathParts::new(input);
    let dir = parts.parent_or_empty();
    let stem = parts.stem_or_empty();
    let same = match parts.extension() {
        Some(x) => {
            let a = ascii_lowercase(x.as_str());
            let b = ascii_lowercase(output_ext);
            str_eq(a.as_str(), b.as_str())
        },
        None => false,
    };
    let mut name = String::new();
    if same {
        push_str(&mut name, stem.as_str());
        push_char(&mut name, '_');
        push_str(&mut name, suffix);
        push_char(&mut name, '.');
        push_str(&mut name, output_ext);
    } else if stem.unicode_len() == 0 {
        push_str(&mut name, output_ext);
    } else {
        push_str(&mut name, stem.as_str());
        push_char(&mut name, '.');
        push_str(&mut name, output_ext);
    }
    assert(name@ =~= safe_file_name(input@, output_ext@, suffix@));
    join_path(dir.as_str(), name.as_str())
}

// ── File sizes ────────────────────────────────────────────────────────

/// The spacing between neighbouring `f64` values around `b`: the smallest
/// power of two `u` with `b < 2^53 * u`.
pub open spec fn f64_unit(b: nat) -> nat {
    if b < 0x20_0000_0000_0000 {
        1
    } else if b < 0x40_0000_0000_0000 {
        2
    } else if b < 0x80_0000_0000_0000 {
        4
    } else if b < 0x100_0000_0000_0000 {
        8
    } else if b < 0x200_0000_0000_0000 {
        16
    } else if b < 0x400_0000_0000_0000 {
        32
    } else if b < 0x800_0000_0000_0000 {
        64
    } else if b < 0x1000_0000_0000_0000 {
        128
    } else if b < 0x2000_0000_0000_0000 {
        256
    } else if b < 0x4000_0000_0000_0000 {
        512
    } else if b < 0x8000_0000_0000_0000 {
        1024
    } else {
        2048
    }
}

/// `b as f64` for a `u64`: `b` rounded to a multiple of the unit, ties to
/// the even multiple.
pub open spec fn as_f64(b: nat) -> nat {
    let u = f64_unit(b);
    let q = b / u;
    let rem = b % u;
    if rem * 2 > u || (rem * 2 == u && q % 2 == 1) {
        (q + 1) * u
    } else {
        q * u
    }
}

/// The number of tenths that `{:.1}` shows for `r / 2^20`: the exact
/// quotient rounded to the nearest tenth, ties to an even last digit.
pub open spec fn mb_tenths(r: nat) -> nat {
    let n = r * 10;
    let q = n / 0x10_0000;
    let rem = n % 0x10_0000;
    if rem * 2 > 0x10_0000 || (rem * 2 == 0x10_0000 && q % 2 == 1) {
        q + 1
    } else {
        q
    }
}

/// The human-readable size: `{bytes}B` below 1024, whole kilobytes rounded
/// to nearest (halves up) below 1024², and megabytes with one decimal
/// above.
pub open spec fn file_size_text(bytes: nat) -> Seq<char> {
    if bytes >= 0x10_0000 {
        let t = mb_tenths(as_f64(bytes));
        decimal(t / 10) + seq!['.', digit_char(t % 10), 'M', 'B']
    } else if bytes >= 1024 {
        decimal((bytes + 512) / 1024) + seq!['K', 'B']
    } else {
        decimal(bytes) + seq!['B']
    }
}

fn f64_unit_exec(b: u64) -> (u: u64)
    ensures
        u as nat == f64_unit(b as nat),
        1 <= u <= 2048,
{
    if b < 0x20_0000_0000_0000 {
        1
    } else if b < 0x40_0000_0000_0000 {
        2
    } else if b < 0x80_0000_0000_0000 {
        4
    } else if b < 0x100_0000_0000_0000 {
        8
    } else if b < 0x200_0000_0000_0000 {
        16
    } else if b < 0x400_0000_0000_0000 {
        32
    } else if b < 0x800_0000_0000_0000 {
        64
    } else if b < 0x1000_0000_0000_0000 {
        128
    } else if b < 0x2000_0000_0000_0000 {
        256
    } else if b < 0x4000_0000_0000_0000 {
        512
    } else if b < 0x8000_0000_0000_0000 {
        1024
    } else {
        2048
    }
}

/// Format a file size in human-readable form: `340B`, `44KB`, `1.0MB`.
pub fn format_file_size(bytes: u64) -> (r: String)
    ensures
        r@ == file_size_text(bytes as nat),
{
    let mut s = String::new();
    if bytes >= 0x10_0000 {
        let u = f64_unit_exec(bytes);
        let q = bytes / u;
        let rem = bytes % u;
        assert(q * u <= bytes) by (nonlinear_arith)
            requires
                1 <= u,
                q == bytes / u,
        ;
        assert((q as u128 + 1) * u as u128 == q as u128 * u as u128 + u as u128) by (nonlinear_arith);
        let rounded: u128 = if rem as u128 * 2 > u as u128 || (rem as u128 * 2 == u as u128 && q
            % 2 == 1) {
            (q as u128 + 1) * u as u128
        } else {
            q as u128 * u as u128
        };
        assert(rounded == as_f64(bytes as nat)) by (nonlinear_arith)
            requires
                u as nat == f64_unit(bytes as nat),
                q == bytes / u,
                rem == bytes % u,
                rounded == if rem as u128 * 2 > u as u128 || (rem as u128 * 2 == u as u128 && q
                    % 2 == 1) {
                    (q as u128 + 1) * u as u128
                } else {
                    q as u128 * u as u128
                },
        ;
        assert(rounded <= 0x1_0000_0000_0000_0800);
        let n: u128 = rounded * 10;
        let qt = n / 0x10_0000;
        let remt = n % 0x10_0000;
        let tenths: u128 = if remt * 2 > 0x10_0000 || (remt * 2 == 0x10_0000 && qt % 2 == 1) {
            qt + 1
        } else {
            qt
        };
        assert(tenths == mb_tenths(rounded as nat));
        assert(tenths / 10 <= u64::MAX) by (nonlinear_arith)
            requires
                tenths <= qt + 1,
                qt == n / 0x10_0000,
                n == rounded * 10,
                rounded <= 0x1_0000_0000_0000_0800,
        ;
        let whole: u64 = (tenths / 10) as u64;
        let frac: u64 = (tenths % 10) as u64;
        push_decimal(&mut s, whole);
        push_char(&mut s, '.');
        let fd: u8 = frac as u8;
        push_char(&mut s, (fd + 48) as char);
        push_char(&mut s, 'M');
        push_char(&mut s, 'B');
        assert(s@ =~= file_size_text(bytes as nat));
    } else if bytes >= 1024 {
        let kb = (bytes + 512) / 1024;
        push_decimal(&mut s, kb);
        push_char(&mut s, 'K');
        push_char(&mut s, 'B');
        assert(s@ =~= file_size_text(bytes as nat));
    } else {
        push_decimal(&mut s, bytes);
        push_char(&mut s, 'B');
        assert(s@ =~= file_size_text(bytes as nat));
    }
    s
}

// ── Name sanitising ───────────────────────────────────────────────────

/// The runs of ASCII letters and digits of `s`, lowercased and joined with
/// `_`.
pub open spec fn sanitized(s: Seq<char>) -> Seq<char>
    decreases s.len(),
{
    if s.len() == 0 {
        Seq::empty()
    } else {
        let rest = sanitized(s.drop_last());
        let c = s.last();
        if !is_ascii_alnum(c) {
            rest
        } else if s.len() >= 2 && !is_ascii_alnum(s[s.len() - 2]) && rest.len() > 0 {
            rest + seq!['_', ascii_lower(c)]
        } else {
            rest.push(ascii_lower(c))
        }
    }
}

/// Sanitize a name for use as a filename suffix: lowercase (ASCII), keep
/// runs of `[a-z0-9]`, join them with `_`.
pub fn sanitize_name(name: &str) -> (r: String)
    ensures
        r@ == sanitized(name@),
{
    let v = chars_of(name);
    let mut out = String::new();
    let mut i: usize = 0;
    while i < v.len()
        invariant
            v@ == name@,
            i <= v.len(),
            out@ == sanitized(v@.subrange(0, i as int)),
        decreases v.len() - i,
    {
        let c = v[i];
        let ghost pre = v@.subrange(0, i as int);
        let ghost cur = v@.subrange(0, i + 1);
        assert(cur.drop_last() =~= pre);
        if ascii_alnum(c) {
            if i >= 1 && !ascii_alnum(v[i - 1]) && out.unicode_len() > 0 {
                push_char(&mut out, '_');
            }
            push_char(&mut out, lower_ascii_char(c));
        }
        i = i + 1;
        assert(out@ =~= sanitized(cur));
    }
    assert(v@.subrange(0, v@.len() as int) =~= v@);
    out
}


// ── Directory listings ────────────────────────────────────────────────

/// The sort key of a path: its text.
pub open spec fn text_key(s: Seq<char>) -> KeyView {
    KeyView { first: s, second: Seq::empty(), num: 0 }
}

/// The sort keys of a list of paths.
pub open spec fn text_keys(v: Seq<String>) -> Seq<KeyView> {
    v.map_values(|s: String| text_key(s@))
}

/// Sort paths in ascending order of their text.
pub fn sort_paths(v: &mut Vec<String>)
    ensures
        is_stable_sort(old(v)@, text_keys(old(v)@), final(v)@),
{
    let mut keys: Vec<SortKey> = Vec::new();
    let mut i: usize = 0;
    while i < v.len()
        invariant
            i <= v.len(),
            keys@.len() == i,
            forall|k: int| 0 <= k < i ==> #[trigger] keys@[k]@ == text_key(v@[k]@),
        decreases v.len() - i,
    {
        let first = chars_of(v[i].as_str());
        keys.push(SortKey { first, second: Vec::new(), num: 0 });
        i = i + 1;
    }
    assert(crate::sort::key_views(keys@) =~= text_keys(v@));
    sort_by_keys(v, &mut keys);
}

/// The entries of a listing that go in a bucket: directories, image
/// files, or other files (0, 1, 2).
pub open spec fn bucket_of(entries: Seq<(String, bool)>, bucket: int) -> Seq<String>
    decreases entries.len(),
{
    if entries.len() == 0 {
        Seq::empty()
    } else {
        let rest = bucket_of(entries.drop_last(), bucket);
        let (p, is_dir) = entries.last();
        let b: int = if is_dir {
            0
        } else if is_image_path(p@) {
            1
        } else {
            2
        };
        if b == bucket {
            rest.push(p)
        } else {
            rest
        }
    }
}

impl DirListing {
    /// Classify directory entries (each a path and whether it is a
    /// directory) into directories, image files and other files, each
    /// bucket sorted by path.
    pub fn from_entries(entries: Vec<(String, bool)>) -> (r: DirListing)
        ensures
            is_stable_sort(bucket_of(entries@, 0), text_keys(bucket_of(entries@, 0)), r.directories@),
            is_stable_sort(bucket_of(entries@, 1), text_keys(bucket_of(entries@, 1)), r.image_files@),
            is_stable_sort(bucket_of(entries@, 2), text_keys(bucket_of(entries@, 2)), r.other_files@),
    {
        let ghost all = entries@;
        let mut dirs: Vec<String> = Vec::new();
        let mut images: Vec<String> = Vec::new();
        let mut others: Vec<String> = Vec::new();
        let mut rest = entries;
        let mut k: usize = 0;
        let ghost n = all.len();
        assert(rest@.len() == rest.len());
        while rest.len() > 0
            invariant
                k + rest@.len() == n,
                n <= usize::MAX,
                n == all.len(),
                forall|j: int| 0 <= j < rest@.len() ==> #[trigger] rest@[j] == all[k + j],
                dirs@ == bucket_of(all.subrange(0, k as int), 0),
                images@ == bucket_of(all.subrange(0, k as int), 1),
                others@ == bucket_of(all.subrange(0, k as int), 2),
            decreases rest.len(),
        {
            let ghost pre = all.subrange(0, k as int);
            let ghost cur = all.subrange(0, k + 1);
            assert(cur.drop_last() =~= pre);
            assert(rest@[0] == all[k + 0]);
            let (p, is_dir) = rest.remove(0);
            if is_dir {
                dirs.push(p);
            } else if is_image(p.as_str()) {
                images.push(p);
            } else {
                others.push(p);
            }
            k = k + 1;
        }
        assert(all.subrange(0, n as int) =~= all);
        sort_paths(&mut dirs);
        sort_paths(&mut images);
        sort_paths(&mut others);
        DirListing { directories: dirs, image_files: images, other_files: others }
    }
}


/// The sort keys of a list of texts.
pub open spec fn view_keys(v: Seq<Seq<char>>) -> Seq<KeyView> {
    v.map_values(|s: Seq<char>| text_key(s))
}

/// Sorting paths sorts their texts.
pub proof fn lemma_sorted_strs(v: Seq<String>, o: Seq<String>)
    requires
        is_stable_sort(v, text_keys(v), o),
    ensures
        strs(o) == crate::sort::stable_sorted(strs(v), view_keys(strs(v))),
{
    crate::sort::lemma_stable_sort_map(v, text_keys(v), o, |s: String| s@);
    assert(v.map_values(|s: String| s@) =~= strs(v));
    assert(o.map_values(|s: String| s@) =~= strs(o));
    assert(text_keys(v) =~= view_keys(strs(v)));
    crate::sort::lemma_is_stable_sorted(strs(v), view_keys(strs(v)), strs(o));
}

} // verus!
