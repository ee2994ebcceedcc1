//! Paths as `/`-separated strings, with the component rules of Unix paths.
//!
//! A path is read as a string of characters. Repeated separators, trailing
//! separators and `.` components other than a leading one carry no meaning,
//! as with `std::path::Path` on Unix: the file name of `a/b/` is `b`, the
//! file name of `a/.` is `a`, and `..` and `.` have no file name.

use vstd::prelude::*;
use vstd::string::*;
use crate::text::{chars_of, copy_str, push_char, push_str, string_of};

verus! {

/// Index of the last `/` in `p[..end]`, or -1 when there is none.
pub open spec fn last_sep(p: Seq<char>, end: int) -> int
    decreases end,
{
    if end <= 0 {
        -1
    } else if p[end - 1] == '/' {
        end - 1
    } else {
        last_sep(p, end - 1)
    }
}

/// Where the file name of `p[..end]` lies: the last component, unless it
/// is `..` or there is none.
pub open spec fn name_span(p: Seq<char>, end: int) -> Option<(int, int)>
    decreases end,
{
    if end <= 0 {
        None
    } else if p[end - 1] == '/' {
        name_span(p, end - 1)
    } else if p[end - 1] == '.' && (end == 1 || p[end - 2] == '/') {
        if end == 1 {
            None
        } else {
            name_span(p, end - 2)
        }
    } else {
        let s = last_sep(p, end) + 1;
        if end - s == 2 && p[s] == '.' && p[s + 1] == '.' {
            None
        } else {
            Some((s, end))
        }
    }
}

/// End of what is left of `p[..k]` once trailing separators and trailing
/// `.` components are dropped (a lone root stays).
pub open spec fn trimmed_end(p: Seq<char>, k: int) -> int
    decreases k,
{
    if k <= 0 {
        0
    } else if p[k - 1] == '/' {
        if k == 1 {
            1
        } else {
            trimmed_end(p, k - 1)
        }
    } else if p[k - 1] == '.' && k >= 2 && p[k - 2] == '/' {
        trimmed_end(p, k - 1)
    } else {
        k
    }
}

/// Where the parent of `p[..end]` ends: the path without its last
/// component, or none for the empty path and the root.
pub open spec fn parent_end(p: Seq<char>, end: int) -> Option<int>
    decreases end,
{
    if end <= 0 {
        None
    } else if p[end - 1] == '/' {
        parent_end(p, end - 1)
    } else if p[end - 1] == '.' && end >= 2 && p[end - 2] == '/' {
        parent_end(p, end - 2)
    } else {
        let s = last_sep(p, end) + 1;
        if s == 0 {
            Some(0)
        } else {
            Some(trimmed_end(p, s))
        }
    }
}

/// The file name of a path (`Path::file_name`).
pub open spec fn file_name(p: Seq<char>) -> Option<Seq<char>> {
    match name_span(p, p.len() as int) {
        Some((s, e)) => Some(p.subrange(s, e)),
        None => None,
    }
}

/// The file name of a path, or nothing when it has none.
pub open spec fn file_name_or_empty(p: Seq<char>) -> Seq<char> {
    match file_name(p) {
        Some(n) => n,
        None => Seq::empty(),
    }
}

/// The parent of a path (`Path::parent`).
pub open spec fn parent(p: Seq<char>) -> Option<Seq<char>> {
    match parent_end(p, p.len() as int) {
        Some(e) => Some(p.subrange(0, e)),
        None => None,
    }
}

/// Index of the last `.` in `p[s..e]`, or -1 when there is none.
pub open spec fn last_dot(p: Seq<char>, s: int, e: int) -> int
    decreases e - s,
{
    if e <= s {
        -1
    } else if p[e - 1] == '.' {
        e - 1
    } else {
        last_dot(p, s, e - 1)
    }
}

/// Where the extension of the name `p[s..e]` starts, if it has one: after
/// its last `.`, unless that dot opens the name.
pub open spec fn ext_start(p: Seq<char>, s: int, e: int) -> Option<int> {
    let d = last_dot(p, s, e);
    if d <= s {
        None
    } else {
        Some(d + 1)
    }
}

/// Where the stem of the name `p[s..e]` ends.
pub open spec fn stem_end(p: Seq<char>, s: int, e: int) -> int {
    match ext_start(p, s, e) {
        Some(x) => x - 1,
        None => e,
    }
}

/// The file stem of a path (`Path::file_stem`).
pub open spec fn file_stem(p: Seq<char>) -> Option<Seq<char>> {
    match name_span(p, p.len() as int) {
        Some((s, e)) => Some(p.subrange(s, stem_end(p, s, e))),
        None => None,
    }
}

/// The extension of a path (`Path::extension`).
pub open spec fn extension(p: Seq<char>) -> Option<Seq<char>> {
    match name_span(p, p.len() as int) {
        Some((s, e)) => match ext_start(p, s, e) {
            Some(x) => Some(p.subrange(x, e)),
            None => None,
        },
        None => None,
    }
}

/// `base` joined with `rel` (`Path::join`): an absolute `rel` replaces the
/// base, otherwise a separator is put between them when the base is not
/// empty and does not end with one.
pub open spec fn join(base: Seq<char>, rel: Seq<char>) -> Seq<char> {
    if rel.len() > 0 && rel[0] == '/' {
        rel
    } else if base.len() > 0 && base.last() != '/' {
        base + seq!['/'] + rel
    } else {
        base + rel
    }
}

/// The path with its extension replaced (`Path::with_extension`): cut
/// right after the stem, then add `.ext` when `ext` is not empty. A path
/// without a file name is left as it is.
pub open spec fn with_extension(p: Seq<char>, ext: Seq<char>) -> Seq<char> {
    match name_span(p, p.len() as int) {
        Some((s, e)) => {
            let cut = p.subrange(0, stem_end(p, s, e));
            if ext.len() == 0 {
                cut
            } else {
                cut + seq!['.'] + ext
            }
        },
        None => p,
    }
}

// ── Executable forms ──────────────────────────────────────────────────

proof fn lemma_last_sep_bounds(p: Seq<char>, end: int)
    requires
        0 <= end <= p.len(),
    ensures
        -1 <= last_sep(p, end) < end,
        last_sep(p, end) >= 0 ==> p[last_sep(p, end)] == '/',
    decreases end,
{
    if end > 0 && p[end - 1] != '/' {
        lemma_last_sep_bounds(p, end - 1);
    }
}

fn last_sep_exec(p: &Vec<char>, end: usize) -> (r: Option<usize>)
    requires
        end <= p.len(),
    ensures
        match r {
            Some(i) => last_sep(p@, end as int) == i as int,
            None => last_sep(p@, end as int) == -1,
        },
    decreases end,
{
    if end == 0 {
        None
    } else if p[end - 1] == '/' {
        Some(end - 1)
    } else {
        last_sep_exec(p, end - 1)
    }
}

/// Start of the last component of `p[..end]`.
fn piece_start(p: &Vec<char>, end: usize) -> (s: usize)
    requires
        end <= p.len(),
    ensures
        s as int == last_sep(p@, end as int) + 1,
        s <= end,
{
    proof {
        lemma_last_sep_bounds(p@, end as int);
    }
    match last_sep_exec(p, end) {
        Some(i) => i + 1,
        None => 0,
    }
}

fn name_span_exec(p: &Vec<char>, end: usize) -> (r: Option<(usize, usize)>)
    requires
        end <= p.len(),
    ensures
        match r {
            Some((s, e)) => name_span(p@, end as int) == Some((s as int, e as int)) && s <= e
                <= end,
            None => name_span(p@, end as int) is None,
        },
    decreases end,
{
    if end == 0 {
        None
    } else if p[end - 1] == '/' {
        name_span_exec(p, end - 1)
    } else if p[end - 1] == '.' && (end == 1 || p[end - 2] == '/') {
        if end == 1 {
            None
        } else {
            name_span_exec(p, end - 2)
        }
    } else {
        let s = piece_start(p, end);
        if end - s == 2 && p[s] == '.' && p[s + 1] == '.' {
            None
        } else {
            Some((s, end))
        }
    }
}

fn trimmed_end_exec(p: &Vec<char>, k: usize) -> (r: usize)
    requires
        k <= p.len(),
    ensures
        r as int == trimmed_end(p@, k as int),
        r <= k,
    decreases k,
{
    if k == 0 {
        0
    } else if p[k - 1] == '/' {
        if k == 1 {
            1
        } else {
            trimmed_end_exec(p, k - 1)
        }
    } else if p[k - 1] == '.' && k >= 2 && p[k - 2] == '/' {
        trimmed_end_exec(p, k - 1)
    } else {
        k
    }
}

fn parent_end_exec(p: &Vec<char>, end: usize) -> (r: Option<usize>)
    requires
        end <= p.len(),
    ensures
        match r {
            Some(e) => parent_end(p@, end as int) == Some(e as int) && e <= end,
            None => parent_end(p@, end as int) is None,
        },
    decreases end,
{
    if end == 0 {
        None
    } else if p[end - 1] == '/' {
        parent_end_exec(p, end - 1)
    } else if p[end - 1] == '.' && end >= 2 && p[end - 2] == '/' {
        parent_end_exec(p, end - 2)
    } else {
        let s = piece_start(p, end);
        if s == 0 {
            Some(0)
        } else {
            Some(trimmed_end_exec(p, s))
        }
    }
}

fn last_dot_exec(p: &Vec<char>, s: usize, e: usize) -> (r: Option<usize>)
    requires
        s <= e <= p.len(),
    ensures
        match r {
            Some(d) => last_dot(p@, s as int, e as int) == d as int && s <= d < e,
            None => last_dot(p@, s as int, e as int) == -1,
        },
    decreases e - s,
{
    if e <= s {
        None
    } else if p[e - 1] == '.' {
        Some(e - 1)
    } else {
        last_dot_exec(p, s, e - 1)
    }
}

fn ext_start_exec(p: &Vec<char>, s: usize, e: usize) -> (r: Option<usize>)
    requires
        s <= e <= p.len(),
    ensures
        match r {
            Some(x) => ext_start(p@, s as int, e as int) == Some(x as int) && s < x <= e,
            None => ext_start(p@, s as int, e as int) is None,
        },
{
    match last_dot_exec(p, s, e) {
        Some(d) => if d <= s {
            None
        } else {
            Some(d + 1)
        },
        None => None,
    }
}

/// The parts of one path that the library reads: where its file name,
/// stem and extension lie, and where its parent ends.
pub struct PathParts {
    /// The characters of the path.
    pub chars: Vec<char>,
    /// Start and end of the file name, if there is one.
    pub name: Option<(usize, usize)>,
    /// End of the stem (inside the file name), when there is a file name.
    pub stem_end: usize,
    /// Start of the extension, when there is one.
    pub ext: Option<usize>,
    /// End of the parent, when there is one.
    pub parent: Option<usize>,
}

impl PathParts {
    /// Whether these parts are those of the path `p`.
    pub open spec fn of(&self, p: Seq<char>) -> bool {
        &&& self.chars@ == p
        &&& match self.name {
            Some((s, e)) => {
                &&& name_span(p, p.len() as int) == Some((s as int, e as int))
                &&& s <= self.stem_end <= e <= p.len()
                &&& self.stem_end as int == stem_end(p, s as int, e as int)
                &&& match self.ext {
                    Some(x) => ext_start(p, s as int, e as int) == Some(x as int) && s < x <= e,
                    None => ext_start(p, s as int, e as int) is None,
                }
            },
            None => name_span(p, p.len() as int) is None && self.ext is None,
        }
        &&& match self.parent {
            Some(e) => parent_end(p, p.len() as int) == Some(e as int) && e <= p.len(),
            None => parent_end(p, p.len() as int) is None,
        }
    }

    /// Split a path into its parts.
    pub fn new(path: &str) -> (r: PathParts)
        ensures
            r.of(path@),
    {
        let chars = chars_of(path);
        let n = chars.len();
        let name = name_span_exec(&chars, n);
        let (stem_end, ext) = match name {
            Some((s, e)) => match ext_start_exec(&chars, s, e) {
                Some(x) => (x - 1, Some(x)),
                None => (e, None),
            },
            None => (0, None),
        };
        let parent = parent_end_exec(&chars, n);
        PathParts { chars, name, stem_end, ext, parent }
    }

    /// The file name, if any.
    pub fn file_name(&self) -> (r: Option<String>)
        requires
            self.of(self.chars@),
        ensures
            match r {
                Some(n) => file_name(self.chars@) == Some(n@),
                None => file_name(self.chars@) is None,
            },
    {
        match self.name {
            Some((s, e)) => Some(string_of(&self.chars, s, e)),
            None => None,
        }
    }

    /// The file stem, or the empty string when there is no file name.
    pub fn stem_or_empty(&self) -> (r: String)
        requires
            self.of(self.chars@),
        ensures
            r@ == match file_stem(self.chars@) {
                Some(t) => t,
                None => Seq::empty(),
            },
    {
        match self.name {
            Some((s, _e)) => string_of(&self.chars, s, self.stem_end),
            None => String::new(),
        }
    }

    /// The extension, if any.
    pub fn extension(&self) -> (r: Option<String>)
        requires
            self.of(self.chars@),
        ensures
            match r {
                Some(x) => extension(self.chars@) == Some(x@),
                None => extension(self.chars@) is None,
            },
    {
        match (self.name, self.ext) {
            (Some((_s, e)), Some(x)) => Some(string_of(&self.chars, x, e)),
            _ => None,
        }
    }

    /// The parent, or the empty string when there is none.
    pub fn parent_or_empty(&self) -> (r: String)
        requires
            self.of(self.chars@),
        ensures
            r@ == match parent(self.chars@) {
                Some(t) => t,
                None => Seq::empty(),
            },
    {
        match self.parent {
            Some(e) => string_of(&self.chars, 0, e),
            None => String::new(),
        }
    }
}

/// `Path::join`.
pub fn join_path(base: &str, rel: &str) -> (r: String)
    ensures
        r@ == join(base@, rel@),
{
    let b = chars_of(base);
    let q = chars_of(rel);
    if q.len() > 0 && q[0] == '/' {
        return copy_str(rel);
    }
    let mut out = copy_str(base);
    if b.len() > 0 && b[b.len() - 1] != '/' {
        push_char(&mut out, '/');
    }
    push_str(&mut out, rel);
    out
}

/// `Path::with_extension`.
pub fn path_with_extension(path: &str, ext: &str) -> (r: String)
    ensures
        r@ == with_extension(path@, ext@),
{
    let parts = PathParts::new(path);
    match parts.name {
        Some((_s, _e)) => {
            let mut out = string_of(&parts.chars, 0, parts.stem_end);
            if ext.unicode_len() > 0 {
                push_char(&mut out, '.');
                push_str(&mut out, ext);
            }
            out
        },
        None => copy_str(path),
    }
}

/// `Path::file_name` as a string.
pub fn path_file_name(path: &str) -> (r: Option<String>)
    ensures
        match r {
            Some(n) => file_name(path@) == Some(n@),
            None => file_name(path@) is None,
        },
{
    let parts = PathParts::new(path);
    parts.file_name()
}

/// The file name of a path, or an empty string when it has none.
pub fn file_name_or_empty_str(path: &str) -> (r: String)
    ensures
        r@ == file_name_or_empty(path@),
{
    match path_file_name(path) {
        Some(n) => n,
        None => String::new(),
    }
}

/// `Path::extension` as a string.
pub fn path_extension(path: &str) -> (r: Option<String>)
    ensures
        match r {
            Some(x) => extension(path@) == Some(x@),
            None => extension(path@) is None,
        },
{
    let parts = PathParts::new(path);
    parts.extension()
}

/// `Path::parent` as a string.
pub fn path_parent(path: &str) -> (r: Option<String>)
    ensures
        match r {
            Some(x) => parent(path@) == Some(x@),
            None => parent(path@) is None,
        },
{
    let parts = PathParts::new(path);
    match parts.parent {
        Some(e) => Some(string_of(&parts.chars, 0, e)),
        None => None,
    }
}

} // verus!
