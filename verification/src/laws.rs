//! Properties of the library as a whole, proved over the specifications
//! the operations are verified against.

use vstd::prelude::*;
use vstd::string::*;
use crate::app::{focus_after, focus_before, AppModel, Focus, Mode};
use crate::app_ops::{
    cursor_selection_toggled, first_index, help_toggled, lemma_first_index, selection_toggled,
    ticked,
};
use crate::app_view::entry_at;
use crate::app_run::{cancel_step, run_started};
use crate::fs_utils::{is_image_ext, is_image_path};
use crate::paths::extension;
use crate::recipe::{last_named, lemma_last_named, merge_all, merge_one, RecipeView};
use crate::text::{ascii_lower, ascii_lower_seq};

verus! {

/// Tab cycles through the four panels: four steps come back to the start,
/// and BackTab undoes Tab.
pub proof fn law_focus_cycle(f: Focus)
    ensures
        focus_after(focus_after(focus_after(focus_after(f)))) == f,
        focus_before(focus_after(f)) == f,
        focus_after(focus_before(f)) == f,
{
}

/// Toggling the help overlay twice gives back the state it started from,
/// when the mode agreed with the overlay.
pub proof fn law_help_toggle_twice(m: AppModel)
    requires
        m.mode == (if m.toggles.show_help {
            Mode::Help
        } else {
            Mode::Browse
        }),
    ensures
        help_toggled(help_toggled(m)) == m,
{
    reveal(help_toggled);
}

/// Whether a file is an image does not depend on the case of its
/// extension: a path whose extension is the ASCII-lowercased extension of
/// another gets the same answer.
pub proof fn law_image_case_insensitive(p: Seq<char>, q: Seq<char>)
    requires
        extension(p) is Some,
        extension(q) is Some,
        ascii_lower_seq(extension(p)->0) == ascii_lower_seq(extension(q)->0),
    ensures
        is_image_path(p) == is_image_path(q),
{
}

/// The spinner, once on a frame, stays on one of its ten frames.
pub proof fn law_spinner_in_range(m: AppModel)
    requires
        m.spinner_frame < 10,
    ensures
        ticked(m).spinner_frame < 10,
{
    reveal(ticked);
}

/// A dry run starts no process: it asks for nothing and leaves the queue
/// and the recipes as they were.
pub proof fn law_dry_run_spawns_nothing(
    m: AppModel,
    available: bool,
    inputs: Seq<crate::app_run::RunInputView>,
)
    requires
        m.toggles.dry_run,
    ensures
        run_started(m, available, inputs).1.len() == 0,
        run_started(m, available, inputs).0.processing_queue == m.processing_queue,
        run_started(m, available, inputs).0.recipes == m.recipes,
        !run_started(m, available, inputs).0.toggles.process_running || m.toggles.process_running,
{
    reveal(run_started);
    if !m.toggles.process_running && m.selected_recipe_name is Some {
        let name = m.selected_recipe_name->0;
        match crate::app_view::first_named(m.recipes, name, 0) {
            Some(idx) => {
                if m.selected_files.len() > 0 && available {
                    let r = m.recipes[idx];
                    let (q, sk) = crate::app_run::plan(
                        m,
                        r,
                        m.selected_files,
                        inputs,
                        m.selected_files.len() as int,
                    );
                    crate::app_run::lemma_logged_all(m, sk, crate::app::LogLevel::Error);
                    crate::app_run::lemma_logged_all(
                        crate::app_run::logged_all(m, sk, crate::app::LogLevel::Error),
                        crate::app_run::dry_run_lines(q),
                        crate::app::LogLevel::Info,
                    );
                }
            },
            None => {},
        }
    }
}

/// After cancelling no process runs and the queue is empty; with no
/// process running, cancelling changes nothing.
pub proof fn law_cancel_stops(m: AppModel)
    ensures
        !cancel_step(m).0.toggles.process_running,
        m.toggles.process_running ==> cancel_step(m).0.processing_queue.len() == 0,
        !m.toggles.process_running ==> cancel_step(m).0 == m && cancel_step(m).1.len() == 0,
{
    reveal(cancel_step);
}

// ── Sanitised names ───────────────────────────────────────────────────

/// A character of a sanitised name: a lowercase ASCII letter, a digit or
/// `_`.
pub open spec fn name_char(c: char) -> bool {
    ('a' <= c && c <= 'z') || ('0' <= c && c <= '9') || c == '_'
}

/// Whether a name is made of name characters, does not start with `_`
/// and has no `__` (it may end with `_`).
pub open spec fn clean_prefix(t: Seq<char>) -> bool {
    &&& forall|i: int| 0 <= i < t.len() ==> name_char(#[trigger] t[i])
    &&& (t.len() > 0 ==> t[0] != '_')
    &&& forall|i: int| 0 <= i < t.len() - 1 ==> !(#[trigger] t[i] == '_' && t[i + 1] == '_')
}

/// Whether a name is as [`sanitize_name`](crate::fs_utils::sanitize_name)
/// leaves names: clean, and not ending with `_`.
pub open spec fn clean_name(t: Seq<char>) -> bool {
    clean_prefix(t) && (t.len() > 0 ==> t.last() != '_')
}

proof fn lemma_ascii_lower_alnum(c: char)
    requires
        crate::text::is_ascii_alnum(c),
    ensures
        name_char(ascii_lower(c)),
        ascii_lower(c) != '_',
        crate::text::is_ascii_alnum(ascii_lower(c)),
{
    if 'A' <= c && c <= 'Z' {
        assert(('a' as u32) <= (c as u32) + 32 <= ('z' as u32));
    }
}

proof fn lemma_sanitized_clean(s: Seq<char>)
    ensures
        clean_name(crate::fs_utils::sanitized(s)),
    decreases s.len(),
{
    if s.len() > 0 {
        lemma_sanitized_clean(s.drop_last());
        let c = s.last();
        if crate::text::is_ascii_alnum(c) {
            lemma_ascii_lower_alnum(c);
        }
        let r = crate::fs_utils::sanitized(s);
        let rest = crate::fs_utils::sanitized(s.drop_last());
        assert forall|i: int| 0 <= i < r.len() - 1 implies !(#[trigger] r[i] == '_' && r[i + 1] == '_') by {
            if i < rest.len() - 1 {
                assert(rest[i] == r[i] && rest[i + 1] == r[i + 1]);
            }
        }
        assert forall|i: int| 0 <= i < r.len() implies name_char(#[trigger] r[i]) by {
            if i < rest.len() {
                assert(rest[i] == r[i]);
            }
        }
    }
}

/// A sanitised name holds only lowercase ASCII letters, digits and `_`;
/// it neither starts nor ends with `_` and has no `__`.
pub proof fn law_sanitized_shape(s: Seq<char>)
    ensures
        clean_name(crate::fs_utils::sanitized(s)),
{
    lemma_sanitized_clean(s);
}

proof fn lemma_sanitized_of_clean(t: Seq<char>)
    requires
        clean_prefix(t),
    ensures
        crate::fs_utils::sanitized(t) == (if t.len() > 0 && t.last() == '_' {
            t.drop_last()
        } else {
            t
        }),
    decreases t.len(),
{
    if t.len() > 0 {
        let t1 = t.drop_last();
        assert(clean_prefix(t1)) by {
            assert forall|i: int| 0 <= i < t1.len() implies name_char(#[trigger] t1[i]) by {
                assert(t1[i] == t[i]);
            }
            assert forall|i: int| 0 <= i < t1.len() - 1 implies !(#[trigger] t1[i] == '_' && t1[i + 1] == '_') by {
                assert(t1[i] == t[i] && t1[i + 1] == t[i + 1]);
            }
        }
        lemma_sanitized_of_clean(t1);
        let c = t.last();
        assert(name_char(c));
        if c == '_' {
            if t1.len() > 0 {
                assert(t[t.len() - 2] != '_');
            }
        } else {
            assert(ascii_lower(c) == c);
            assert(crate::text::is_ascii_alnum(c));
            if t1.len() > 0 && t1.last() == '_' {
                assert(t1.len() >= 2);
                assert(t1.drop_last() + seq!['_', c] =~= t);
            } else {
                assert(t1.push(c) =~= t);
            }
        }
    }
}

/// Sanitising a sanitised name changes nothing.
pub proof fn law_sanitize_idempotent(s: Seq<char>)
    ensures
        crate::fs_utils::sanitized(crate::fs_utils::sanitized(s)) == crate::fs_utils::sanitized(s),
{
    lemma_sanitized_clean(s);
    lemma_sanitized_of_clean(crate::fs_utils::sanitized(s));
}

// ── Safe output paths ─────────────────────────────────────────────────

/// Whether `n` is a plain file name: not empty, without `/`, and not `.`
/// or `..`.
pub open spec fn plain_name(n: Seq<char>) -> bool {
    &&& n.len() > 0
    &&& forall|i: int| 0 <= i < n.len() ==> #[trigger] n[i] != '/'
    &&& n != seq!['.']
    &&& n != seq!['.', '.']
}

proof fn lemma_last_sep_skip(p: Seq<char>, from: int, end: int)
    requires
        0 <= from <= end <= p.len(),
        forall|j: int| from <= j < end ==> p[j] != '/',
    ensures
        crate::paths::last_sep(p, end) == crate::paths::last_sep(p, from),
    decreases end - from,
{
    if end > from {
        lemma_last_sep_skip(p, from, end - 1);
    }
}

proof fn lemma_last_sep_after(p: Seq<char>, end: int)
    requires
        0 <= end <= p.len(),
    ensures
        -1 <= crate::paths::last_sep(p, end) < end,
        forall|j: int| crate::paths::last_sep(p, end) < j < end ==> p[j] != '/',
    decreases end,
{
    if end > 0 && p[end - 1] != '/' {
        lemma_last_sep_after(p, end - 1);
    }
}

proof fn lemma_name_span_plain(p: Seq<char>, end: int)
    requires
        0 <= end <= p.len(),
    ensures
        match crate::paths::name_span(p, end) {
            Some((s, e)) => 0 <= s < e <= end && forall|j: int| s <= j < e ==> p[j] != '/',
            None => true,
        },
    decreases end,
{
    if end > 0 {
        if p[end - 1] == '/' {
            lemma_name_span_plain(p, end - 1);
        } else if p[end - 1] == '.' && (end == 1 || p[end - 2] == '/') {
            if end > 1 {
                lemma_name_span_plain(p, end - 2);
            }
        } else {
            lemma_last_sep_after(p, end);
            lemma_last_sep_after(p, end - 1);
        }
    }
}

/// The file name of a path joined with a plain name is that name.
pub proof fn lemma_file_name_join(d: Seq<char>, n: Seq<char>)
    requires
        plain_name(n),
    ensures
        crate::paths::file_name(crate::paths::join(d, n)) == Some(n),
{
    let q = if d.len() > 0 && d.last() != '/' {
        d + seq!['/']
    } else {
        d
    };
    let p = crate::paths::join(d, n);
    assert(p =~= q + n);
    let end = p.len() as int;
    assert(p[end - 1] == n[n.len() - 1]);
    if n.len() >= 2 {
        assert(p[end - 2] == n[n.len() - 2]);
    } else {
        assert(n =~= seq![n[0]]);
    }
    lemma_last_sep_skip(p, q.len() as int, end);
    if q.len() > 0 {
        assert(p[q.len() - 1] == '/');
    }
    let s = crate::paths::last_sep(p, end) + 1;
    assert(s == q.len());
    if n.len() == 2 {
        assert(n =~= seq![n[0], n[1]]);
    }
    assert(p.subrange(q.len() as int, end) =~= n);
}

proof fn lemma_last_dot(p: Seq<char>, s: int, e: int)
    requires
        0 <= s <= e <= p.len(),
    ensures
        crate::paths::last_dot(p, s, e) == -1 || (s <= crate::paths::last_dot(p, s, e) < e
            && p[crate::paths::last_dot(p, s, e)] == '.'),
        forall|j: int| crate::paths::last_dot(p, s, e) < j < e && s <= j ==> p[j] != '.',
    decreases e - s,
{
    if e > s && p[e - 1] != '.' {
        lemma_last_dot(p, s, e - 1);
    }
}

/// A path with a file name: the name is its stem, or its stem, a dot and
/// its extension; the stem is not empty.
proof fn lemma_name_parts(p: Seq<char>)
    requires
        crate::paths::file_name(p) is Some,
    ensures
        crate::paths::file_stem(p) is Some,
        crate::paths::file_stem(p)->0.len() > 0,
        forall|j: int| 0 <= j < crate::paths::file_name(p)->0.len() ==> #[trigger] crate::paths::file_name(p)->0[j] != '/',
        match extension(p) {
            Some(x) => crate::paths::file_name(p)->0 == crate::paths::file_stem(p)->0 + seq!['.'] + x,
            None => crate::paths::file_name(p)->0 == crate::paths::file_stem(p)->0,
        },
{
    let (s, e) = crate::paths::name_span(p, p.len() as int)->0;
    lemma_name_span_plain(p, p.len() as int);
    lemma_last_dot(p, s, e);
    let fname = crate::paths::file_name(p)->0;
    assert forall|j: int| 0 <= j < fname.len() implies #[trigger] fname[j] != '/' by {
        assert(fname[j] == p[s + j]);
    }
    match crate::paths::ext_start(p, s, e) {
        Some(x) => {
            assert(p.subrange(s, e) =~= p.subrange(s, x - 1) + seq!['.'] + p.subrange(x, e));
        },
        None => {},
    }
}

proof fn lemma_ascii_lower_len(s: Seq<char>)
    ensures
        ascii_lower_seq(s).len() == s.len(),
{
}

/// The extensions and suffixes the safe output laws speak of: a non-empty
/// extension without `/` that is not `.` or `..`, and a suffix without
/// `/`.
pub open spec fn safe_output_args(ext: Seq<char>, suffix: Seq<char>) -> bool {
    &&& ext.len() > 0
    &&& forall|i: int| 0 <= i < ext.len() ==> #[trigger] ext[i] != '/'
    &&& ext != seq!['.']
    &&& ext != seq!['.', '.']
    &&& forall|i: int| 0 <= i < suffix.len() ==> #[trigger] suffix[i] != '/'
}

/// The name the safe output path puts in the input's directory is a plain
/// file name, and not the input's own file name.
proof fn lemma_safe_name(input: Seq<char>, ext: Seq<char>, suffix: Seq<char>)
    requires
        safe_output_args(ext, suffix),
    ensures
        plain_name(crate::fs_utils::safe_file_name(input, ext, suffix)),
        crate::paths::file_name(input) matches Some(fi) ==> crate::fs_utils::safe_file_name(
            input,
            ext,
            suffix,
        ) != fi,
{
    let n = crate::fs_utils::safe_file_name(input, ext, suffix);
    match crate::paths::file_name(input) {
        Some(fi) => {
            lemma_name_parts(input);
            let t = crate::paths::file_stem(input)->0;
            assert forall|j: int| 0 <= j < t.len() implies #[trigger] t[j] != '/' by {
                assert(fi[j] == t[j]);
            }
            let same = match extension(input) {
                Some(x) => ascii_lower_seq(x) == ascii_lower_seq(ext),
                None => false,
            };
            if same {
                let x = extension(input)->0;
                lemma_ascii_lower_len(x);
                lemma_ascii_lower_len(ext);
                assert(n == t + seq!['_'] + suffix + seq!['.'] + ext);
                assert(n[t.len() as int] == '_');
                assert(n.len() > fi.len());
                assert forall|i: int| 0 <= i < n.len() implies #[trigger] n[i] != '/' by {
                    if i < t.len() {
                        assert(n[i] == t[i]);
                    } else if i == t.len() {
                    } else if i < t.len() + 1 + suffix.len() {
                        assert(n[i] == suffix[i - t.len() - 1]);
                    } else if i == t.len() + 1 + suffix.len() {
                    } else {
                        assert(n[i] == ext[i - t.len() - 2 - suffix.len()]);
                    }
                }
                assert(n.len() >= 4);
                assert(n != seq!['.']);
                assert(n != seq!['.', '.']);
            } else {
                assert(n == t + seq!['.'] + ext);
                assert forall|i: int| 0 <= i < n.len() implies #[trigger] n[i] != '/' by {
                    if i < t.len() {
                        assert(n[i] == t[i]);
                    } else if i > t.len() {
                        assert(n[i] == ext[i - t.len() - 1]);
                    }
                }
                assert(n.len() >= 3);
                assert(n != seq!['.']);
                assert(n != seq!['.', '.']);
                match extension(input) {
                    Some(x) => {
                        if n == fi {
                            assert(ext =~= n.subrange(t.len() + 1int, n.len() as int));
                            assert(x =~= fi.subrange(t.len() + 1int, fi.len() as int));
                        }
                    },
                    None => {
                        assert(n.len() > fi.len());
                    },
                }
            }
        },
        None => {
            assert(n == ext);
        },
    }
}

/// The safe output path never overwrites its input: for an extension
/// that is not empty, `.` or `..` and has no `/`, and a suffix without
/// `/`, the path it gives is never the input path.
pub proof fn law_safe_output_not_input(input: Seq<char>, ext: Seq<char>, suffix: Seq<char>)
    requires
        safe_output_args(ext, suffix),
    ensures
        crate::fs_utils::safe_output(input, ext, suffix) != input,
{
    let dir = match crate::paths::parent(input) {
        Some(d) => d,
        None => Seq::<char>::empty(),
    };
    let n = crate::fs_utils::safe_file_name(input, ext, suffix);
    lemma_safe_name(input, ext, suffix);
    lemma_file_name_join(dir, n);
    assert(crate::fs_utils::safe_output(input, ext, suffix) == crate::paths::join(dir, n));
}

/// Where `trimmed_end` stops: at the start, after a lone root, or after a
/// character that is neither a separator nor a `.` component.
proof fn lemma_trimmed_end_stable(p: Seq<char>, k: int)
    requires
        0 <= k <= p.len(),
    ensures
        0 <= crate::paths::trimmed_end(p, k) <= k,
        stable_end(p, crate::paths::trimmed_end(p, k)),
    decreases k,
{
    if k > 0 {
        if p[k - 1] == '/' {
            if k > 1 {
                lemma_trimmed_end_stable(p, k - 1);
            }
        } else if p[k - 1] == '.' && k >= 2 && p[k - 2] == '/' {
            lemma_trimmed_end_stable(p, k - 1);
        }
    }
}

/// Whether `p[..e]` is a path that trimming leaves as it is.
pub open spec fn stable_end(p: Seq<char>, e: int) -> bool {
    ||| e == 0
    ||| (e == 1 && p[0] == '/')
    ||| (p[e - 1] != '/' && !(e >= 2 && p[e - 1] == '.' && p[e - 2] == '/'))
}

proof fn lemma_parent_end_stable(p: Seq<char>, end: int)
    requires
        0 <= end <= p.len(),
    ensures
        crate::paths::parent_end(p, end) matches Some(e) ==> 0 <= e <= end && stable_end(p, e),
    decreases end,
{
    if end > 0 {
        if p[end - 1] == '/' {
            lemma_parent_end_stable(p, end - 1);
        } else if p[end - 1] == '.' && end >= 2 && p[end - 2] == '/' {
            lemma_parent_end_stable(p, end - 2);
        } else {
            lemma_last_sep_after(p, end);
            let s = crate::paths::last_sep(p, end) + 1;
            if s != 0 {
                lemma_trimmed_end_stable(p, s);
            }
        }
    }
}

/// The directory of a path: its parent, or nothing.
pub open spec fn dir_of(p: Seq<char>) -> Seq<char> {
    match crate::paths::parent(p) {
        Some(d) => d,
        None => Seq::empty(),
    }
}

/// A directory as `parent` gives it, joined with a plain name, has that
/// directory as its parent.
proof fn lemma_parent_join(d: Seq<char>, n: Seq<char>)
    requires
        plain_name(n),
        stable_end(d, d.len() as int),
    ensures
        crate::paths::parent(crate::paths::join(d, n)) == Some(d),
{
    let q = if d.len() > 0 && d.last() != '/' {
        d + seq!['/']
    } else {
        d
    };
    let p = crate::paths::join(d, n);
    assert(p =~= q + n);
    let end = p.len() as int;
    assert(p[end - 1] == n[n.len() - 1]);
    if n.len() >= 2 {
        assert(p[end - 2] == n[n.len() - 2]);
    } else {
        assert(n =~= seq![n[0]]);
    }
    lemma_last_sep_skip(p, q.len() as int, end);
    if q.len() > 0 {
        assert(p[q.len() - 1] == '/');
    }
    assert(crate::paths::last_sep(p, end) + 1 == q.len());
    if q.len() > 0 {
        assert(forall|i: int| 0 <= i < d.len() ==> p[i] == d[i]);
        let k = d.len() as int;
        if q.len() > d.len() {
            assert(p[k] == '/');
            assert(p[k - 1] == d[k - 1]);
            if k >= 2 {
                assert(p[k - 2] == d[k - 2]);
            }
            assert(crate::paths::trimmed_end(p, k) == k);
            assert(crate::paths::trimmed_end(p, k + 1) == crate::paths::trimmed_end(p, k));
        } else {
            assert(d[k - 1] == '/');
            assert(k == 1);
            assert(p[0] == d[0]);
            assert(crate::paths::trimmed_end(p, 1) == 1);
        }
        assert(crate::paths::trimmed_end(p, q.len() as int) == d.len());
    }
    assert(p.subrange(0, d.len() as int) =~= d);
}

/// The safe output path stays beside its input: its parent is the
/// input's directory (the input's parent, or nothing), and its file name
/// is the safe file name.
pub proof fn law_safe_output_beside_input(input: Seq<char>, ext: Seq<char>, suffix: Seq<char>)
    requires
        safe_output_args(ext, suffix),
    ensures
        crate::paths::parent(crate::fs_utils::safe_output(input, ext, suffix)) == Some(
            dir_of(input),
        ),
        crate::paths::file_name(crate::fs_utils::safe_output(input, ext, suffix)) == Some(
            crate::fs_utils::safe_file_name(input, ext, suffix),
        ),
{
    let d = dir_of(input);
    let n = crate::fs_utils::safe_file_name(input, ext, suffix);
    lemma_safe_name(input, ext, suffix);
    lemma_file_name_join(d, n);
    lemma_parent_end_stable(input, input.len() as int);
    match crate::paths::parent_end(input, input.len() as int) {
        Some(e) => {
            assert(d =~= input.subrange(0, e));
            if e >= 1 {
                assert(d[e - 1] == input[e - 1]);
            }
            if e >= 2 {
                assert(d[e - 2] == input[e - 2]);
            }
            if e == 1 {
                assert(d[0] == input[0]);
            }
        },
        None => {},
    }
    lemma_parent_join(d, n);
}

// ── User recipes override built-in ones ───────────────────────────────

/// Whether no two recipes share a name.
pub open spec fn distinct_names(v: Seq<RecipeView>) -> bool {
    forall|i: int, j: int| 0 <= i < v.len() && 0 <= j < v.len() && i != j ==> v[i].name != v[j].name
}

/// Whether one of the first `k` user recipes has this name.
pub open spec fn overridden(u: Seq<RecipeView>, k: int, name: Seq<char>) -> bool {
    exists|j: int| 0 <= j < k && #[trigger] u[j].name == name
}

/// Whether user recipe `j` is the last of its name among the first `k`.
pub open spec fn latest(u: Seq<RecipeView>, k: int, j: int) -> bool {
    forall|j2: int| j < j2 < k ==> #[trigger] u[j2].name != u[j].name
}

proof fn lemma_merge_prefix(b: Seq<RecipeView>, u: Seq<RecipeView>, k: int)
    requires
        distinct_names(b),
        0 <= k <= u.len(),
    ensures
        distinct_names(merge_all(b, u, k)),
        merge_all(b, u, k).len() >= b.len(),
        forall|i: int| 0 <= i < b.len() && !overridden(u, k, b[i].name) ==> #[trigger] merge_all(b, u, k)[i] == b[i],
        forall|j: int| 0 <= j < k && latest(u, k, j) ==> merge_all(b, u, k).contains(#[trigger] u[j]),
    decreases k,
{
    if k > 0 {
        lemma_merge_prefix(b, u, k - 1);
        let r = merge_all(b, u, k - 1);
        let x = u[k - 1];
        let r2 = merge_all(b, u, k);
        lemma_last_named(r, r.len() as int, x.name);
        let li = last_named(r, r.len() as int, x.name);
        assert(r2 == merge_one(r, x));
        if li >= 0 {
            assert(r2 == r.update(li, x));
            assert forall|i: int, j: int| 0 <= i < r2.len() && 0 <= j < r2.len() && i != j implies r2[i].name != r2[j].name by {
                if i == li {
                    assert(r[j].name != r[li].name);
                } else if j == li {
                    assert(r[i].name != r[li].name);
                }
            }
            assert forall|i: int| 0 <= i < b.len() && !overridden(u, k, b[i].name) implies #[trigger] r2[i] == b[i] by {
                assert(!overridden(u, k - 1, b[i].name)) by {
                    if overridden(u, k - 1, b[i].name) {
                        let j = choose|j: int| 0 <= j < k - 1 && #[trigger] u[j].name == b[i].name;
                        assert(u[j].name == b[i].name);
                    }
                }
                if i == li {
                    assert(u[k - 1].name == b[i].name);
                }
            }
            assert forall|j: int| 0 <= j < k && latest(u, k, j) implies r2.contains(#[trigger] u[j]) by {
                if j == k - 1 {
                    assert(r2[li] == u[j]);
                } else {
                    assert(latest(u, k - 1, j));
                    assert(r.contains(u[j]));
                    let w = choose|w: int| 0 <= w < r.len() && r[w] == u[j];
                    assert(u[k - 1].name != u[j].name);
                    assert(w != li);
                    assert(r2[w] == u[j]);
                }
            }
        } else {
            assert(r2 == r.push(x));
            assert forall|i: int, j: int| 0 <= i < r2.len() && 0 <= j < r2.len() && i != j implies r2[i].name != r2[j].name by {
                if i == r.len() {
                    assert(r[j].name != x.name);
                } else if j == r.len() {
                    assert(r[i].name != x.name);
                }
            }
            assert forall|i: int| 0 <= i < b.len() && !overridden(u, k, b[i].name) implies #[trigger] r2[i] == b[i] by {
                assert(!overridden(u, k - 1, b[i].name)) by {
                    if overridden(u, k - 1, b[i].name) {
                        let j = choose|j: int| 0 <= j < k - 1 && #[trigger] u[j].name == b[i].name;
                        assert(u[j].name == b[i].name);
                    }
                }
            }
            assert forall|j: int| 0 <= j < k && latest(u, k, j) implies r2.contains(#[trigger] u[j]) by {
                if j == k - 1 {
                    assert(r2[r.len() as int] == u[j]);
                } else {
                    assert(latest(u, k - 1, j));
                    assert(r.contains(u[j]));
                    let w = choose|w: int| 0 <= w < r.len() && r[w] == u[j];
                    assert(r2[w] == u[j]);
                }
            }
        }
    }
}

/// Loading all recipes lets user recipes override built-in ones: when the
/// built-in names are distinct, the names stay distinct; each built-in
/// recipe that no user recipe names stays in its place; and the last user
/// recipe of each name is in the list.
pub proof fn law_user_recipes_override(b: Seq<RecipeView>, u: Seq<RecipeView>)
    requires
        distinct_names(b),
    ensures
        distinct_names(merge_all(b, u, u.len() as int)),
        forall|i: int| 0 <= i < b.len() && !overridden(u, u.len() as int, b[i].name) ==> #[trigger] merge_all(b, u, u.len() as int)[i] == b[i],
        forall|j: int| 0 <= j < u.len() && latest(u, u.len() as int, j) ==> merge_all(b, u, u.len() as int).contains(#[trigger] u[j]),
{
    lemma_merge_prefix(b, u, u.len() as int);
}

/// Putting a longer tail after the stem gives a longer path.
proof fn lemma_suffixed_longer(output: Seq<char>, t: Seq<char>)
    requires
        t.len() > 0,
        t[0] == '_',
    ensures
        crate::magick::suffixed(output, t + t).len() == crate::magick::suffixed(output, t).len()
            + t.len(),
{
    let stem = match crate::paths::file_stem(output) {
        Some(x) => x,
        None => Seq::<char>::empty(),
    };
    let f1 = match crate::paths::extension(output) {
        Some(e) => stem + t + seq!['.'] + e,
        None => stem + t,
    };
    let f2 = match crate::paths::extension(output) {
        Some(e) => stem + (t + t) + seq!['.'] + e,
        None => stem + (t + t),
    };
    assert(f1.len() > 0 && f2.len() == f1.len() + t.len());
    assert(f1[0] == f2[0]) by {
        if stem.len() > 0 {
            assert(f1[0] == stem[0] && f2[0] == stem[0]);
        } else {
            assert(f1[0] == t[0] && f2[0] == t[0]);
        }
    }
}

/// The other safe output path never gives the input path back: an output
/// of another extension than the input differs from it, and where the
/// suffixed output would be the input, the suffix is put in twice.
pub proof fn law_magick_safe_output_not_input(input: Seq<char>, output: Seq<char>, name: Seq<char>)
    ensures
        crate::magick::magick_safe_output(input, output, name) != input,
{
    let t = seq!['_'] + crate::magick::lower_no_white(name);
    lemma_suffixed_longer(output, t);
}

// ── Sorting ───────────────────────────────────────────────────────────

/// Sorting recipes that are already in order leaves them as they are; with
/// [`App::sort_recipes`](crate::app::App::sort_recipes) leaving them in
/// order, sorting twice is sorting once.
pub proof fn law_sorting_ordered_recipes(m: AppModel)
    requires
        crate::app_view::recipes_in_order(m.recipes, m.recipe_sort),
    ensures
        crate::app_view::sorted_state(m).recipes == m.recipes,
{
    reveal(crate::app_view::sorted_state);
    let rs = m.recipes;
    let keys = crate::app_view::recipe_keys(m.recipe_sort, rs);
    let id = Seq::new(rs.len(), |k: int| k);
    assert forall|v: int| 0 <= v < rs.len() implies #[trigger] crate::sort::occurs(id, rs.len() as int, v) by {
        assert(id[v] == v);
    }
    assert forall|k1: int, k2: int| 0 <= k1 < k2 < rs.len() implies crate::sort::before(keys, id, k1, k2) by {
        assert(keys[k1] == crate::app_view::recipe_key(m.recipe_sort, rs[k1]));
        assert(keys[k2] == crate::app_view::recipe_key(m.recipe_sort, rs[k2]));
    }
    assert(crate::sort::stably_sorted_by(rs, keys, rs, id));
    crate::sort::lemma_is_stable_sorted(rs, keys, rs);
}

// ── File selection ────────────────────────────────────────────────────

/// Whether no path occurs twice.
pub open spec fn no_repeats(s: Seq<Seq<char>>) -> bool {
    forall|i: int, j: int| 0 <= i < j < s.len() ==> s[i] != s[j]
}

/// Toggling a path's selection flips whether it is selected, keeps every
/// other path's state and order (the path is taken out where it was, or
/// put at the end), makes no repeats, and changes nothing but the
/// selection; toggling it again gives back the same set of paths.
pub proof fn law_selection_toggle(m: AppModel, p: Seq<char>)
    requires
        no_repeats(m.selected_files),
    ensures
        no_repeats(selection_toggled(m, p).selected_files),
        selection_toggled(m, p).selected_files.contains(p) == !m.selected_files.contains(p),
        forall|q: Seq<char>| q != p ==> (selection_toggled(m, p).selected_files.contains(q)
            == m.selected_files.contains(q)),
        m.selected_files.contains(p) ==> exists|i: int|
            0 <= i < m.selected_files.len() && m.selected_files[i] == p
                && selection_toggled(m, p).selected_files == m.selected_files.remove(i),
        !m.selected_files.contains(p) ==> selection_toggled(m, p).selected_files
            == m.selected_files.push(p),
        selection_toggled(m, p) == (AppModel {
            selected_files: selection_toggled(m, p).selected_files,
            ..m
        }),
        selection_toggled(selection_toggled(m, p), p).selected_files.to_set()
            == m.selected_files.to_set(),
{
    lemma_toggle_once(m, p);
    let m2 = selection_toggled(m, p);
    lemma_toggle_once(m2, p);
    let m3 = selection_toggled(m2, p);
    assert(m3.selected_files.to_set() =~= m.selected_files.to_set()) by {
        assert forall|q: Seq<char>| #[trigger] m3.selected_files.to_set().contains(q)
            == m.selected_files.to_set().contains(q) by {
            if q != p {
                assert(m3.selected_files.contains(q) == m2.selected_files.contains(q));
                assert(m2.selected_files.contains(q) == m.selected_files.contains(q));
            }
        }
    }
}

proof fn lemma_toggle_once(m: AppModel, p: Seq<char>)
    requires
        no_repeats(m.selected_files),
    ensures
        no_repeats(selection_toggled(m, p).selected_files),
        selection_toggled(m, p).selected_files.contains(p) == !m.selected_files.contains(p),
        forall|q: Seq<char>| q != p ==> (selection_toggled(m, p).selected_files.contains(q)
            == m.selected_files.contains(q)),
        m.selected_files.contains(p) ==> exists|i: int|
            0 <= i < m.selected_files.len() && m.selected_files[i] == p
                && selection_toggled(m, p).selected_files == m.selected_files.remove(i),
        !m.selected_files.contains(p) ==> selection_toggled(m, p).selected_files
            == m.selected_files.push(p),
        selection_toggled(m, p) == (AppModel {
            selected_files: selection_toggled(m, p).selected_files,
            ..m
        }),
{
    reveal(selection_toggled);
    let s = m.selected_files;
    lemma_first_index(s, p, 0);
    match first_index(s, p, 0) {
        Some(i) => {
            let n = s.remove(i);
            assert forall|a: int, b: int| 0 <= a < b < n.len() implies n[a] != n[b] by {
                let a0 = if a < i { a } else { a + 1 };
                let b0 = if b < i { b } else { b + 1 };
                assert(n[a] == s[a0]);
                assert(n[b] == s[b0]);
            }
            assert(!n.contains(p)) by {
                if n.contains(p) {
                    let k = choose|k: int| 0 <= k < n.len() && n[k] == p;
                    let k0 = if k < i { k } else { k + 1 };
                    assert(s[k0] == p);
                    if k0 < i {
                        assert(s[k0] != p);
                    } else {
                        assert(s[i] == s[k0]);
                    }
                }
            }
            assert(s.contains(p)) by {
                assert(s[i] == p);
            }
            assert forall|q: Seq<char>| q != p implies n.contains(q) == s.contains(q) by {
                if s.contains(q) {
                    let k = choose|k: int| 0 <= k < s.len() && s[k] == q;
                    assert(k != i);
                    let k1 = if k < i { k } else { k - 1 };
                    assert(n[k1] == q);
                }
                if n.contains(q) {
                    let k = choose|k: int| 0 <= k < n.len() && n[k] == q;
                    let k0 = if k < i { k } else { k + 1 };
                    assert(s[k0] == q);
                }
            }
        },
        None => {
            let n = s.push(p);
            assert(!s.contains(p));
            assert(n[s.len() as int] == p);
            assert forall|a: int, b: int| 0 <= a < b < n.len() implies n[a] != n[b] by {
                if b == s.len() {
                    assert(n[a] == s[a]);
                }
            }
            assert forall|q: Seq<char>| q != p implies n.contains(q) == s.contains(q) by {
                if s.contains(q) {
                    let k = choose|k: int| 0 <= k < s.len() && s[k] == q;
                    assert(n[k] == q);
                }
                if n.contains(q) {
                    let k = choose|k: int| 0 <= k < n.len() && n[k] == q;
                    assert(k < s.len());
                    assert(s[k] == q);
                }
            }
        },
    }
}

/// Space toggles the selection of the entry under the file cursor, as
/// [`law_selection_toggle`] says, and does nothing without one.
pub proof fn law_cursor_selection_toggle(m: AppModel)
    ensures
        cursor_selection_toggled(m) == match entry_at(m, m.file_cursor) {
            Some(p) => selection_toggled(m, p),
            None => m,
        },
{
    reveal(cursor_selection_toggled);
}

} // verus!
