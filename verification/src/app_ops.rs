//! Operations on the interface state that the keys trigger: the preview,
//! popups and toggles, directory navigation, selection, the spinner and
//! the output of the running process.

use vstd::prelude::*;
use vstd::string::*;
use crate::app::{
    effect_views, info_view, listing_view, logged, min_usize, ostr, sat_sub, App, AppModel, EditField,
    Effect, EffectView, InfoView, ListingView, LogLevel, Mode, Probe, Toggles,
};
use crate::app_view::{
    entry_at, first_named, formats_for, lemma_first_named, selected_index, sorted_state,
    visible_of,
};
use crate::fs_utils::{is_image, is_image_path, safe_output, safe_output_path, DirListing};
use crate::magick::{argv_of, CommandBuilder, ExifInfo, ImageInfo};
use crate::paths::{extension, file_name, parent, path_extension, path_file_name, path_parent};
use crate::recipe::{recipe_args, recipe_output, recipe_views, Recipe, RecipeView};
use crate::sort::{
    key_views, lemma_is_stable_sorted, lemma_stable_sort_map, sort_by_keys, stable_sorted, KeyView,
    SortKey,
};
use crate::text::{
    chars_of, copy_str, decimal, ends_with, find_from, has_suffix, lemma_strs_push, push_decimal,
    lowercase, push_char, push_str, split_once, split_once_str, split_words, str_eq, string_of,
    strs, to_lowercase, trim, trim_str, words,
};

verus! {

/// Concatenating effect lists concatenates their views.
pub proof fn lemma_effects_concat(a: Seq<Effect>, b: Seq<Effect>)
    ensures
        effect_views(a + b) == effect_views(a) + effect_views(b),
{
    assert(effect_views(a + b) =~= effect_views(a) + effect_views(b));
}

/// Appends the effects of `b` to `a`.
pub fn add_effects(a: &mut Vec<Effect>, b: Vec<Effect>)
    ensures
        effect_views(final(a)@) == effect_views(old(a)@) + effect_views(b@),
{
    let mut b = b;
    proof {
        lemma_effects_concat(a@, b@);
    }
    a.append(&mut b);
}

/// No effects.
pub open spec fn no_effects() -> Seq<EffectView> {
    Seq::empty()
}

/// First position at or after `from` where `x` occurs in `s`.
pub open spec fn first_index(s: Seq<Seq<char>>, x: Seq<char>, from: int) -> Option<int>
    decreases s.len() - from,
{
    if from < 0 || from >= s.len() {
        None
    } else if s[from] == x {
        Some(from)
    } else {
        first_index(s, x, from + 1)
    }
}

pub proof fn lemma_first_index(s: Seq<Seq<char>>, x: Seq<char>, from: int)
    requires
        0 <= from,
    ensures
        match first_index(s, x, from) {
            Some(i) => from <= i < s.len() && s[i] == x,
            None => forall|j: int| from <= j < s.len() ==> s[j] != x,
        },
    decreases s.len() - from,
{
    if from < s.len() && s[from] != x {
        lemma_first_index(s, x, from + 1);
    }
}

/// Position of the first string equal to `x`.
pub fn find_str(v: &Vec<String>, x: &str) -> (r: Option<usize>)
    ensures
        match r {
            Some(i) => first_index(strs(v@), x@, 0) == Some(i as int),
            None => first_index(strs(v@), x@, 0) is None,
        },
{
    let ghost sv = strs(v@);
    let mut i: usize = 0;
    while i < v.len()
        invariant
            i <= v.len(),
            sv == strs(v@),
            first_index(sv, x@, 0) == first_index(sv, x@, i as int),
        decreases v.len() - i,
    {
        assert(sv[i as int] == v@[i as int]@);
        if str_eq(v[i].as_str(), x) {
            return Some(i);
        }
        i = i + 1;
    }
    None
}

// ── Preview ───────────────────────────────────────────────────────────

/// Clearing the preview: and, when the entry under the file cursor is an
/// image, asking for it to be identified.
#[verifier::opaque]
pub open spec fn preview_step(m: AppModel) -> (AppModel, Seq<EffectView>) {
    let m2 = AppModel { preview_info: None, preview_error: None, ..m };
    match entry_at(m, m.file_cursor) {
        Some(p) => if is_image_path(p) {
            (m2, seq![EffectView::Identify(p)])
        } else {
            (m2, no_effects())
        },
        None => (m2, no_effects()),
    }
}

/// The view of an identify outcome.
pub open spec fn info_result(r: Result<ImageInfo, String>) -> Result<InfoView, Seq<char>> {
    match r {
        Ok(i) => Ok(info_view(i)),
        Err(e) => Err(e@),
    }
}

/// The state once an identify outcome came back.
pub open spec fn preview_set(m: AppModel, r: Result<InfoView, Seq<char>>) -> AppModel {
    match r {
        Ok(i) => AppModel { preview_info: Some(i), preview_error: None, ..m },
        Err(e) => AppModel { preview_error: Some(e), ..m },
    }
}

impl App {
    /// Clear the preview and ask for the entry under the file cursor to be
    /// identified when it is an image (the application identifies it if
    /// it is a regular file, then calls [`App::set_preview`]).
    pub fn generate_preview(&mut self) -> (r: Vec<Effect>)
        ensures
            final(self)@ == preview_step(old(self)@).0,
            effect_views(r@) == preview_step(old(self)@).1,
    {
        proof {
            reveal(preview_step);
        }
        let entry = self.cursor_file();
        self.preview_info = None;
        self.preview_error = None;
        let mut r: Vec<Effect> = Vec::new();
        match entry {
            Some(p) => {
                if is_image(p.as_str()) {
                    let ghost pv = p@;
                    r.push(Effect::Identify(p));
                    assert(effect_views(r@) =~= seq![EffectView::Identify(pv)]);
                } else {
                    assert(effect_views(r@) =~= no_effects());
                }
            },
            None => {
                assert(effect_views(r@) =~= no_effects());
            },
        }
        r
    }

    /// Record what identifying the previewed file gave.
    pub fn set_preview(&mut self, result: Result<ImageInfo, String>)
        ensures
            final(self)@ == preview_set(old(self)@, info_result(result)),
    {
        match result {
            Ok(info) => {
                self.preview_info = Some(info);
                self.preview_error = None;
            },
            Err(e) => {
                self.preview_error = Some(e);
            },
        }
    }

    /// Record the EXIF metadata read for the file under the cursor.
    pub fn set_exif(&mut self, info: Option<ExifInfo>)
        ensures
            final(self)@ == (AppModel {
                exif_info: match info {
                    Some(x) => Some(x@),
                    None => None,
                },
                ..old(self)@
            }),
    {
        self.exif_info = info;
    }
}

// ── Help, hidden files, edit popup, format picker ────────────────────

/// The help overlay toggled.
#[verifier::opaque]
pub open spec fn help_toggled(m: AppModel) -> AppModel {
    AppModel {
        toggles: Toggles { show_help: !m.toggles.show_help, ..m.toggles },
        mode: if !m.toggles.show_help {
            Mode::Help
        } else {
            Mode::Browse
        },
        ..m
    }
}

/// Hidden files shown or hidden, with the file cursor kept on the list.
#[verifier::opaque]
pub open spec fn hidden_toggled(m: AppModel) -> AppModel {
    let m2 = AppModel { toggles: Toggles { show_hidden: !m.toggles.show_hidden, ..m.toggles }, ..m };
    let count = visible_of(m2).len();
    AppModel {
        file_cursor: if count == 0 {
            0
        } else {
            min_usize(m.file_cursor, (count - 1) as usize)
        },
        ..m2
    }
}

/// The edit popup opened with the current values.
#[verifier::opaque]
pub open spec fn edit_opened(m: AppModel) -> AppModel {
    AppModel {
        edit_output_buf: match m.edit_output_dir {
            Some(d) => d,
            None => Seq::empty(),
        },
        edit_args_buf: m.edit_extra_args,
        edit_field: EditField::OutputDir,
        toggles: Toggles { show_edit_popup: true, ..m.toggles },
        mode: Mode::Edit,
        ..m
    }
}

/// The format picker toggled; when it opens, its cursor goes to the
/// current override (or the top).
#[verifier::opaque]
pub open spec fn picker_toggled(m: AppModel) -> AppModel {
    if m.available_formats.len() == 0 {
        m
    } else if m.toggles.show_format_picker {
        AppModel { toggles: Toggles { show_format_picker: false, ..m.toggles }, ..m }
    } else {
        AppModel {
            toggles: Toggles { show_format_picker: true, ..m.toggles },
            format_picker_cursor: match m.format_override {
                Some(f) => match first_index(m.available_formats, f, 0) {
                    Some(i) => i as usize,
                    None => 0,
                },
                None => 0,
            },
            ..m
        }
    }
}

/// A format override chosen, the picker closed, then the preview redone.
#[verifier::opaque]
pub open spec fn format_selected(m: AppModel, f: Seq<char>) -> (AppModel, Seq<EffectView>) {
    preview_step(
        AppModel {
            format_override: Some(f),
            toggles: Toggles { show_format_picker: false, ..m.toggles },
            ..m
        },
    )
}

impl App {
    /// Toggle the help overlay.
    pub fn toggle_help(&mut self)
        ensures
            final(self)@ == help_toggled(old(self)@),
    {
        proof {
            reveal(help_toggled);
        }
        let show = !self.toggles.show_help;
        self.toggles.show_help = show;
        self.mode = if show {
            Mode::Help
        } else {
            Mode::Browse
        };
    }

    /// Toggle showing hidden files and keep the file cursor on the list.
    pub fn toggle_hidden(&mut self)
        ensures
            final(self)@ == hidden_toggled(old(self)@),
    {
        proof {
            reveal(hidden_toggled);
        }
        let t = Toggles { show_hidden: !self.toggles.show_hidden, ..self.toggles };
        let count = self.visible_count_with(t.show_hidden);
        let c = if count == 0 {
            0
        } else if self.file_cursor > count - 1 {
            count - 1
        } else {
            self.file_cursor
        };
        self.toggles = t;
        self.file_cursor = c;
    }

    /// Open the edit popup with the current values.
    pub fn open_edit(&mut self)
        ensures
            final(self)@ == edit_opened(old(self)@),
    {
        proof {
            reveal(edit_opened);
        }
        let buf = match &self.edit_output_dir {
            Some(d) => d.clone(),
            None => String::new(),
        };
        let args = self.edit_extra_args.clone();
        self.edit_output_buf = buf;
        self.edit_args_buf = args;
        self.edit_field = EditField::OutputDir;
        self.toggles.show_edit_popup = true;
        self.mode = Mode::Edit;
    }

    /// Toggle the format picker (it stays closed when the recipe offers
    /// no format).
    pub fn toggle_format_picker(&mut self)
        ensures
            final(self)@ == picker_toggled(old(self)@),
    {
        proof {
            reveal(picker_toggled);
        }
        if self.available_formats.len() == 0 {
            return;
        }
        let show = !self.toggles.show_format_picker;
        let c = if !show {
            self.format_picker_cursor
        } else {
            match &self.format_override {
                Some(f) => match find_str(&self.available_formats, f.as_str()) {
                    Some(i) => i,
                    None => 0,
                },
                None => 0,
            }
        };
        self.toggles = Toggles { show_format_picker: show, ..self.toggles };
        self.format_picker_cursor = c;
    }

    fn set_format_override(&mut self, format: String)
        ensures
            final(self)@ == (AppModel {
                format_override: Some(format@),
                toggles: Toggles { show_format_picker: false, ..old(self)@.toggles },
                ..old(self)@
            }),
    {
        self.format_override = Some(format);
        self.toggles = Toggles { show_format_picker: false, ..self.toggles };
    }

    /// Choose a format override, close the picker and redo the preview.
    pub fn select_format(&mut self, format: String) -> (r: Vec<Effect>)
        ensures
            final(self)@ == format_selected(old(self)@, format@).0,
            effect_views(r@) == format_selected(old(self)@, format@).1,
    {
        proof {
            reveal(format_selected);
        }
        self.set_format_override(format);
        self.generate_preview()
    }
}

// ── Directories and selection ─────────────────────────────────────────

/// The state once the application changed to a directory and listed it:
/// the cursor at the top, no selection, the preview redone.
#[verifier::opaque]
pub open spec fn directory_entered(m: AppModel, path: Seq<char>, l: ListingView) -> (
    AppModel,
    Seq<EffectView>,
) {
    preview_step(
        AppModel {
            current_dir: path,
            dir_listing: l,
            file_cursor: 0,
            selected_files: Seq::empty(),
            ..m
        },
    )
}

/// Going up: a request to change to the parent of the current directory
/// (the root when that parent is the empty path); nothing at the root.
pub open spec fn parent_request(m: AppModel) -> Seq<EffectView> {
    match parent(m.current_dir) {
        Some(p) => seq![
            EffectView::ChangeDirectory {
                path: if p.len() == 0 {
                    "/"@
                } else {
                    p
                },
                check_dir: false,
            },
        ],
        None => no_effects(),
    }
}

/// A path selected, or unselected when it already was.
#[verifier::opaque]
pub open spec fn selection_toggled(m: AppModel, p: Seq<char>) -> AppModel {
    match first_index(m.selected_files, p, 0) {
        Some(i) => AppModel { selected_files: m.selected_files.remove(i), ..m },
        None => AppModel { selected_files: m.selected_files.push(p), ..m },
    }
}

/// The entry under the file cursor selected or unselected.
#[verifier::opaque]
pub open spec fn cursor_selection_toggled(m: AppModel) -> AppModel {
    match entry_at(m, m.file_cursor) {
        Some(p) => selection_toggled(m, p),
        None => m,
    }
}

/// Activating the entry under the file cursor: a directory is entered, an
/// image is selected or unselected.
#[verifier::opaque]
pub open spec fn activated(m: AppModel, probe: Probe) -> (AppModel, Seq<EffectView>) {
    match entry_at(m, m.file_cursor) {
        None => (m, no_effects()),
        Some(p) => if probe.cursor_is_dir {
            (m, seq![EffectView::ChangeDirectory { path: p, check_dir: true }])
        } else if is_image_path(p) {
            (selection_toggled(m, p), no_effects())
        } else {
            (m, no_effects())
        },
    }
}

/// The recipe named `name` (the first of that name) put under the cursor
/// and selected, its formats offered, the preview redone.
#[verifier::opaque]
pub open spec fn recipe_focused(m: AppModel, name: Seq<char>) -> (AppModel, Seq<EffectView>) {
    match first_named(m.recipes, name, 0) {
        Some(pos) => {
            let m2 = AppModel { recipe_cursor: pos as usize, selected_recipe_name: Some(name), ..m };
            preview_step(AppModel { available_formats: formats_for(m2), ..m2 })
        },
        None => (m, no_effects()),
    }
}

/// The file cursor put on the first entry equal to `path`, the preview
/// redone.
#[verifier::opaque]
pub open spec fn file_focused(m: AppModel, path: Seq<char>) -> (AppModel, Seq<EffectView>) {
    match first_index(visible_of(m), path, 0) {
        Some(i) => preview_step(AppModel { file_cursor: i as usize, ..m }),
        None => (m, no_effects()),
    }
}

proof fn lemma_strs_remove(v: Seq<String>, i: int)
    requires
        0 <= i < v.len(),
    ensures
        strs(v.remove(i)) == strs(v).remove(i),
{
    assert(strs(v.remove(i)) =~= strs(v).remove(i));
}

impl App {
    fn set_directory(&mut self, path: String, listing: DirListing)
        ensures
            final(self)@ == (AppModel {
                current_dir: path@,
                dir_listing: listing_view(listing),
                file_cursor: 0,
                selected_files: Seq::empty(),
                ..old(self)@
            }),
    {
        self.current_dir = path;
        self.dir_listing = listing;
        self.file_cursor = 0;
        self.selected_files = Vec::new();
        assert(strs(self.selected_files@) =~= Seq::<Seq<char>>::empty());
    }

    /// Take the listing of a directory the application changed to: the
    /// cursor goes to the top, the selection is cleared, the preview is
    /// redone.
    pub fn enter_directory(&mut self, path: String, listing: DirListing) -> (r: Vec<Effect>)
        ensures
            final(self)@ == directory_entered(old(self)@, path@, listing_view(listing)).0,
            effect_views(r@) == directory_entered(old(self)@, path@, listing_view(listing)).1,
    {
        proof {
            reveal(directory_entered);
        }
        self.set_directory(path, listing);
        self.generate_preview()
    }

    /// Ask to change to the parent directory (the root when the parent is
    /// the empty path); at the root nothing happens.
    pub fn parent_directory(&self) -> (r: Vec<Effect>)
        ensures
            effect_views(r@) == parent_request(self@),
    {
        let mut r: Vec<Effect> = Vec::new();
        match path_parent(self.current_dir.as_str()) {
            Some(p) => {
                let target = if p.unicode_len() == 0 {
                    copy_str("/")
                } else {
                    p
                };
                let ghost tv = target@;
                r.push(Effect::ChangeDirectory { path: target, check_dir: false });
                assert(effect_views(r@) =~= parent_request(self@));
            },
            None => {
                assert(effect_views(r@) =~= parent_request(self@));
            },
        }
        r
    }

    /// Select a path, or unselect it when it already was selected.
    pub fn toggle_file_selection_for(&mut self, path: String)
        ensures
            final(self)@ == selection_toggled(old(self)@, path@),
    {
        proof {
            reveal(selection_toggled);
        }
        match find_str(&self.selected_files, path.as_str()) {
            Some(i) => {
                proof {
                    lemma_first_index(strs(self.selected_files@), path@, 0);
                    lemma_strs_remove(self.selected_files@, i as int);
                }
                self.selected_files.remove(i);
            },
            None => {
                proof {
                    lemma_strs_push(self.selected_files@, path);
                }
                self.selected_files.push(path);
            },
        }
    }

    /// Select or unselect the entry under the file cursor.
    pub fn toggle_file_selection(&mut self)
        ensures
            final(self)@ == cursor_selection_toggled(old(self)@),
    {
        proof {
            reveal(cursor_selection_toggled);
        }
        match self.cursor_file() {
            Some(p) => self.toggle_file_selection_for(p),
            None => {},
        }
    }

    /// Activate the entry under the file cursor: ask to enter it when it
    /// is a directory, else select or unselect it when it is an image.
    pub fn activate_file_cursor(&mut self, probe: Probe) -> (r: Vec<Effect>)
        ensures
            final(self)@ == activated(old(self)@, probe).0,
            effect_views(r@) == activated(old(self)@, probe).1,
    {
        proof {
            reveal(activated);
        }
        let mut r: Vec<Effect> = Vec::new();
        match self.cursor_file() {
            Some(p) => {
                if probe.cursor_is_dir {
                    let ghost pv = p@;
                    r.push(Effect::ChangeDirectory { path: p, check_dir: true });
                    assert(effect_views(r@) =~= seq![
                        EffectView::ChangeDirectory { path: pv, check_dir: true },
                    ]);
                } else if is_image(p.as_str()) {
                    self.toggle_file_selection_for(p);
                    assert(effect_views(r@) =~= no_effects());
                } else {
                    assert(effect_views(r@) =~= no_effects());
                }
            },
            None => {
                assert(effect_views(r@) =~= no_effects());
            },
        }
        r
    }

    fn set_recipe_choice(&mut self, pos: usize, name: String)
        ensures
            final(self)@ == (AppModel {
                recipe_cursor: pos,
                selected_recipe_name: Some(name@),
                ..old(self)@
            }),
    {
        self.recipe_cursor = pos;
        self.selected_recipe_name = Some(name);
    }

    /// Put the recipe named `name` under the cursor and select it; offer
    /// its formats and redo the preview. Nothing happens when no recipe
    /// has that name.
    pub fn focus_recipe(&mut self, name: &str) -> (r: Vec<Effect>)
        ensures
            final(self)@ == recipe_focused(old(self)@, name@).0,
            effect_views(r@) == recipe_focused(old(self)@, name@).1,
    {
        proof {
            reveal(recipe_focused);
        }
        match crate::app_view::find_named(&self.recipes, name) {
            Some(pos) => {
                self.set_recipe_choice(pos, copy_str(name));
                self.update_available_formats();
                self.generate_preview()
            },
            None => Vec::new(),
        }
    }

    /// Put the file cursor on the entry equal to `path` and redo the
    /// preview; nothing happens when the panel does not list it.
    pub fn focus_file(&mut self, path: &str) -> (r: Vec<Effect>)
        ensures
            final(self)@ == file_focused(old(self)@, path@).0,
            effect_views(r@) == file_focused(old(self)@, path@).1,
    {
        proof {
            reveal(file_focused);
        }
        let entries = self.visible_entries();
        match find_str(&entries, path) {
            Some(i) => {
                self.file_cursor = i;
                self.generate_preview()
            },
            None => Vec::new(),
        }
    }
}

// ── Spinner and process output ────────────────────────────────────────

/// The frames of the spinner.
pub open spec fn spinner_frames() -> Seq<char> {
    seq![
        '\u{280b}',
        '\u{2819}',
        '\u{2839}',
        '\u{2838}',
        '\u{283c}',
        '\u{2834}',
        '\u{2826}',
        '\u{2827}',
        '\u{2807}',
        '\u{280f}',
    ]
}

/// One tick: the spinner, when it turns, moves to its next frame.
#[verifier::opaque]
pub open spec fn ticked(m: AppModel) -> AppModel {
    if m.toggles.spinner_active {
        AppModel { spinner_frame: ((m.spinner_frame + 1) % 10) as usize, ..m }
    } else {
        m
    }
}

/// A line of the running process's output recorded: the progress and
/// stage read from it, when any, then the line appended (after a newline
/// when there is output already).
/// The progress and stage of the running process updated with what a
/// line of its output said, when it said anything.
pub open spec fn progress_set(m: AppModel, stage: Option<Seq<char>>, progress: Option<(u64, u64)>) -> AppModel {
    let m2 = match progress {
        Some((c, t)) => AppModel { progress_current: c, progress_total: t, ..m },
        None => m,
    };
    match stage {
        Some(st) => AppModel { progress_stage: st, ..m2 },
        None => m2,
    }
}

/// The output so far with a line appended, after a newline when there is
/// output already.
pub open spec fn output_appended(out: Seq<char>, line: Seq<char>) -> Seq<char> {
    if out.len() == 0 {
        line
    } else {
        out.push('\n') + line
    }
}

#[verifier::opaque]
pub open spec fn output_recorded(
    m: AppModel,
    line: Seq<char>,
    stage: Option<Seq<char>>,
    progress: Option<(u64, u64)>,
) -> AppModel {
    AppModel {
        process_output: output_appended(m.process_output, line),
        ..progress_set(m, stage, progress)
    }
}

/// The text before the first occurrence of `p` (all of it when there is
/// none): the first piece of `str::split`.
pub open spec fn first_piece(s: Seq<char>, p: Seq<char>) -> Seq<char> {
    match find_from(s, p, 0) {
        Some(i) => s.subrange(0, i),
        None => s,
    }
}

/// The second piece of `str::split` on `p`, when there is one.
pub open spec fn second_piece(s: Seq<char>, p: Seq<char>) -> Option<Seq<char>> {
    match split_once(s, p) {
        Some((_, rest)) => Some(first_piece(rest, p)),
        None => None,
    }
}

/// A word without its trailing comma, if it has one.
pub open spec fn without_comma(w: Seq<char>) -> Seq<char> {
    if ends_with(w, ","@) {
        w.subrange(0, w.len() - 1)
    } else {
        w
    }
}

/// The progress the words after `]: ` give: the two sides of a first word
/// holding `/` (as in `3/10`), or else the numbers of `N of M` (as in
/// `50 of 100, 50% complete`, the comma after `M` left out).
pub open spec fn fraction_of(w: Seq<Seq<char>>) -> Option<(Seq<char>, Seq<char>)> {
    if w.len() == 0 {
        None
    } else if split_once(w[0], "/"@) is Some {
        split_once(w[0], "/"@)
    } else if w.len() >= 3 && w[1] == "of"@ {
        Some((w[0], without_comma(w[2])))
    } else {
        None
    }
}

/// What a `-monitor` line of `magick` says, as in `resize[a.png]: 50 of
/// 100, 50% complete`: when the line has a part after `]: ` and a
/// non-empty part before `[`, the stage (that part, trimmed) and the
/// progress that the words after `]: ` give (see [`fraction_of`]).
pub open spec fn progress_of(line: Seq<char>) -> Option<(Seq<char>, Option<(Seq<char>, Seq<char>)>)> {
    let op = first_piece(line, "["@);
    match second_piece(line, "]: "@) {
        Some(data) => if op.len() > 0 {
            Some((trim(op), fraction_of(words(data))))
        } else {
            None
        },
        None => None,
    }
}

fn strip_comma(w: &str) -> (r: String)
    ensures
        r@ == without_comma(w@),
{
    if has_suffix(w, ",") {
        proof {
            reveal_strlit(",");
        }
        let v = chars_of(w);
        string_of(&v, 0, v.len() - 1)
    } else {
        copy_str(w)
    }
}

fn fraction_words(w: &Vec<String>) -> (r: Option<(String, String)>)
    ensures
        match r {
            Some((a, b)) => fraction_of(strs(w@)) == Some((a@, b@)),
            None => fraction_of(strs(w@)) is None,
        },
{
    if w.len() == 0 {
        return None;
    }
    assert(strs(w@)[0] == w@[0]@);
    match split_once_str(w[0].as_str(), "/") {
        Some(p) => Some(p),
        None => {
            if w.len() >= 3 {
                assert(strs(w@)[1] == w@[1]@);
                assert(strs(w@)[2] == w@[2]@);
                if str_eq(w[1].as_str(), "of") {
                    return Some((w[0].clone(), strip_comma(w[2].as_str())));
                }
            }
            None
        },
    }
}

/// The text before the first occurrence of `p`.
fn first_piece_str(s: &str, p: &str) -> (r: String)
    ensures
        r@ == first_piece(s@, p@),
{
    match split_once_str(s, p) {
        Some((a, _)) => a,
        None => copy_str(s),
    }
}

/// Read a `-monitor` line of `magick`: the stage and the fraction, as
/// [`progress_of`] says.
pub fn progress_fields(line: &str) -> (r: Option<(String, Option<(String, String)>)>)
    ensures
        match r {
            Some((st, f)) => progress_of(line@) == Some((st@, match f {
                Some((a, b)) => Some((a@, b@)),
                None => None,
            })),
            None => progress_of(line@) is None,
        },
{
    let op = first_piece_str(line, "[");
    let data = match split_once_str(line, "]: ") {
        Some((_, rest)) => first_piece_str(rest.as_str(), "]: "),
        None => {
            return None;
        },
    };
    if op.unicode_len() == 0 {
        return None;
    }
    let w = split_words(data.as_str());
    let frac = fraction_words(&w);
    Some((trim_str(op.as_str()), frac))
}

impl App {
    /// One tick of the interface: the spinner, when it turns, moves to its
    /// next frame.
    pub fn on_tick(&mut self)
        requires
            old(self).toggles.spinner_active ==> old(self).spinner_frame < usize::MAX,
        ensures
            final(self)@ == ticked(old(self)@),
    {
        proof {
            reveal(ticked);
        }
        if self.toggles.spinner_active {
            self.spinner_frame = (self.spinner_frame + 1) % 10;
        }
    }

    /// The current frame of the spinner.
    pub fn spinner_char(&self) -> (r: char)
        ensures
            r == spinner_frames()[(self.spinner_frame % 10) as int],
    {
        let frames = [
            '\u{280b}',
            '\u{2819}',
            '\u{2839}',
            '\u{2838}',
            '\u{283c}',
            '\u{2834}',
            '\u{2826}',
            '\u{2827}',
            '\u{2807}',
            '\u{280f}',
        ];
        let r = frames[self.spinner_frame % 10];
        assert(frames@ =~= spinner_frames());
        r
    }

    fn set_numbers(&mut self, progress: Option<(u64, u64)>)
        ensures
            final(self)@ == progress_set(old(self)@, None, progress),
    {
        match progress {
            Some((c, t)) => {
                self.progress_current = c;
                self.progress_total = t;
            },
            None => {},
        }
    }

    fn set_stage(&mut self, st: String)
        ensures
            final(self)@ == (AppModel { progress_stage: st@, ..old(self)@ }),
    {
        self.progress_stage = st;
    }

    #[verifier::rlimit(30)]
    fn set_progress(&mut self, stage: Option<String>, progress: Option<(u64, u64)>)
        ensures
            final(self)@ == progress_set(old(self)@, match stage {
                Some(st) => Some(st@),
                None => None,
            }, progress),
    {
        self.set_numbers(progress);
        match stage {
            Some(st) => {
                self.set_stage(st);
            },
            None => {},
        }
    }

    fn set_process_output(&mut self, out: String)
        ensures
            final(self)@ == (AppModel { process_output: out@, ..old(self)@ }),
    {
        self.process_output = out;
    }

    /// Record a line of the running process's output, with the stage and
    /// progress read from it (see [`progress_fields`]; the application
    /// turns the fraction into hundredths).
    pub fn record_output(&mut self, line: String, stage: Option<String>, progress: Option<(u64, u64)>)
        ensures
            final(self)@ == output_recorded(old(self)@, line@, match stage {
                Some(st) => Some(st@),
                None => None,
            }, progress),
    {
        proof {
            reveal(output_recorded);
        }
        let mut out = String::new();
        if self.process_output.unicode_len() > 0 {
            push_str(&mut out, self.process_output.as_str());
            push_char(&mut out, '\n');
        }
        push_str(&mut out, line.as_str());
        assert(out@ == output_appended(self@.process_output, line@));
        self.set_progress(stage, progress);
        self.set_process_output(out);
    }
}

// ── Directory browser ─────────────────────────────────────────────────

/// The directory browser opened at the output directory being edited
/// (when that is a directory), else at its parent, else at the root; its
/// listing is cleared and asked for.
#[verifier::opaque]
pub open spec fn browser_opened(m: AppModel, buf_is_dir: bool) -> (AppModel, Seq<EffectView>) {
    let start = if m.edit_output_buf.len() == 0 {
        "/"@
    } else if buf_is_dir {
        m.edit_output_buf
    } else {
        match parent(m.edit_output_buf) {
            Some(p) => p,
            None => "/"@,
        }
    };
    (
        AppModel {
            dir_browser_path: start,
            dir_browser_cursor: 0,
            dir_browser_listing: Seq::empty(),
            toggles: Toggles { show_dir_browser: true, ..m.toggles },
            ..m
        },
        seq![EffectView::RefreshDirBrowser(start)],
    )
}

/// Whether a directory entry (its path, whether it is a directory) is
/// offered by the browser: a directory whose name does not start with `.`.
pub open spec fn browsable(e: (String, bool)) -> bool {
    e.1 && match file_name(e.0@) {
        Some(n) => !(n.len() > 0 && n[0] == '.'),
        None => false,
    }
}

/// The paths of the entries the browser offers, in order.
pub open spec fn browsable_paths(v: Seq<(String, bool)>) -> Seq<Seq<char>>
    decreases v.len(),
{
    if v.len() == 0 {
        Seq::empty()
    } else if browsable(v.last()) {
        browsable_paths(v.drop_last()).push(v.last().0@)
    } else {
        browsable_paths(v.drop_last())
    }
}

/// The sort key of a browsed directory: its name, lowercased.
pub open spec fn name_key(p: Seq<char>) -> KeyView {
    KeyView {
        first: match file_name(p) {
            Some(n) => lowercase(n),
            None => Seq::empty(),
        },
        second: Seq::empty(),
        num: 0,
    }
}

/// The sort keys of browsed directories.
pub open spec fn name_keys(v: Seq<Seq<char>>) -> Seq<KeyView> {
    v.map_values(|p: Seq<char>| name_key(p))
}

/// The browser's listing made from the entries of its directory: the
/// directories not starting with `.`, sorted by lowercased name.
pub open spec fn browser_listing(v: Seq<(String, bool)>) -> Seq<Seq<char>> {
    stable_sorted(browsable_paths(v), name_keys(browsable_paths(v)))
}

/// Going up in the browser: its parent directory, listing cleared and
/// asked for, cursor at the top; nothing at the root.
#[verifier::opaque]
pub open spec fn browser_up(m: AppModel) -> (AppModel, Seq<EffectView>) {
    match parent(m.dir_browser_path) {
        Some(p) => (
            AppModel {
                dir_browser_path: p,
                dir_browser_listing: Seq::empty(),
                dir_browser_cursor: 0,
                ..m
            },
            seq![EffectView::RefreshDirBrowser(p)],
        ),
        None => (m, no_effects()),
    }
}

/// Entering the directory under the browser's cursor, when it is one.
#[verifier::opaque]
pub open spec fn browser_entered(m: AppModel, probe: Probe) -> (AppModel, Seq<EffectView>) {
    if m.dir_browser_cursor < m.dir_browser_listing.len() && probe.browser_entry_is_dir {
        let sub = m.dir_browser_listing[m.dir_browser_cursor as int];
        (
            AppModel {
                dir_browser_path: sub,
                dir_browser_cursor: 0,
                dir_browser_listing: Seq::empty(),
                ..m
            },
            seq![EffectView::RefreshDirBrowser(sub)],
        )
    } else {
        (m, no_effects())
    }
}

fn browser_name_key(p: &str) -> (k: SortKey)
    ensures
        k@ == name_key(p@),
{
    match path_file_name(p) {
        Some(n) => {
            let l = to_lowercase(n.as_str());
            SortKey { first: chars_of(l.as_str()), second: Vec::new(), num: 0 }
        },
        None => SortKey { first: Vec::new(), second: Vec::new(), num: 0 },
    }
}

fn browsable_entry(e: &(String, bool)) -> (r: bool)
    ensures
        r == browsable(*e),
{
    if !e.1 {
        return false;
    }
    match path_file_name(e.0.as_str()) {
        Some(n) => {
            let v = chars_of(n.as_str());
            !(v.len() > 0 && v[0] == '.')
        },
        None => false,
    }
}

/// The browser's listing for the entries of its directory.
fn make_browser_listing(entries: &Vec<(String, bool)>) -> (r: Vec<String>)
    ensures
        strs(r@) == browser_listing(entries@),
{
    let mut kept: Vec<String> = Vec::new();
    let mut i: usize = 0;
    while i < entries.len()
        invariant
            i <= entries.len(),
            strs(kept@) == browsable_paths(entries@.subrange(0, i as int)),
        decreases entries.len() - i,
    {
        let ghost cur = entries@.subrange(0, i + 1);
        assert(cur.drop_last() =~= entries@.subrange(0, i as int));
        if browsable_entry(&entries[i]) {
            let x = copy_str(entries[i].0.as_str());
            proof {
                lemma_strs_push(kept@, x);
            }
            kept.push(x);
        }
        i = i + 1;
    }
    assert(entries@.subrange(0, entries@.len() as int) =~= entries@);
    let ghost items0 = kept@;
    let mut keys: Vec<SortKey> = Vec::new();
    let mut k: usize = 0;
    while k < kept.len()
        invariant
            k <= kept.len(),
            keys@.len() == k,
            forall|j: int| 0 <= j < k ==> #[trigger] keys@[j]@ == name_key(kept@[j]@),
        decreases kept.len() - k,
    {
        keys.push(browser_name_key(kept[k].as_str()));
        k = k + 1;
    }
    let ghost kv = key_views(keys@);
    assert(kv =~= name_keys(strs(items0)));
    sort_by_keys(&mut kept, &mut keys);
    proof {
        lemma_stable_sort_map(items0, kv, kept@, |s: String| s@);
        assert(items0.map_values(|s: String| s@) =~= strs(items0));
        assert(kept@.map_values(|s: String| s@) =~= strs(kept@));
        lemma_is_stable_sorted(strs(items0), kv, strs(kept@));
    }
    kept
}

impl App {
    /// Open the directory browser at the output directory being edited
    /// (`buf_is_dir` says whether that path is a directory), else at its
    /// parent, else at the root, and ask for its listing.
    pub fn open_dir_browser(&mut self, buf_is_dir: bool) -> (r: Vec<Effect>)
        ensures
            final(self)@ == browser_opened(old(self)@, buf_is_dir).0,
            effect_views(r@) == browser_opened(old(self)@, buf_is_dir).1,
    {
        proof {
            reveal(browser_opened);
        }
        let start = if self.edit_output_buf.unicode_len() == 0 {
            copy_str("/")
        } else if buf_is_dir {
            self.edit_output_buf.clone()
        } else {
            match path_parent(self.edit_output_buf.as_str()) {
                Some(p) => p,
                None => copy_str("/"),
            }
        };
        let e = Effect::RefreshDirBrowser(start.clone());
        self.dir_browser_path = start;
        self.dir_browser_cursor = 0;
        self.dir_browser_listing = Vec::new();
        self.toggles = Toggles { show_dir_browser: true, ..self.toggles };
        assert(strs(self.dir_browser_listing@) =~= Seq::<Seq<char>>::empty());
        let mut r: Vec<Effect> = Vec::new();
        r.push(e);
        assert(effect_views(r@) =~= browser_opened(old(self)@, buf_is_dir).1);
        r
    }

    /// Take the entries of the browsed directory (each a path and whether
    /// it is a directory): the browser lists the directories whose names
    /// do not start with `.`, sorted by lowercased name.
    pub fn set_dir_browser_listing(&mut self, entries: Vec<(String, bool)>)
        ensures
            final(self)@ == (AppModel { dir_browser_listing: browser_listing(entries@), ..old(self)@ }),
    {
        self.dir_browser_listing = make_browser_listing(&entries);
    }

    /// Go up one directory in the browser.
    pub fn dir_browser_up(&mut self) -> (r: Vec<Effect>)
        ensures
            final(self)@ == browser_up(old(self)@).0,
            effect_views(r@) == browser_up(old(self)@).1,
    {
        proof {
            reveal(browser_up);
        }
        let mut r: Vec<Effect> = Vec::new();
        match path_parent(self.dir_browser_path.as_str()) {
            Some(p) => {
                let e = Effect::RefreshDirBrowser(p.clone());
                self.dir_browser_path = p;
                self.dir_browser_listing = Vec::new();
                self.dir_browser_cursor = 0;
                assert(strs(self.dir_browser_listing@) =~= Seq::<Seq<char>>::empty());
                r.push(e);
                assert(effect_views(r@) =~= browser_up(old(self)@).1);
            },
            None => {
                assert(effect_views(r@) =~= no_effects());
            },
        }
        r
    }

    /// Enter the directory under the browser's cursor, when the listing
    /// has one there and it is a directory.
    pub fn enter_dir_browser_subdir(&mut self, probe: Probe) -> (r: Vec<Effect>)
        ensures
            final(self)@ == browser_entered(old(self)@, probe).0,
            effect_views(r@) == browser_entered(old(self)@, probe).1,
    {
        proof {
            reveal(browser_entered);
        }
        let mut r: Vec<Effect> = Vec::new();
        if self.dir_browser_cursor < self.dir_browser_listing.len() && probe.browser_entry_is_dir {
            let sub = self.dir_browser_listing[self.dir_browser_cursor].clone();
            assert(sub@ == self@.dir_browser_listing[self.dir_browser_cursor as int]);
            let e = Effect::RefreshDirBrowser(sub.clone());
            self.dir_browser_path = sub;
            self.dir_browser_cursor = 0;
            self.dir_browser_listing = Vec::new();
            assert(strs(self.dir_browser_listing@) =~= Seq::<Seq<char>>::empty());
            r.push(e);
            assert(effect_views(r@) =~= browser_entered(old(self)@, probe).1);
        } else {
            assert(effect_views(r@) =~= no_effects());
        }
        r
    }
}

// ── Commands for the selected recipe ──────────────────────────────────

/// The extension of a path, or nothing.
pub open spec fn ext_or_empty(p: Seq<char>) -> Seq<char> {
    match extension(p) {
        Some(e) => e,
        None => Seq::empty(),
    }
}

/// The output kept as it is when an output directory or a format is
/// chosen; otherwise the safe output path beside the input (which never
/// overwrites it), with the output's extension and the state's
/// `auto_suffix`.
pub open spec fn guarded_output(m: AppModel, r: RecipeView, input: Seq<char>, out: Seq<char>) -> Seq<
    char,
> {
    if m.edit_output_dir is Some || m.format_override is Some {
        out
    } else {
        safe_output(input, ext_or_empty(out), m.auto_suffix)
    }
}

/// The `magick` arguments for an input and an output under the state's
/// recipe settings: the recipe's arguments for the chosen format, then the
/// extra arguments of the edit popup, split on whitespace.
pub open spec fn command_for(m: AppModel, r: RecipeView, input: Seq<char>, out: Seq<char>) -> Seq<
    Seq<char>,
> {
    argv_of(input, recipe_args(r, m.format_override), Seq::empty(), out) + words(m.edit_extra_args)
}

/// The comparison popup toggled: closing it, or asking for the selected
/// recipe to be compared on the image under the file cursor.
#[verifier::opaque]
pub open spec fn comparison_toggled(m: AppModel, probe: Probe) -> (AppModel, Seq<EffectView>) {
    if m.toggles.show_before_after {
        (AppModel { toggles: Toggles { show_before_after: false, ..m.toggles }, ..m }, no_effects())
    } else {
        match entry_at(m, m.file_cursor) {
            None => (m, no_effects()),
            Some(p) => if !probe.cursor_is_file || !is_image_path(p) {
                (
                    logged(m, "No valid image file selected for comparison"@, LogLevel::Error),
                    no_effects(),
                )
            } else {
                match selected_index(m) {
                    None => (m, no_effects()),
                    Some(i) => {
                        let r = m.recipes[i];
                        let out = guarded_output(m, r, p, recipe_output(r, p, m.format_override));
                        (
                            m,
                            seq![
                                EffectView::CompareBeforeAfter {
                                    input: p,
                                    argv: command_for(m, r, p, out),
                                    output: out,
                                },
                            ],
                        )
                    },
                }
            },
        }
    }
}

/// What the comparison gave: the popup opens, or the failure is logged.
#[verifier::opaque]
pub open spec fn comparison_done(m: AppModel, r: Result<(), Seq<char>>) -> AppModel {
    match r {
        Ok(_) => AppModel { toggles: Toggles { show_before_after: true, ..m.toggles }, ..m },
        Err(e) => logged(m, "Before/after comparison failed: "@ + e, LogLevel::Error),
    }
}

/// What loading an image for the preview popup gave.
pub enum PreviewOutcome {
    /// The image was decoded and encoded for the terminal.
    Shown,
    /// The file could not be opened (the error).
    OpenFailed(String),
    /// The image could not be decoded (the error).
    DecodeFailed(String),
    /// The image could not be encoded for the terminal (the error).
    EncodeFailed(String),
}

/// The image preview toggled: closing it, or asking for the image under
/// the file cursor to be loaded.
#[verifier::opaque]
pub open spec fn image_preview_toggled(m: AppModel, probe: Probe) -> (AppModel, Seq<EffectView>) {
    if m.toggles.show_image_preview {
        (AppModel { toggles: Toggles { show_image_preview: false, ..m.toggles }, ..m }, no_effects())
    } else {
        match entry_at(m, m.file_cursor) {
            None => (m, no_effects()),
            Some(p) => if !probe.cursor_is_file || !is_image_path(p) {
                (
                    logged(m, "No valid image file selected for preview"@, LogLevel::Error),
                    no_effects(),
                )
            } else {
                (m, seq![EffectView::PreviewImage(p)])
            },
        }
    }
}

/// What loading the preview image gave: the popup opens, or the failure
/// is logged.
#[verifier::opaque]
pub open spec fn image_preview_set(m: AppModel, o: PreviewOutcome) -> AppModel {
    match o {
        PreviewOutcome::Shown => AppModel {
            toggles: Toggles { show_image_preview: true, ..m.toggles },
            ..m
        },
        PreviewOutcome::OpenFailed(e) => logged(m, "Failed to open image: "@ + e@, LogLevel::Error),
        PreviewOutcome::DecodeFailed(e) => logged(
            m,
            "Failed to decode image: "@ + e@,
            LogLevel::Error,
        ),
        PreviewOutcome::EncodeFailed(e) => logged(
            m,
            "Image encoding failed: "@ + e@,
            LogLevel::Error,
        ),
    }
}

impl App {
    /// The output for `input` under the state's settings (see
    /// [`guarded_output`]).
    pub fn guard_output(&self, recipe: &Recipe, input: &str, out: String) -> (r: String)
        ensures
            r@ == guarded_output(self@, recipe@, input@, out@),
    {
        if self.edit_output_dir.is_some() || self.format_override.is_some() {
            out
        } else {
            let ext = match path_extension(out.as_str()) {
                Some(e) => e,
                None => String::new(),
            };
            safe_output_path(input, ext.as_str(), self.auto_suffix.as_str())
        }
    }

    /// The `magick` arguments for an input and an output (see
    /// [`command_for`]).
    pub fn command_argv(&self, recipe: &Recipe, input: &str, out: &str) -> (r: Vec<String>)
        ensures
            strs(r@) == command_for(self@, recipe@, input@, out@),
    {
        let fo = match &self.format_override {
            Some(f) => Some(f.as_str()),
            None => None,
        };
        let args = recipe.resolved_args(fo);
        let no_args: Vec<String> = Vec::new();
        assert(strs(no_args@) =~= Seq::<Seq<char>>::empty());
        let mut argv = CommandBuilder::build_argv(input, &args, &no_args, out);
        let extra = split_words(self.edit_extra_args.as_str());
        let ghost a0 = strs(argv@);
        let mut extra = extra;
        proof {
            assert(strs(argv@ + extra@) =~= strs(argv@) + strs(extra@));
        }
        argv.append(&mut extra);
        argv
    }

    /// Toggle the before/after comparison: close it, or ask for the
    /// selected recipe to be compared on the image under the file cursor
    /// (`probe` says whether that entry is a regular file).
    pub fn toggle_before_after(&mut self, probe: Probe) -> (r: Vec<Effect>)
        ensures
            final(self)@ == comparison_toggled(old(self)@, probe).0,
            effect_views(r@) == comparison_toggled(old(self)@, probe).1,
    {
        proof {
            reveal(comparison_toggled);
        }
        let mut r: Vec<Effect> = Vec::new();
        if self.toggles.show_before_after {
            self.toggles = Toggles { show_before_after: false, ..self.toggles };
            assert(effect_views(r@) =~= no_effects());
            return r;
        }
        let p = match self.cursor_file() {
            Some(p) => p,
            None => {
                assert(effect_views(r@) =~= no_effects());
                return r;
            },
        };
        if !probe.cursor_is_file || !is_image(p.as_str()) {
            self.add_log(copy_str("No valid image file selected for comparison"), LogLevel::Error);
            assert(effect_views(r@) =~= no_effects());
            return r;
        }
        let i = match self.selected_recipe_index() {
            Some(i) => i,
            None => {
                assert(effect_views(r@) =~= no_effects());
                return r;
            },
        };
        proof {
            lemma_first_named(self@.recipes, self@.selected_recipe_name->0, 0);
        }
        let recipe = &self.recipes[i];
        assert(recipe@ == self@.recipes[i as int]);
        let fo = match &self.format_override {
            Some(f) => Some(f.as_str()),
            None => None,
        };
        let out0 = recipe.output_path(p.as_str(), fo);
        let out = self.guard_output(recipe, p.as_str(), out0);
        let argv = self.command_argv(recipe, p.as_str(), out.as_str());
        r.push(Effect::CompareBeforeAfter { input: p, argv, output: out });
        assert(effect_views(r@) =~= comparison_toggled(old(self)@, probe).1);
        r
    }

    /// Take what the comparison gave: open the popup, or log the failure.
    pub fn before_after_done(&mut self, result: Result<(), String>)
        ensures
            final(self)@ == comparison_done(old(self)@, match result {
                Ok(_) => Ok(()),
                Err(e) => Err(e@),
            }),
    {
        proof {
            reveal(comparison_done);
        }
        match result {
            Ok(_) => {
                self.toggles = Toggles { show_before_after: true, ..self.toggles };
            },
            Err(e) => {
                let mut msg = copy_str("Before/after comparison failed: ");
                push_str(&mut msg, e.as_str());
                self.add_log(msg, LogLevel::Error);
            },
        }
    }

    /// Toggle the image preview: close it, or ask for the image under the
    /// file cursor to be loaded (`probe` says whether that entry is a
    /// regular file).
    pub fn toggle_image_preview(&mut self, probe: Probe) -> (r: Vec<Effect>)
        ensures
            final(self)@ == image_preview_toggled(old(self)@, probe).0,
            effect_views(r@) == image_preview_toggled(old(self)@, probe).1,
    {
        proof {
            reveal(image_preview_toggled);
        }
        let mut r: Vec<Effect> = Vec::new();
        if self.toggles.show_image_preview {
            self.toggles = Toggles { show_image_preview: false, ..self.toggles };
            assert(effect_views(r@) =~= no_effects());
            return r;
        }
        match self.cursor_file() {
            Some(p) => {
                if !probe.cursor_is_file || !is_image(p.as_str()) {
                    self.add_log(copy_str("No valid image file selected for preview"), LogLevel::Error);
                    assert(effect_views(r@) =~= no_effects());
                } else {
                    let ghost pv = p@;
                    r.push(Effect::PreviewImage(p));
                    assert(effect_views(r@) =~= seq![EffectView::PreviewImage(pv)]);
                }
            },
            None => {
                assert(effect_views(r@) =~= no_effects());
            },
        }
        r
    }

    /// Take what loading the preview image gave: open the popup, or log
    /// the failure.
    pub fn image_preview_done(&mut self, outcome: PreviewOutcome)
        ensures
            final(self)@ == image_preview_set(old(self)@, outcome),
    {
        proof {
            reveal(image_preview_set);
        }
        match outcome {
            PreviewOutcome::Shown => {
                self.toggles = Toggles { show_image_preview: true, ..self.toggles };
            },
            PreviewOutcome::OpenFailed(e) => {
                let mut msg = copy_str("Failed to open image: ");
                push_str(&mut msg, e.as_str());
                self.add_log(msg, LogLevel::Error);
            },
            PreviewOutcome::DecodeFailed(e) => {
                let mut msg = copy_str("Failed to decode image: ");
                push_str(&mut msg, e.as_str());
                self.add_log(msg, LogLevel::Error);
            },
            PreviewOutcome::EncodeFailed(e) => {
                let mut msg = copy_str("Image encoding failed: ");
                push_str(&mut msg, e.as_str());
                self.add_log(msg, LogLevel::Error);
            },
        }
    }
}

// ── Exporting recipes ─────────────────────────────────────────────────

/// A loaded user recipe taken into the list: it replaces the first recipe
/// of the same name, or is added at the end.
pub open spec fn absorbed(rs: Seq<RecipeView>, u: RecipeView) -> Seq<RecipeView> {
    match first_named(rs, u.name, 0) {
        Some(i) => rs.update(i, u),
        None => rs.push(u),
    }
}

/// The first `k` user recipes taken into the list, in order.
pub open spec fn absorbed_all(rs: Seq<RecipeView>, us: Seq<RecipeView>, k: int) -> Seq<RecipeView>
    decreases k,
{
    if k <= 0 || k > us.len() {
        rs
    } else {
        absorbed(absorbed_all(rs, us, k - 1), us[k - 1])
    }
}

/// The log line of a successful export.
pub open spec fn export_message(count: usize) -> Seq<char> {
    "Exported "@ + decimal(count as nat) + " built-in recipes to ~/.config/lazymagick/recipes/"@
}

/// The state once exporting the built-in recipes came back: on success
/// (with how many were exported and the user recipes loaded again) the
/// count is logged, the user recipes are taken into the list and the list
/// is sorted again; on failure the error is logged.
#[verifier::opaque]
pub open spec fn exported_state(m: AppModel, r: Result<(usize, Seq<RecipeView>), Seq<char>>) -> AppModel {
    match r {
        Ok((count, us)) => {
            let m2 = logged(m, export_message(count), LogLevel::Success);
            sorted_state(AppModel { recipes: absorbed_all(m2.recipes, us, us.len() as int), ..m2 })
        },
        Err(e) => logged(m, "Failed to export recipes: "@ + e, LogLevel::Error),
    }
}

/// Take loaded user recipes into a list of recipes.
fn absorb_recipes(rs: &mut Vec<Recipe>, users: Vec<Recipe>)
    ensures
        recipe_views(final(rs)@) == absorbed_all(
            recipe_views(old(rs)@),
            recipe_views(users@),
            users@.len() as int,
        ),
{
    let ghost start = recipe_views(rs@);
    let ghost us = recipe_views(users@);
    let ghost n = users@.len();
    let mut rest = users;
    let mut k: usize = 0;
    assert(rest@.len() == rest.len());
    while rest.len() > 0
        invariant
            k + rest@.len() == n,
            n == us.len(),
            n <= usize::MAX,
            forall|j: int| 0 <= j < rest@.len() ==> #[trigger] rest@[j]@ == us[k + j],
            recipe_views(rs@) == absorbed_all(start, us, k as int),
        decreases rest.len(),
    {
        assert(rest@[0]@ == us[k + 0]);
        let u = rest.remove(0);
        let ghost before = rs@;
        match crate::app_view::find_named(rs, u.name.as_str()) {
            Some(i) => {
                proof {
                    lemma_first_named(recipe_views(before), u@.name, 0);
                }
                let ghost uv = u@;
                rs.set(i, u);
                assert(recipe_views(rs@) =~= recipe_views(before).update(i as int, uv));
            },
            None => {
                let ghost uv = u@;
                rs.push(u);
                assert(recipe_views(rs@) =~= recipe_views(before).push(uv));
            },
        }
        k = k + 1;
    }
}

// ── Undo list ─────────────────────────────────────────────────────────

/// The request to delete the generated file under the undo cursor (the
/// last one when the cursor is past the end); none when the list is empty.
pub open spec fn undo_target(m: AppModel) -> Seq<EffectView> {
    if m.generated_outputs.len() > 0 {
        let idx = min_usize(m.undo_cursor, (m.generated_outputs.len() - 1) as usize);
        seq![EffectView::DeleteOutput { index: idx, path: m.generated_outputs[idx as int] }]
    } else {
        no_effects()
    }
}

/// The state once deleting generated file `index` came back: on success
/// the deletion is logged, the file leaves the list and the cursor stays
/// on it; on failure the error is logged.
#[verifier::opaque]
pub open spec fn output_deleted_state(m: AppModel, index: usize, r: Result<(), Seq<char>>) -> AppModel {
    let path = m.generated_outputs[index as int];
    match r {
        Ok(_) => {
            let m2 = logged(m, "Deleted: "@ + path, LogLevel::Info);
            let outs = m2.generated_outputs.remove(index as int);
            AppModel {
                generated_outputs: outs,
                undo_cursor: min_usize(m.undo_cursor, sat_sub(outs.len() as usize, 1)),
                ..m2
            }
        },
        Err(e) => logged(m, "Failed to delete "@ + path + ": "@ + e, LogLevel::Error),
    }
}

/// The undo list emptied, which is logged.
#[verifier::opaque]
pub open spec fn undo_cleared(m: AppModel) -> AppModel {
    logged(
        AppModel { generated_outputs: Seq::empty(), undo_cursor: 0, ..m },
        "Undo list cleared"@,
        LogLevel::Info,
    )
}

impl App {
    /// Take what exporting the built-in recipes gave: on success, how
    /// many were exported and the user recipes loaded again.
    pub fn exported(&mut self, result: Result<(usize, Vec<Recipe>), String>)
        ensures
            final(self)@ == exported_state(old(self)@, match result {
                Ok((count, us)) => Ok((count, recipe_views(us@))),
                Err(e) => Err(e@),
            }),
    {
        proof {
            reveal(exported_state);
        }
        match result {
            Ok((count, users)) => {
                let mut msg = copy_str("Exported ");
                push_decimal(&mut msg, count as u64);
                push_str(&mut msg, " built-in recipes to ~/.config/lazymagick/recipes/");
                self.add_log(msg, LogLevel::Success);
                absorb_recipes(&mut self.recipes, users);
                self.sort_recipes();
            },
            Err(e) => {
                let mut msg = copy_str("Failed to export recipes: ");
                push_str(&mut msg, e.as_str());
                self.add_log(msg, LogLevel::Error);
            },
        }
    }

    /// Ask to delete the generated file under the undo cursor.
    pub fn undo_delete_request(&self) -> (r: Vec<Effect>)
        ensures
            effect_views(r@) == undo_target(self@),
    {
        let mut r: Vec<Effect> = Vec::new();
        let n = self.generated_outputs.len();
        if n > 0 {
            let idx = if self.undo_cursor < n - 1 {
                self.undo_cursor
            } else {
                n - 1
            };
            let path = self.generated_outputs[idx].clone();
            r.push(Effect::DeleteOutput { index: idx, path });
            assert(effect_views(r@) =~= undo_target(self@));
        } else {
            assert(effect_views(r@) =~= undo_target(self@));
        }
        r
    }

    fn drop_output(&mut self, index: usize)
        requires
            index < old(self).generated_outputs.len(),
        ensures
            final(self)@ == (AppModel {
                generated_outputs: old(self)@.generated_outputs.remove(index as int),
                undo_cursor: min_usize(
                    old(self)@.undo_cursor,
                    sat_sub((old(self)@.generated_outputs.len() - 1) as usize, 1),
                ),
                ..old(self)@
            }),
    {
        proof {
            lemma_strs_remove(self.generated_outputs@, index as int);
        }
        self.generated_outputs.remove(index);
        let c = crate::app_view::clamp_cursor(self.undo_cursor, self.generated_outputs.len());
        self.undo_cursor = c;
    }

    /// Take what deleting generated file `index` gave.
    pub fn output_deleted(&mut self, index: usize, result: Result<(), String>)
        requires
            index < old(self).generated_outputs.len(),
        ensures
            final(self)@ == output_deleted_state(old(self)@, index, match result {
                Ok(_) => Ok(()),
                Err(e) => Err(e@),
            }),
    {
        proof {
            reveal(output_deleted_state);
        }
        let path = self.generated_outputs[index].clone();
        match result {
            Ok(_) => {
                let mut msg = copy_str("Deleted: ");
                push_str(&mut msg, path.as_str());
                self.add_log(msg, LogLevel::Info);
                self.drop_output(index);
            },
            Err(e) => {
                let mut msg = copy_str("Failed to delete ");
                push_str(&mut msg, path.as_str());
                push_str(&mut msg, ": ");
                push_str(&mut msg, e.as_str());
                self.add_log(msg, LogLevel::Error);
            },
        }
    }

    /// Empty the undo list.
    pub fn clear_undo_list(&mut self)
        ensures
            final(self)@ == undo_cleared(old(self)@),
    {
        proof {
            reveal(undo_cleared);
        }
        self.generated_outputs = Vec::new();
        self.undo_cursor = 0;
        assert(strs(self.generated_outputs@) =~= Seq::<Seq<char>>::empty());
        self.add_log(copy_str("Undo list cleared"), LogLevel::Info);
    }
}

} // verus!
