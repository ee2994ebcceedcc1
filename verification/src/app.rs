//! The state of the interactive interface and the operations on it.
//!
//! The state holds plain values only. Operations that need the file
//! system, a child process or the terminal hand back [`Effect`]s; the
//! application performs them and reports the outcome through the
//! matching method.

use vstd::prelude::*;
use vstd::string::*;
use crate::fs_utils::{is_image, is_image_path, DirListing};
use crate::magick::{ExifInfo, ExifView, ImageInfo};
use crate::paths::{file_name, path_file_name};
use crate::recipe::{recipe_views, Recipe, RecipeView};
use crate::sort::{key_views, stable_sorted, KeyView, SortKey};
use crate::text::{
    chars_of, copy_str, decimal, digit_char, lemma_strs_push, push_char, push_decimal,
    push_str, push_two_digits, str_eq, strs,
};

verus! {

/// How recipes are sorted in the list.
#[derive(Clone, Copy, Debug, PartialEq, Eq, Structural)]
pub enum SortOrder {
    /// By name, case-insensitive.
    Name,
    /// By usage count, most used first.
    Usage,
    /// By category, then name.
    Category,
}

/// Severity / kind of a log entry.
#[derive(Clone, Copy, Debug, PartialEq, Eq, Structural)]
pub enum LogLevel {
    Info,
    Success,
    Error,
    Magick,
}

/// Which field of the edit popup is active.
#[derive(Clone, Copy, Debug, PartialEq, Eq, Structural)]
pub enum EditField {
    OutputDir,
    ExtraArgs,
}

/// Which set of keys is active.
#[derive(Clone, Copy, Debug, PartialEq, Eq, Structural)]
pub enum Mode {
    /// Browse recipes, files and the command preview.
    Browse,
    /// The edit popup is open.
    Edit,
    /// A recipe is running.
    Run,
    /// The help overlay is open.
    Help,
}

/// Which panel has the keyboard.
#[derive(Clone, Copy, Debug, PartialEq, Eq, Structural)]
pub enum Focus {
    Recipe,
    File,
    Command,
    Log,
}

impl Focus {
    /// Cycle to the next panel: Recipe → File → Command → Log → Recipe.
    pub fn next(self) -> (r: Focus)
        ensures
            r == focus_after(self),
    {
        match self {
            Focus::Recipe => Focus::File,
            Focus::File => Focus::Command,
            Focus::Command => Focus::Log,
            Focus::Log => Focus::Recipe,
        }
    }
}

/// The panel after `f` in the cycle.
pub open spec fn focus_after(f: Focus) -> Focus {
    match f {
        Focus::Recipe => Focus::File,
        Focus::File => Focus::Command,
        Focus::Command => Focus::Log,
        Focus::Log => Focus::Recipe,
    }
}

/// The panel before `f` in the cycle.
pub open spec fn focus_before(f: Focus) -> Focus {
    match f {
        Focus::Recipe => Focus::Log,
        Focus::File => Focus::Recipe,
        Focus::Command => Focus::File,
        Focus::Log => Focus::Command,
    }
}

/// A line of the log panel. Its timestamp is always the `HH:MM:SS`
/// clock time of some moment (the type's invariant).
pub struct LogEntry {
    /// The text.
    message: String,
    /// Its kind.
    level: LogLevel,
    /// When it was added (`HH:MM:SS`).
    timestamp: String,
}

impl LogEntry {
    /// Every log entry is stamped with a clock time.
    #[verifier::type_invariant]
    spec fn stamped(self) -> bool {
        exists|secs: u64| self.timestamp@ == clock_text(secs)
    }

    /// The text of the entry.
    pub closed spec fn message_view(self) -> Seq<char> {
        self.message@
    }

    /// The kind of the entry.
    pub closed spec fn level_view(self) -> LogLevel {
        self.level
    }

    /// The timestamp of the entry.
    pub closed spec fn timestamp_view(self) -> Seq<char> {
        self.timestamp@
    }

    /// The text.
    pub fn message(&self) -> (r: &String)
        ensures
            r@ == self.message_view(),
    {
        &self.message
    }

    /// The kind.
    pub fn level(&self) -> (r: LogLevel)
        ensures
            r == self.level_view(),
    {
        self.level
    }

    /// When it was added: the `HH:MM:SS` clock time of some moment.
    pub fn timestamp(&self) -> (r: &String)
        ensures
            r@ == self.timestamp_view(),
            exists|secs: u64| r@ == clock_text(secs),
    {
        proof {
            use_type_invariant(self);
        }
        &self.timestamp
    }
}

/// One queued image-processing job.
pub struct ProcessingJob {
    /// Name of the recipe.
    pub recipe_name: String,
    /// Input image.
    pub input: String,
    /// Intended output.
    pub output: String,
    /// Full argument vector, starting with `magick`.
    pub argv: Vec<String>,
}

/// The contents of a [`ProcessingJob`].
pub struct JobView {
    pub recipe_name: Seq<char>,
    pub input: Seq<char>,
    pub output: Seq<char>,
    pub argv: Seq<Seq<char>>,
}

impl View for ProcessingJob {
    type V = JobView;

    open spec fn view(&self) -> JobView {
        JobView {
            recipe_name: self.recipe_name@,
            input: self.input@,
            output: self.output@,
            argv: strs(self.argv@),
        }
    }
}

/// The contents of an [`ImageInfo`].
pub struct InfoView {
    pub path: Seq<char>,
    pub format: Seq<char>,
    pub dimensions: Seq<char>,
    pub bit_depth: Seq<char>,
    pub color_space: Seq<char>,
    pub file_size: Seq<char>,
}

/// The view of image information.
pub open spec fn info_view(i: ImageInfo) -> InfoView {
    InfoView {
        path: i.path@,
        format: i.format@,
        dimensions: i.dimensions@,
        bit_depth: i.bit_depth@,
        color_space: i.color_space@,
        file_size: i.file_size@,
    }
}

/// The contents of a [`DirListing`].
pub struct ListingView {
    pub directories: Seq<Seq<char>>,
    pub image_files: Seq<Seq<char>>,
    pub other_files: Seq<Seq<char>>,
}

/// The view of a directory listing.
pub open spec fn listing_view(l: DirListing) -> ListingView {
    ListingView {
        directories: strs(l.directories@),
        image_files: strs(l.image_files@),
        other_files: strs(l.other_files@),
    }
}

/// A key of the keyboard.
#[derive(Clone, Copy, Debug, PartialEq, Eq, Structural)]
pub enum KeyCode {
    Char(char),
    Enter,
    Esc,
    Tab,
    BackTab,
    Backspace,
    Up,
    Down,
    Left,
    Right,
    PageUp,
    PageDown,
    Other,
}

/// The modifier keys held with a key: none, exactly Control, or some
/// other combination.
#[derive(Clone, Copy, Debug, PartialEq, Eq, Structural)]
pub enum Modifiers {
    Plain,
    Control,
    Other,
}

/// A key press.
#[derive(Clone, Copy, Debug, PartialEq, Eq, Structural)]
pub struct Key {
    pub code: KeyCode,
    pub modifiers: Modifiers,
}

/// What the file system says about the paths a key press may look at,
/// read just before the key is handled.
#[derive(Clone, Copy, Debug, PartialEq, Eq, Structural)]
pub struct Probe {
    /// The entry under the file cursor is a regular file.
    pub cursor_is_file: bool,
    /// The entry under the file cursor is a directory.
    pub cursor_is_dir: bool,
    /// The directory browser's path is a directory.
    pub browser_path_is_dir: bool,
    /// The directory browser's entry under its cursor is a directory.
    pub browser_entry_is_dir: bool,
}

/// Work that only the application can do, with the method that takes the
/// outcome back.
pub enum Effect {
    /// List the directory (after checking that it is one, when
    /// `check_dir`), then [`App::enter_directory`].
    ChangeDirectory { path: String, check_dir: bool },
    /// If the path is a regular file, run `magick identify` on it, then
    /// [`App::set_preview`].
    Identify(String),
    /// Delete the generated file, then [`App::output_deleted`].
    DeleteOutput { index: usize, path: String },
    /// Read the EXIF metadata of the file into [`App::exif_info`].
    LoadExif(String),
    /// List the subdirectories of the path, then
    /// [`App::set_dir_browser_listing`].
    RefreshDirBrowser(String),
    /// Check whether the output directory being edited is a directory,
    /// then [`App::open_dir_browser`].
    OpenDirBrowser,
    /// Classify the selected files, then [`App::run_current`].
    StartRun,
    /// Start `magick` with these arguments, then [`App::spawned`] or
    /// [`App::spawn_failed`].
    Spawn(Vec<String>),
    /// Stop the running process with SIGTERM and wait for it.
    Kill,
    /// Run the comparison command, then [`App::before_after_done`].
    CompareBeforeAfter { input: String, argv: Vec<String>, output: String },
    /// Decode the image for the preview popup, then
    /// [`App::image_preview_done`].
    PreviewImage(String),
    /// Export the built-in recipes, then [`App::exported`].
    ExportBuiltins,
}

/// The contents of an [`Effect`].
pub enum EffectView {
    ChangeDirectory { path: Seq<char>, check_dir: bool },
    Identify(Seq<char>),
    DeleteOutput { index: usize, path: Seq<char> },
    LoadExif(Seq<char>),
    RefreshDirBrowser(Seq<char>),
    OpenDirBrowser,
    StartRun,
    Spawn(Seq<Seq<char>>),
    Kill,
    CompareBeforeAfter { input: Seq<char>, argv: Seq<Seq<char>>, output: Seq<char> },
    PreviewImage(Seq<char>),
    ExportBuiltins,
}

impl View for Effect {
    type V = EffectView;

    open spec fn view(&self) -> EffectView {
        match self {
            Effect::ChangeDirectory { path, check_dir } => EffectView::ChangeDirectory {
                path: path@,
                check_dir: *check_dir,
            },
            Effect::Identify(p) => EffectView::Identify(p@),
            Effect::DeleteOutput { index, path } => EffectView::DeleteOutput {
                index: *index,
                path: path@,
            },
            Effect::LoadExif(p) => EffectView::LoadExif(p@),
            Effect::RefreshDirBrowser(p) => EffectView::RefreshDirBrowser(p@),
            Effect::OpenDirBrowser => EffectView::OpenDirBrowser,
            Effect::StartRun => EffectView::StartRun,
            Effect::Spawn(a) => EffectView::Spawn(strs(a@)),
            Effect::Kill => EffectView::Kill,
            Effect::CompareBeforeAfter { input, argv, output } => EffectView::CompareBeforeAfter {
                input: input@,
                argv: strs(argv@),
                output: output@,
            },
            Effect::PreviewImage(p) => EffectView::PreviewImage(p@),
            Effect::ExportBuiltins => EffectView::ExportBuiltins,
        }
    }
}

/// The views of a list of effects.
pub open spec fn effect_views(v: Seq<Effect>) -> Seq<EffectView> {
    v.map_values(|e: Effect| e@)
}

/// The on/off switches of the interface.
#[derive(Clone, Copy, Debug, PartialEq, Eq, Structural)]
pub struct Toggles {
    /// The event loop should stop.
    pub should_quit: bool,
    /// The user is typing a recipe filter.
    pub is_filtering: bool,
    /// Hidden files are listed.
    pub show_hidden: bool,
    /// The format picker is open.
    pub show_format_picker: bool,
    /// The directory browser (inside the edit popup) is open.
    pub show_dir_browser: bool,
    /// The edit popup is open.
    pub show_edit_popup: bool,
    /// The help overlay is open.
    pub show_help: bool,
    /// A `magick` process is running.
    pub process_running: bool,
    /// The spinner turns.
    pub spinner_active: bool,
    /// Commands are logged instead of run.
    pub dry_run: bool,
    /// Selected directories are walked for images.
    pub recursive: bool,
    /// The EXIF panel is open.
    pub show_exif: bool,
    /// The undo list is open.
    pub show_undo_list: bool,
    /// The before/after comparison is open.
    pub show_before_after: bool,
    /// The image preview is open.
    pub show_image_preview: bool,
}

/// The state of the interface.
pub struct App {
    pub mode: Mode,
    pub toggles: Toggles,
    pub focus: Focus,
    // recipes
    pub recipes: Vec<Recipe>,
    pub recipe_cursor: usize,
    pub selected_recipe_name: Option<String>,
    pub recipe_sort: SortOrder,
    pub recipe_filter: String,
    // file browser
    pub current_dir: String,
    pub dir_listing: DirListing,
    pub file_cursor: usize,
    pub selected_files: Vec<String>,
    // formats
    pub format_override: Option<String>,
    pub available_formats: Vec<String>,
    pub format_picker_cursor: usize,
    // directory browser
    pub dir_browser_path: String,
    pub dir_browser_cursor: usize,
    pub dir_browser_listing: Vec<String>,
    // edit popup
    pub edit_output_dir: Option<String>,
    pub edit_extra_args: String,
    pub edit_field: EditField,
    pub edit_output_buf: String,
    pub edit_args_buf: String,
    // log and help
    pub log_entries: Vec<LogEntry>,
    // running process
    pub spinner_frame: usize,
    pub progress_current: u64,
    pub progress_total: u64,
    pub progress_stage: String,
    pub process_output: String,
    pub processing_queue: Vec<ProcessingJob>,
    pub processing_queue_index: usize,
    // preview and popups
    pub preview_info: Option<ImageInfo>,
    pub preview_error: Option<String>,
    pub exif_info: Option<ExifInfo>,
    pub generated_outputs: Vec<String>,
    pub undo_cursor: usize,
    /// Suffix put into output names when the output keeps the input's
    /// format (the `auto_suffix` setting).
    pub auto_suffix: String,
}

/// The contents of an [`App`] (log entries without their timestamps).
pub struct AppModel {
    pub mode: Mode,
    pub toggles: Toggles,
    pub focus: Focus,
    pub recipes: Seq<RecipeView>,
    pub recipe_cursor: usize,
    pub selected_recipe_name: Option<Seq<char>>,
    pub recipe_sort: SortOrder,
    pub recipe_filter: Seq<char>,
    pub current_dir: Seq<char>,
    pub dir_listing: ListingView,
    pub file_cursor: usize,
    pub selected_files: Seq<Seq<char>>,
    pub format_override: Option<Seq<char>>,
    pub available_formats: Seq<Seq<char>>,
    pub format_picker_cursor: usize,
    pub dir_browser_path: Seq<char>,
    pub dir_browser_cursor: usize,
    pub dir_browser_listing: Seq<Seq<char>>,
    pub edit_output_dir: Option<Seq<char>>,
    pub edit_extra_args: Seq<char>,
    pub edit_field: EditField,
    pub edit_output_buf: Seq<char>,
    pub edit_args_buf: Seq<char>,
    pub log: Seq<(Seq<char>, LogLevel)>,
    pub spinner_frame: usize,
    pub progress_current: u64,
    pub progress_total: u64,
    pub progress_stage: Seq<char>,
    pub process_output: Seq<char>,
    pub processing_queue: Seq<JobView>,
    pub processing_queue_index: usize,
    pub preview_info: Option<InfoView>,
    pub preview_error: Option<Seq<char>>,
    pub exif_info: Option<ExifView>,
    pub generated_outputs: Seq<Seq<char>>,
    pub undo_cursor: usize,
    pub auto_suffix: Seq<char>,
}

/// The view of an optional string.
pub open spec fn ostr(o: Option<String>) -> Option<Seq<char>> {
    match o {
        Some(s) => Some(s@),
        None => None,
    }
}

/// The log lines without their timestamps.
pub open spec fn log_views(v: Seq<LogEntry>) -> Seq<(Seq<char>, LogLevel)> {
    v.map_values(|e: LogEntry| (e.message_view(), e.level_view()))
}

/// The views of queued jobs.
pub open spec fn job_views(v: Seq<ProcessingJob>) -> Seq<JobView> {
    v.map_values(|j: ProcessingJob| j@)
}

/// The view of optional image information.
pub open spec fn opt_info(o: Option<ImageInfo>) -> Option<InfoView> {
    match o {
        Some(i) => Some(info_view(i)),
        None => None,
    }
}

/// The view of optional EXIF metadata.
pub open spec fn opt_exif(o: Option<ExifInfo>) -> Option<ExifView> {
    match o {
        Some(x) => Some(x@),
        None => None,
    }
}

impl View for App {
    type V = AppModel;

    open spec fn view(&self) -> AppModel {
        AppModel {
            mode: self.mode,
            toggles: self.toggles,
            focus: self.focus,
            recipes: recipe_views(self.recipes@),
            recipe_cursor: self.recipe_cursor,
            selected_recipe_name: ostr(self.selected_recipe_name),
            recipe_sort: self.recipe_sort,
            recipe_filter: self.recipe_filter@,
            current_dir: self.current_dir@,
            dir_listing: listing_view(self.dir_listing),
            file_cursor: self.file_cursor,
            selected_files: strs(self.selected_files@),
            format_override: ostr(self.format_override),
            available_formats: strs(self.available_formats@),
            format_picker_cursor: self.format_picker_cursor,
            dir_browser_path: self.dir_browser_path@,
            dir_browser_cursor: self.dir_browser_cursor,
            dir_browser_listing: strs(self.dir_browser_listing@),
            edit_output_dir: ostr(self.edit_output_dir),
            edit_extra_args: self.edit_extra_args@,
            edit_field: self.edit_field,
            edit_output_buf: self.edit_output_buf@,
            edit_args_buf: self.edit_args_buf@,
            log: log_views(self.log_entries@),
            spinner_frame: self.spinner_frame,
            progress_current: self.progress_current,
            progress_total: self.progress_total,
            progress_stage: self.progress_stage@,
            process_output: self.process_output@,
            processing_queue: job_views(self.processing_queue@),
            processing_queue_index: self.processing_queue_index,
            preview_info: opt_info(self.preview_info),
            preview_error: ostr(self.preview_error),
            exif_info: opt_exif(self.exif_info),
            generated_outputs: strs(self.generated_outputs@),
            undo_cursor: self.undo_cursor,
            auto_suffix: self.auto_suffix@,
        }
    }
}

/// Whether the state is well formed: an open format picker has its cursor
/// on one of the formats.
pub open spec fn wf(m: AppModel) -> bool {
    m.toggles.show_format_picker ==> m.format_picker_cursor < m.available_formats.len()
}

// ── Arithmetic on cursors ─────────────────────────────────────────────

/// `a.saturating_sub(b)`.
pub open spec fn sat_sub(a: usize, b: usize) -> usize {
    if a >= b {
        (a - b) as usize
    } else {
        0
    }
}

/// `a.saturating_add(b)`.
pub open spec fn sat_add(a: usize, b: usize) -> usize {
    if a + b <= usize::MAX {
        (a + b) as usize
    } else {
        usize::MAX
    }
}

/// `a.min(b)`.
pub open spec fn min_usize(a: usize, b: usize) -> usize {
    if a <= b {
        a
    } else {
        b
    }
}

/// A cursor moved down one step in a list of `len` entries.
pub open spec fn step_down(c: usize, len: usize) -> usize {
    min_usize(sat_add(c, 1), sat_sub(len, 1))
}

pub fn step_down_exec(c: usize, len: usize) -> (r: usize)
    ensures
        r == step_down(c, len),
{
    let up = c.saturating_add(1);
    let top = len.saturating_sub(1);
    if up <= top {
        up
    } else {
        top
    }
}

// ── Log ───────────────────────────────────────────────────────────────

/// The model with a log line added.
pub open spec fn logged(m: AppModel, msg: Seq<char>, lvl: LogLevel) -> AppModel {
    AppModel { log: m.log.push((msg, lvl)), ..m }
}

/// The current time in seconds since the Unix epoch
/// (`SystemTime::now().duration_since(UNIX_EPOCH)`, zero before the
/// epoch). It reads the clock, and the contract says nothing of it.
#[verifier::external_body]
fn epoch_seconds() -> u64 {
    std::time::SystemTime::now().duration_since(std::time::UNIX_EPOCH).unwrap_or_default().as_secs()
}

/// The `HH:MM:SS` clock time (UTC) of a moment given in seconds since the
/// epoch.
pub open spec fn clock_text(secs: u64) -> Seq<char> {
    let h = (secs / 3600) % 24;
    let m = (secs / 60) % 60;
    let s = secs % 60;
    seq![
        digit_char((h / 10) as nat),
        digit_char((h % 10) as nat),
        ':',
        digit_char((m / 10) as nat),
        digit_char((m % 10) as nat),
        ':',
        digit_char((s / 10) as nat),
        digit_char((s % 10) as nat),
    ]
}

/// Format `secs` (seconds since the epoch) as `HH:MM:SS`.
pub fn format_clock(secs: u64) -> (r: String)
    ensures
        r@ == clock_text(secs),
{
    let mut r = String::new();
    push_two_digits(&mut r, (secs / 3600) % 24);
    push_char(&mut r, ':');
    push_two_digits(&mut r, (secs / 60) % 60);
    push_char(&mut r, ':');
    push_two_digits(&mut r, secs % 60);
    assert(r@ =~= clock_text(secs));
    r
}

/// The current time as `HH:MM:SS`.
pub fn chrono_or_fallback() -> (r: String)
    ensures
        exists|secs: u64| r@ == clock_text(secs),
{
    format_clock(epoch_seconds())
}

/// The log name of job `idx`: `{recipe} → {output}`, or `job {idx}` when
/// there is no such job.
pub open spec fn job_name(queue: Seq<JobView>, idx: usize) -> Seq<char> {
    if idx < queue.len() {
        queue[idx as int].recipe_name + " → "@ + queue[idx as int].output
    } else {
        "job "@ + decimal(idx as nat)
    }
}

/// The log name of job `idx` of the queue.
pub fn handle_to_job_name(queue: &Vec<ProcessingJob>, idx: usize) -> (r: String)
    ensures
        r@ == job_name(queue@.map_values(|j: ProcessingJob| j@), idx),
{
    let ghost q = queue@.map_values(|j: ProcessingJob| j@);
    let mut r = String::new();
    if idx < queue.len() {
        assert(q[idx as int] == queue@[idx as int]@);
        push_str(&mut r, queue[idx].recipe_name.as_str());
        push_str(&mut r, " → ");
        push_str(&mut r, queue[idx].output.as_str());
    } else {
        push_str(&mut r, "job ");
        push_decimal(&mut r, idx as u64);
    }
    r
}

impl App {
    /// Add a log line stamped with the current time.
    pub fn add_log(&mut self, message: String, level: LogLevel)
        ensures
            final(self)@ == logged(old(self)@, message@, level),
            final(self).log_entries@.len() == old(self).log_entries@.len() + 1,
            exists|secs: u64| final(self).log_entries@.last().timestamp_view() == clock_text(secs),
    {
        let timestamp = chrono_or_fallback();
        let ghost before = self@;
        self.log_entries.push(LogEntry { message, level, timestamp });
        assert(self@.log =~= before.log.push((message@, level)));
        assert(self@ == logged(before, message@, level));
    }
}

} // verus!
