//! What a key press does, in the order the interface looks at it: the undo
//! list, the help overlay, the edit popup (and its directory browser), the
//! global keys, the format picker, the panel that has the focus, and the
//! action keys.

use vstd::prelude::*;
use vstd::string::*;
use crate::app::{
    effect_views, focus_after, focus_before, logged, min_usize, sat_add, sat_sub, step_down,
    step_down_exec, App,
    AppModel, EditField, Effect, EffectView, Focus, Key, KeyCode, LogLevel, Mode, Modifiers,
    Probe, SortOrder, Toggles,
};
use crate::app_ops::{
    activated, add_effects, browser_entered, browser_up, comparison_toggled, cursor_selection_toggled,
    edit_opened, format_selected, help_toggled, hidden_toggled, image_preview_toggled, no_effects,
    parent_request, picker_toggled, preview_step, undo_cleared, undo_target,
};
use crate::app_run::cancel_step;
use crate::app_view::{entry_at, filtered, filtered_index, formats_for, sorted_state, visible_of};
use crate::fs_utils::{is_image, is_image_path};
use crate::text::{alphanumeric, char_is_alphanumeric, copy_str, is_ascii_alnum, pop_last, push_char};

verus! {

/// Whether the key is the character `c`.
pub open spec fn is_char(k: Key, c: char) -> bool {
    k.code == KeyCode::Char(c)
}

/// A key that moves a cursor down (`j` or Down).
pub open spec fn is_down(k: Key) -> bool {
    is_char(k, 'j') || k.code == KeyCode::Down
}

/// A key that moves a cursor up (`k` or Up).
pub open spec fn is_up(k: Key) -> bool {
    is_char(k, 'k') || k.code == KeyCode::Up
}

// ── Single changes ────────────────────────────────────────────────────

/// The undo cursor moved to `c`.
#[verifier::opaque]
pub open spec fn undo_cursor_set(m: AppModel, c: usize) -> AppModel {
    AppModel { undo_cursor: c, ..m }
}

/// The undo list closed.
#[verifier::opaque]
pub open spec fn undo_closed(m: AppModel) -> AppModel {
    AppModel { toggles: Toggles { show_undo_list: false, ..m.toggles }, ..m }
}

/// The undo list opened or closed, its cursor at the top.
#[verifier::opaque]
pub open spec fn undo_list_toggled(m: AppModel) -> AppModel {
    AppModel {
        toggles: Toggles { show_undo_list: !m.toggles.show_undo_list, ..m.toggles },
        undo_cursor: 0,
        ..m
    }
}

/// The directory browser closed.
#[verifier::opaque]
pub open spec fn browser_closed(m: AppModel) -> AppModel {
    AppModel { toggles: Toggles { show_dir_browser: false, ..m.toggles }, ..m }
}

/// The directory browser's cursor moved to `c`.
#[verifier::opaque]
pub open spec fn browser_cursor_set(m: AppModel, c: usize) -> AppModel {
    AppModel { dir_browser_cursor: c, ..m }
}

/// The browsed directory chosen as the output directory, the browser
/// closed.
#[verifier::opaque]
pub open spec fn browsed_dir_chosen(m: AppModel) -> AppModel {
    AppModel {
        edit_output_buf: m.dir_browser_path,
        toggles: Toggles { show_dir_browser: false, ..m.toggles },
        ..m
    }
}

/// The edit popup closed without applying.
#[verifier::opaque]
pub open spec fn edit_closed(m: AppModel) -> AppModel {
    AppModel { toggles: Toggles { show_edit_popup: false, ..m.toggles }, mode: Mode::Browse, ..m }
}

/// The edits applied (an empty output directory means none), the popup
/// closed, which is logged.
#[verifier::opaque]
pub open spec fn edits_applied(m: AppModel) -> AppModel {
    logged(
        AppModel {
            edit_output_dir: if m.edit_output_buf.len() == 0 {
                None
            } else {
                Some(m.edit_output_buf)
            },
            edit_extra_args: m.edit_args_buf,
            toggles: Toggles { show_edit_popup: false, ..m.toggles },
            mode: Mode::Browse,
            ..m
        },
        "Applied edit parameters"@,
        LogLevel::Info,
    )
}

/// The other edit field made active.
#[verifier::opaque]
pub open spec fn edit_field_switched(m: AppModel) -> AppModel {
    AppModel {
        edit_field: match m.edit_field {
            EditField::OutputDir => EditField::ExtraArgs,
            EditField::ExtraArgs => EditField::OutputDir,
        },
        ..m
    }
}

/// A text buffer without its last character.
pub open spec fn popped(s: Seq<char>) -> Seq<char> {
    if s.len() > 0 {
        s.drop_last()
    } else {
        s
    }
}

/// The last character of the active edit field removed.
#[verifier::opaque]
pub open spec fn edit_popped(m: AppModel) -> AppModel {
    match m.edit_field {
        EditField::OutputDir => AppModel { edit_output_buf: popped(m.edit_output_buf), ..m },
        EditField::ExtraArgs => AppModel { edit_args_buf: popped(m.edit_args_buf), ..m },
    }
}

/// A character typed into the active edit field.
#[verifier::opaque]
pub open spec fn edit_typed(m: AppModel, c: char) -> AppModel {
    match m.edit_field {
        EditField::OutputDir => AppModel { edit_output_buf: m.edit_output_buf.push(c), ..m },
        EditField::ExtraArgs => AppModel { edit_args_buf: m.edit_args_buf.push(c), ..m },
    }
}

/// The format picker closed.
#[verifier::opaque]
pub open spec fn picker_closed(m: AppModel) -> AppModel {
    AppModel { toggles: Toggles { show_format_picker: false, ..m.toggles }, ..m }
}

/// The format picker's cursor moved to `c`.
#[verifier::opaque]
pub open spec fn picker_cursor_set(m: AppModel, c: usize) -> AppModel {
    AppModel { format_picker_cursor: c, ..m }
}

/// The comparison popup closed.
#[verifier::opaque]
pub open spec fn comparison_closed(m: AppModel) -> AppModel {
    AppModel { toggles: Toggles { show_before_after: false, ..m.toggles }, ..m }
}

/// The image preview closed.
#[verifier::opaque]
pub open spec fn image_preview_closed(m: AppModel) -> AppModel {
    AppModel { toggles: Toggles { show_image_preview: false, ..m.toggles }, ..m }
}

/// The interface asked to stop.
#[verifier::opaque]
pub open spec fn quit_set(m: AppModel) -> AppModel {
    AppModel { toggles: Toggles { should_quit: true, ..m.toggles }, ..m }
}

/// The focus given to a panel.
#[verifier::opaque]
pub open spec fn focus_set(m: AppModel, f: Focus) -> AppModel {
    AppModel { focus: f, ..m }
}

/// The next sort order: name, usage, category, name.
pub open spec fn next_sort(o: SortOrder) -> SortOrder {
    match o {
        SortOrder::Name => SortOrder::Usage,
        SortOrder::Usage => SortOrder::Category,
        SortOrder::Category => SortOrder::Name,
    }
}

/// The next sort order chosen and the recipes sorted by it.
#[verifier::opaque]
pub open spec fn sort_cycled(m: AppModel) -> AppModel {
    sorted_state(AppModel { recipe_sort: next_sort(m.recipe_sort), ..m })
}

/// Dry runs switched on or off, which is logged.
#[verifier::opaque]
pub open spec fn dry_run_toggled(m: AppModel) -> AppModel {
    let on = !m.toggles.dry_run;
    logged(
        AppModel { toggles: Toggles { dry_run: on, ..m.toggles }, ..m },
        if on {
            "Dry-run mode enabled"@
        } else {
            "Dry-run mode disabled"@
        },
        LogLevel::Info,
    )
}

/// Recursive runs switched on or off, which is logged.
#[verifier::opaque]
pub open spec fn recursive_toggled(m: AppModel) -> AppModel {
    let on = !m.toggles.recursive;
    logged(
        AppModel { toggles: Toggles { recursive: on, ..m.toggles }, ..m },
        if on {
            "Recursive mode enabled \u{2014} processing subdirectories"@
        } else {
            "Recursive mode disabled"@
        },
        LogLevel::Info,
    )
}

/// The EXIF panel opened or closed.
#[verifier::opaque]
pub open spec fn exif_shown(m: AppModel, on: bool) -> AppModel {
    AppModel { toggles: Toggles { show_exif: on, ..m.toggles }, ..m }
}

/// The recipe filter dropped.
#[verifier::opaque]
pub open spec fn filter_dropped(m: AppModel) -> AppModel {
    AppModel {
        toggles: Toggles { is_filtering: false, ..m.toggles },
        recipe_filter: Seq::empty(),
        ..m
    }
}

/// Filtering ended (the filter text stays).
#[verifier::opaque]
pub open spec fn filtering_ended(m: AppModel) -> AppModel {
    AppModel { toggles: Toggles { is_filtering: false, ..m.toggles }, ..m }
}

/// A recipe filter started with a character.
#[verifier::opaque]
pub open spec fn filter_started(m: AppModel, c: char) -> AppModel {
    AppModel {
        toggles: Toggles { is_filtering: true, ..m.toggles },
        recipe_filter: m.recipe_filter.push(c),
        recipe_cursor: 0,
        ..m
    }
}

/// The last character of the filter removed; filtering ends with it.
#[verifier::opaque]
pub open spec fn filter_popped(m: AppModel) -> AppModel {
    let f = popped(m.recipe_filter);
    AppModel {
        recipe_filter: f,
        recipe_cursor: 0,
        toggles: Toggles { is_filtering: f.len() > 0, ..m.toggles },
        ..m
    }
}

/// A character added to the filter.
#[verifier::opaque]
pub open spec fn filter_typed(m: AppModel, c: char) -> AppModel {
    AppModel { recipe_filter: m.recipe_filter.push(c), recipe_cursor: 0, ..m }
}

/// The recipe cursor moved to `c`.
#[verifier::opaque]
pub open spec fn recipe_cursor_set(m: AppModel, c: usize) -> AppModel {
    AppModel { recipe_cursor: c, ..m }
}

/// The recipe at a position selected: its formats offered, the preview
/// redone.
#[verifier::opaque]
pub open spec fn recipe_chosen(m: AppModel, i: int) -> (AppModel, Seq<EffectView>) {
    let m2 = AppModel { selected_recipe_name: Some(m.recipes[i].name), ..m };
    preview_step(AppModel { available_formats: formats_for(m2), ..m2 })
}

/// The file cursor moved to `c`.
#[verifier::opaque]
pub open spec fn file_cursor_set(m: AppModel, c: usize) -> AppModel {
    AppModel { file_cursor: c, ..m }
}

// ── Key handlers ──────────────────────────────────────────────────────

/// Keys while the undo list is open: move, delete the file under the
/// cursor, clear the list, close it.
pub open spec fn undo_keys(m: AppModel, k: Key) -> (AppModel, Seq<EffectView>) {
    if is_down(k) {
        (
            undo_cursor_set(m, step_down(m.undo_cursor, m.generated_outputs.len() as usize)),
            no_effects(),
        )
    } else if is_up(k) {
        (undo_cursor_set(m, sat_sub(m.undo_cursor, 1)), no_effects())
    } else if k.code == KeyCode::Enter || is_char(k, 'd') {
        (m, undo_target(m))
    } else if is_char(k, 'c') {
        (undo_cleared(m), no_effects())
    } else if k.code == KeyCode::Esc {
        (undo_closed(m), no_effects())
    } else {
        (m, no_effects())
    }
}

/// Keys while the help overlay is open: `?` and Esc close it.
pub open spec fn help_keys(m: AppModel, k: Key) -> AppModel {
    if is_char(k, '?') || k.code == KeyCode::Esc {
        help_toggled(m)
    } else {
        m
    }
}

/// Keys in the directory browser: close, move, enter, go up, choose the
/// browsed directory (when it is one) as the output directory.
pub open spec fn browser_keys(m: AppModel, k: Key, p: Probe) -> (AppModel, Seq<EffectView>) {
    if k.code == KeyCode::Esc {
        (browser_closed(m), no_effects())
    } else if is_down(k) {
        (
            browser_cursor_set(
                m,
                step_down(m.dir_browser_cursor, m.dir_browser_listing.len() as usize),
            ),
            no_effects(),
        )
    } else if is_up(k) {
        (browser_cursor_set(m, sat_sub(m.dir_browser_cursor, 1)), no_effects())
    } else if k.code == KeyCode::Enter || k.code == KeyCode::Right {
        browser_entered(m, p)
    } else if k.code == KeyCode::Backspace || k.code == KeyCode::Left {
        browser_up(m)
    } else if (is_char(k, ' ') || is_char(k, 's')) && p.browser_path_is_dir {
        (browsed_dir_chosen(m), no_effects())
    } else {
        (m, no_effects())
    }
}

/// The edit popup's keys: close, apply, switch field, edit the active
/// field.
pub open spec fn edit_field_keys(m: AppModel, k: Key) -> AppModel {
    match k.code {
        KeyCode::Esc => edit_closed(m),
        KeyCode::Enter => edits_applied(m),
        KeyCode::Tab => edit_field_switched(m),
        KeyCode::Backspace => edit_popped(m),
        KeyCode::Char(c) => edit_typed(m, c),
        _ => m,
    }
}

/// Keys in edit mode: the directory browser's when it is open; otherwise
/// the edit popup's, after which Control-O on the output directory field
/// asks for the directory browser.
pub open spec fn edit_keys(m: AppModel, k: Key, p: Probe) -> (AppModel, Seq<EffectView>) {
    if m.toggles.show_dir_browser {
        browser_keys(m, k, p)
    } else {
        let m1 = edit_field_keys(m, k);
        if k.modifiers == Modifiers::Control && (is_char(k, 'o') || is_char(k, 'O'))
            && m1.edit_field == EditField::OutputDir {
            (m1, seq![EffectView::OpenDirBrowser])
        } else {
            (m1, no_effects())
        }
    }
}

/// Esc among the global keys: it closes the first open popup of the
/// format picker, the edit popup, the comparison and the image preview,
/// and then nothing else happens (`true`).
pub open spec fn escape_keys(m: AppModel) -> (AppModel, bool) {
    if m.toggles.show_format_picker {
        (picker_closed(m), true)
    } else if m.toggles.show_edit_popup {
        (edit_closed(m), true)
    } else if m.toggles.show_before_after {
        (comparison_closed(m), true)
    } else if m.toggles.show_image_preview {
        (image_preview_closed(m), true)
    } else {
        (m, false)
    }
}

/// The EXIF key: closes the panel, or asks for the metadata of the image
/// under the file cursor (when it is a regular file) and opens it.
pub open spec fn exif_key(m: AppModel, p: Probe) -> (AppModel, Seq<EffectView>) {
    if m.toggles.show_exif {
        (exif_shown(m, false), no_effects())
    } else {
        match entry_at(m, m.file_cursor) {
            Some(f) => if p.cursor_is_file && is_image_path(f) {
                (exif_shown(m, true), seq![EffectView::LoadExif(f)])
            } else {
                (m, no_effects())
            },
            None => (m, no_effects()),
        }
    }
}

/// Whether no popup keeps the comparison and image preview keys from
/// working.
pub open spec fn popups_closed(m: AppModel) -> bool {
    m.mode == Mode::Browse && !m.toggles.show_format_picker && !m.toggles.show_edit_popup
        && !m.toggles.show_undo_list
}

/// The panel a focus key gives, if it is one: Tab and BackTab cycle,
/// `1` to `4` choose.
pub open spec fn focus_for(m: AppModel, k: Key) -> Option<Focus> {
    if k.code == KeyCode::Tab {
        Some(focus_after(m.focus))
    } else if k.code == KeyCode::BackTab {
        Some(focus_before(m.focus))
    } else if is_char(k, '1') {
        Some(Focus::Recipe)
    } else if is_char(k, '2') {
        Some(Focus::File)
    } else if is_char(k, '3') {
        Some(Focus::Command)
    } else if is_char(k, '4') {
        Some(Focus::Log)
    } else {
        None
    }
}

/// Whether the key quits: `q` or Control-`q`, while browsing only.
pub open spec fn quits(m: AppModel, k: Key) -> bool {
    is_char(k, 'q') && m.mode == Mode::Browse && (k.modifiers == Modifiers::Plain || k.modifiers
        == Modifiers::Control)
}

/// The global keys; the flag says that nothing else happens after them.
pub open spec fn global_keys(m: AppModel, k: Key, p: Probe) -> (AppModel, Seq<EffectView>, bool) {
    if quits(m, k) {
        (quit_set(m), no_effects(), false)
    } else if is_char(k, '?') {
        (help_toggled(m), no_effects(), false)
    } else if k.code == KeyCode::Esc {
        (escape_keys(m).0, no_effects(), escape_keys(m).1)
    } else if focus_for(m, k) is Some {
        (focus_set(m, focus_for(m, k)->0), no_effects(), false)
    } else {
        other_global_keys(m, k, p)
    }
}

/// The global keys other than quitting, help, Esc and the focus keys.
pub open spec fn other_global_keys(m: AppModel, k: Key, p: Probe) -> (AppModel, Seq<EffectView>, bool) {
    if is_char(k, 's') {
        (sort_cycled(m), no_effects(), false)
    } else if is_char(k, 'n') {
        (dry_run_toggled(m), no_effects(), false)
    } else if is_char(k, 'R') {
        (recursive_toggled(m), no_effects(), false)
    } else if is_char(k, 'x') {
        (exif_key(m, p).0, exif_key(m, p).1, false)
    } else if is_char(k, 'u') {
        (undo_list_toggled(m), no_effects(), false)
    } else if is_char(k, 'b') && popups_closed(m) {
        (comparison_toggled(m, p).0, comparison_toggled(m, p).1, true)
    } else if is_char(k, 'p') && popups_closed(m) {
        (image_preview_toggled(m, p).0, image_preview_toggled(m, p).1, true)
    } else {
        (m, no_effects(), false)
    }
}

/// Keys while the format picker is open: move, choose, close.
pub open spec fn picker_keys(m: AppModel, k: Key) -> (AppModel, Seq<EffectView>) {
    if is_down(k) {
        (
            picker_cursor_set(
                m,
                step_down(m.format_picker_cursor, m.available_formats.len() as usize),
            ),
            no_effects(),
        )
    } else if is_up(k) {
        (picker_cursor_set(m, sat_sub(m.format_picker_cursor, 1)), no_effects())
    } else if k.code == KeyCode::Enter {
        format_selected(m, m.available_formats[m.format_picker_cursor as int])
    } else if k.code == KeyCode::Esc {
        (picker_closed(m), no_effects())
    } else {
        (m, no_effects())
    }
}

/// Whether a character starts a recipe filter.
pub open spec fn starts_filter(c: char) -> bool {
    alphanumeric(c) || c == '/' || c == '-' || c == ' ' || c == '.'
}

/// Whether a typed character starts a recipe filter: a letter or digit
/// (any script), `/`, `-`, a space or `.`; among ASCII characters, the
/// ASCII letters and digits and those four.
pub fn starts_recipe_filter(c: char) -> (r: bool)
    ensures
        r == starts_filter(c),
        c <= '\x7f' ==> r == (is_ascii_alnum(c) || c == '/' || c == '-' || c == ' ' || c == '.'),
{
    char_is_alphanumeric(c) || c == '/' || c == '-' || c == ' ' || c == '.'
}

/// Whether a key moves the recipe cursor when no filter is being typed:
/// `j`/Down, `k`/Up, `g`, `G`, Control-`u` and Control-`d`. These keys do
/// not start a filter.
pub open spec fn moves_recipe_cursor(k: Key) -> bool {
    is_down(k) || is_up(k) || is_char(k, 'g') || is_char(k, 'G') || (k.modifiers
        == Modifiers::Control && (is_char(k, 'u') || is_char(k, 'd')))
}

fn recipe_move_key(k: Key) -> (r: bool)
    ensures
        r == moves_recipe_cursor(k),
{
    down_key(k) || up_key(k) || k.code == KeyCode::Char('g') || k.code == KeyCode::Char('G') || (
    k.modifiers == Modifiers::Control && (k.code == KeyCode::Char('u') || k.code == KeyCode::Char(
        'd',
    )))
}

/// Recipe-list moves when not filtering.
pub open spec fn recipe_moves(m: AppModel, k: Key) -> (AppModel, Seq<EffectView>) {
    let max_idx = sat_sub(filtered(m).len() as usize, 1);
    if is_down(k) {
        (recipe_cursor_set(m, min_usize(sat_add(m.recipe_cursor, 1), max_idx)), no_effects())
    } else if is_up(k) {
        (recipe_cursor_set(m, sat_sub(m.recipe_cursor, 1)), no_effects())
    } else if k.code == KeyCode::Enter && m.recipes.len() > 0 {
        match filtered_index(m, m.recipe_cursor) {
            Some(i) => recipe_chosen(m, i as int),
            None => (m, no_effects()),
        }
    } else if k.code == KeyCode::Enter {
        (m, no_effects())
    } else if is_char(k, 'g') {
        (recipe_cursor_set(m, 0), no_effects())
    } else if is_char(k, 'G') {
        (recipe_cursor_set(m, max_idx), no_effects())
    } else if (k.code == KeyCode::PageUp || is_char(k, 'u')) && k.modifiers == Modifiers::Control {
        (recipe_cursor_set(m, sat_sub(m.recipe_cursor, 10)), no_effects())
    } else if (k.code == KeyCode::PageDown || is_char(k, 'd')) && k.modifiers == Modifiers::Control {
        (recipe_cursor_set(m, min_usize(sat_add(m.recipe_cursor, 10), max_idx)), no_effects())
    } else {
        (m, no_effects())
    }
}

/// Enter on a non-empty filter: the first matching recipe is selected,
/// and filtering ends.
pub open spec fn filter_applied(m: AppModel) -> (AppModel, Seq<EffectView>) {
    let f = filtered(m);
    if f.len() > 0 {
        let (m2, e) = recipe_chosen(m, f[0] as int);
        (filtering_ended(m2), e)
    } else {
        (filtering_ended(m), no_effects())
    }
}

/// Keys of the recipe panel: the filter (typed, edited, applied,
/// dropped), then the moves; a move key never starts a filter.
pub open spec fn recipe_keys(m: AppModel, k: Key) -> (AppModel, Seq<EffectView>) {
    let filtering = m.toggles.is_filtering;
    match k.code {
        KeyCode::Esc => if filtering {
            (filter_dropped(m), no_effects())
        } else {
            (m, no_effects())
        },
        KeyCode::Enter if filtering && m.recipe_filter.len() > 0 => filter_applied(m),
        KeyCode::Char(c) if !filtering && !moves_recipe_cursor(k) && starts_filter(c) => (
            filter_started(m, c),
            no_effects(),
        ),
        KeyCode::Backspace if filtering => (filter_popped(m), no_effects()),
        KeyCode::Char(c) if filtering => (filter_typed(m, c), no_effects()),
        _ => if !filtering {
            recipe_moves(m, k)
        } else {
            (m, no_effects())
        },
    }
}

/// Keys of the file panel: move (redoing the preview), activate, go up,
/// select, show or hide hidden files.
pub open spec fn file_keys(m: AppModel, k: Key, p: Probe) -> (AppModel, Seq<EffectView>) {
    if is_down(k) {
        preview_step(file_cursor_set(m, step_down(m.file_cursor, visible_of(m).len() as usize)))
    } else if is_up(k) {
        preview_step(file_cursor_set(m, sat_sub(m.file_cursor, 1)))
    } else if k.code == KeyCode::Enter || k.code == KeyCode::Right || is_char(k, 'l') {
        activated(m, p)
    } else if k.code == KeyCode::Left || is_char(k, 'h') {
        (m, parent_request(m))
    } else if is_char(k, ' ') {
        (cursor_selection_toggled(m), no_effects())
    } else if is_char(k, '.') {
        (hidden_toggled(m), no_effects())
    } else {
        (m, no_effects())
    }
}

/// Keys of the panel that has the focus (the command and log panels take
/// none).
pub open spec fn focus_keys(m: AppModel, k: Key, p: Probe) -> (AppModel, Seq<EffectView>) {
    match m.focus {
        Focus::Recipe => recipe_keys(m, k),
        Focus::File => file_keys(m, k, p),
        _ => (m, no_effects()),
    }
}

/// The action keys, whatever the focus: the format picker, running the
/// selected recipe, cancelling, the edit popup, exporting the built-in
/// recipes.
pub open spec fn action_keys(m: AppModel, k: Key) -> (AppModel, Seq<EffectView>) {
    if is_char(k, 'f') {
        (picker_toggled(m), no_effects())
    } else if is_char(k, 'r') && m.selected_recipe_name is Some {
        (m, seq![EffectView::StartRun])
    } else if is_char(k, 'c') {
        cancel_step(m)
    } else if is_char(k, 'e') {
        (edit_opened(m), no_effects())
    } else if is_char(k, 'E') {
        (m, seq![EffectView::ExportBuiltins])
    } else {
        (m, no_effects())
    }
}

/// The panel and action keys, after the global keys.
pub open spec fn panel_keys(m: AppModel, k: Key, p: Probe) -> (AppModel, Seq<EffectView>) {
    let (m2, e2) = focus_keys(m, k, p);
    let (m3, e3) = action_keys(m2, k);
    (m3, e2 + e3)
}

/// What follows the global keys: the format picker's keys when it is
/// open, only Esc when the edit popup is, otherwise the panel and action
/// keys.
pub open spec fn after_global(m: AppModel, k: Key, p: Probe) -> (AppModel, Seq<EffectView>) {
    if m.toggles.show_format_picker {
        picker_keys(m, k)
    } else if m.toggles.show_edit_popup {
        if k.code == KeyCode::Esc {
            (edit_closed(m), no_effects())
        } else {
            (m, no_effects())
        }
    } else {
        panel_keys(m, k, p)
    }
}

/// Keys outside the undo list, help and edit mode: the global keys, then
/// unless they end the handling, what follows them.
pub open spec fn browse_keys(m: AppModel, k: Key, p: Probe) -> (AppModel, Seq<EffectView>) {
    let (m1, e1, stop) = global_keys(m, k, p);
    if stop {
        (m1, e1)
    } else {
        let (m2, e2) = after_global(m1, k, p);
        (m2, e1 + e2)
    }
}

/// What a key press does to the state, and what it asks the application
/// to do, in order.
pub open spec fn key_step(m: AppModel, k: Key, p: Probe) -> (AppModel, Seq<EffectView>) {
    if m.toggles.show_undo_list {
        undo_keys(m, k)
    } else if m.mode == Mode::Help {
        (help_keys(m, k), no_effects())
    } else if m.mode == Mode::Edit {
        edit_keys(m, k, p)
    } else {
        browse_keys(m, k, p)
    }
}

/// What a key press needs to be handled: choosing a format with Enter in
/// the format picker needs its cursor on a format.
pub open spec fn key_ok(m: AppModel, k: Key) -> bool {
    (!m.toggles.show_undo_list && m.mode != Mode::Help && m.mode != Mode::Edit
        && m.toggles.show_format_picker && k.code == KeyCode::Enter)
        ==> m.format_picker_cursor < m.available_formats.len()
}

// ── Handling a key ────────────────────────────────────────────────────

/// No effects, as a vector.
fn nothing() -> (r: Vec<Effect>)
    ensures
        effect_views(r@) == no_effects(),
{
    let r: Vec<Effect> = Vec::new();
    assert(effect_views(r@) =~= no_effects());
    r
}

/// One effect, as a vector.
fn just(e: Effect) -> (r: Vec<Effect>)
    ensures
        effect_views(r@) == seq![e@],
{
    let mut r: Vec<Effect> = Vec::new();
    r.push(e);
    assert(effect_views(r@) =~= seq![e@]);
    r
}

/// Concatenates two effect lists.
fn both(a: Vec<Effect>, b: Vec<Effect>) -> (r: Vec<Effect>)
    ensures
        effect_views(r@) == effect_views(a@) + effect_views(b@),
{
    let mut a = a;
    add_effects(&mut a, b);
    a
}

fn down_key(k: Key) -> (r: bool)
    ensures
        r == is_down(k),
{
    k.code == KeyCode::Char('j') || k.code == KeyCode::Down
}

fn up_key(k: Key) -> (r: bool)
    ensures
        r == is_up(k),
{
    k.code == KeyCode::Char('k') || k.code == KeyCode::Up
}

impl App {
    fn set_undo_cursor(&mut self, c: usize)
        ensures
            final(self)@ == undo_cursor_set(old(self)@, c),
    {
        proof {
            reveal(undo_cursor_set);
        }
        self.undo_cursor = c;
    }

    fn close_undo_list(&mut self)
        ensures
            final(self)@ == undo_closed(old(self)@),
    {
        proof {
            reveal(undo_closed);
        }
        self.toggles = Toggles { show_undo_list: false, ..self.toggles };
    }

    fn toggle_undo_list(&mut self)
        ensures
            final(self)@ == undo_list_toggled(old(self)@),
    {
        proof {
            reveal(undo_list_toggled);
        }
        self.toggles = Toggles { show_undo_list: !self.toggles.show_undo_list, ..self.toggles };
        self.undo_cursor = 0;
    }

    fn close_dir_browser(&mut self)
        ensures
            final(self)@ == browser_closed(old(self)@),
    {
        proof {
            reveal(browser_closed);
        }
        self.toggles = Toggles { show_dir_browser: false, ..self.toggles };
    }

    fn set_browser_cursor(&mut self, c: usize)
        ensures
            final(self)@ == browser_cursor_set(old(self)@, c),
    {
        proof {
            reveal(browser_cursor_set);
        }
        self.dir_browser_cursor = c;
    }

    fn choose_browsed_dir(&mut self)
        ensures
            final(self)@ == browsed_dir_chosen(old(self)@),
    {
        proof {
            reveal(browsed_dir_chosen);
        }
        let p = self.dir_browser_path.clone();
        self.edit_output_buf = p;
        self.toggles = Toggles { show_dir_browser: false, ..self.toggles };
    }

    fn close_edit(&mut self)
        ensures
            final(self)@ == edit_closed(old(self)@),
    {
        proof {
            reveal(edit_closed);
        }
        self.toggles = Toggles { show_edit_popup: false, ..self.toggles };
        self.mode = Mode::Browse;
    }

    fn take_edits(&mut self)
        ensures
            final(self)@ == (AppModel {
                edit_output_dir: if old(self)@.edit_output_buf.len() == 0 {
                    None
                } else {
                    Some(old(self)@.edit_output_buf)
                },
                edit_extra_args: old(self)@.edit_args_buf,
                toggles: Toggles { show_edit_popup: false, ..old(self)@.toggles },
                mode: Mode::Browse,
                ..old(self)@
            }),
    {
        let dir = if self.edit_output_buf.unicode_len() == 0 {
            None
        } else {
            Some(self.edit_output_buf.clone())
        };
        let args = self.edit_args_buf.clone();
        self.edit_output_dir = dir;
        self.edit_extra_args = args;
        self.toggles = Toggles { show_edit_popup: false, ..self.toggles };
        self.mode = Mode::Browse;
    }

    fn apply_edits(&mut self)
        ensures
            final(self)@ == edits_applied(old(self)@),
    {
        proof {
            reveal(edits_applied);
        }
        self.take_edits();
        self.add_log(copy_str("Applied edit parameters"), LogLevel::Info);
    }

    fn switch_edit_field(&mut self)
        ensures
            final(self)@ == edit_field_switched(old(self)@),
    {
        proof {
            reveal(edit_field_switched);
        }
        self.edit_field = match self.edit_field {
            EditField::OutputDir => EditField::ExtraArgs,
            EditField::ExtraArgs => EditField::OutputDir,
        };
    }

    fn pop_edit_output(&mut self)
        ensures
            final(self)@ == (AppModel { edit_output_buf: popped(old(self)@.edit_output_buf), ..old(self)@ }),
    {
        pop_last(&mut self.edit_output_buf);
    }

    fn pop_edit_args(&mut self)
        ensures
            final(self)@ == (AppModel { edit_args_buf: popped(old(self)@.edit_args_buf), ..old(self)@ }),
    {
        pop_last(&mut self.edit_args_buf);
    }

    fn pop_edit(&mut self)
        ensures
            final(self)@ == edit_popped(old(self)@),
    {
        proof {
            reveal(edit_popped);
        }
        match self.edit_field {
            EditField::OutputDir => self.pop_edit_output(),
            EditField::ExtraArgs => self.pop_edit_args(),
        }
    }

    fn type_edit_output(&mut self, c: char)
        ensures
            final(self)@ == (AppModel { edit_output_buf: old(self)@.edit_output_buf.push(c), ..old(self)@ }),
    {
        push_char(&mut self.edit_output_buf, c);
    }

    fn type_edit_args(&mut self, c: char)
        ensures
            final(self)@ == (AppModel { edit_args_buf: old(self)@.edit_args_buf.push(c), ..old(self)@ }),
    {
        push_char(&mut self.edit_args_buf, c);
    }

    fn type_edit(&mut self, c: char)
        ensures
            final(self)@ == edit_typed(old(self)@, c),
    {
        proof {
            reveal(edit_typed);
        }
        match self.edit_field {
            EditField::OutputDir => self.type_edit_output(c),
            EditField::ExtraArgs => self.type_edit_args(c),
        }
    }

    fn close_picker(&mut self)
        ensures
            final(self)@ == picker_closed(old(self)@),
    {
        proof {
            reveal(picker_closed);
        }
        self.toggles = Toggles { show_format_picker: false, ..self.toggles };
    }

    fn set_picker_cursor(&mut self, c: usize)
        ensures
            final(self)@ == picker_cursor_set(old(self)@, c),
    {
        proof {
            reveal(picker_cursor_set);
        }
        self.format_picker_cursor = c;
    }

    fn close_comparison(&mut self)
        ensures
            final(self)@ == comparison_closed(old(self)@),
    {
        proof {
            reveal(comparison_closed);
        }
        self.toggles = Toggles { show_before_after: false, ..self.toggles };
    }

    fn close_image_preview(&mut self)
        ensures
            final(self)@ == image_preview_closed(old(self)@),
    {
        proof {
            reveal(image_preview_closed);
        }
        self.toggles = Toggles { show_image_preview: false, ..self.toggles };
    }

    fn quit(&mut self)
        ensures
            final(self)@ == quit_set(old(self)@),
    {
        proof {
            reveal(quit_set);
        }
        self.toggles = Toggles { should_quit: true, ..self.toggles };
    }

    fn set_focus(&mut self, f: Focus)
        ensures
            final(self)@ == focus_set(old(self)@, f),
    {
        proof {
            reveal(focus_set);
        }
        self.focus = f;
    }

    fn set_sort_order(&mut self, o: SortOrder)
        ensures
            final(self)@ == (AppModel { recipe_sort: o, ..old(self)@ }),
    {
        self.recipe_sort = o;
    }

    fn cycle_sort(&mut self)
        ensures
            final(self)@ == sort_cycled(old(self)@),
    {
        proof {
            reveal(sort_cycled);
        }
        let o = match self.recipe_sort {
            SortOrder::Name => SortOrder::Usage,
            SortOrder::Usage => SortOrder::Category,
            SortOrder::Category => SortOrder::Name,
        };
        self.set_sort_order(o);
        self.sort_recipes();
    }

    fn set_dry_run(&mut self, on: bool)
        ensures
            final(self)@ == (AppModel { toggles: Toggles { dry_run: on, ..old(self)@.toggles }, ..old(self)@ }),
    {
        self.toggles = Toggles { dry_run: on, ..self.toggles };
    }

    fn toggle_dry_run(&mut self)
        ensures
            final(self)@ == dry_run_toggled(old(self)@),
    {
        proof {
            reveal(dry_run_toggled);
        }
        let on = !self.toggles.dry_run;
        self.set_dry_run(on);
        let msg = if on {
            copy_str("Dry-run mode enabled")
        } else {
            copy_str("Dry-run mode disabled")
        };
        self.add_log(msg, LogLevel::Info);
    }

    fn set_recursive(&mut self, on: bool)
        ensures
            final(self)@ == (AppModel { toggles: Toggles { recursive: on, ..old(self)@.toggles }, ..old(self)@ }),
    {
        self.toggles = Toggles { recursive: on, ..self.toggles };
    }

    fn toggle_recursive(&mut self)
        ensures
            final(self)@ == recursive_toggled(old(self)@),
    {
        proof {
            reveal(recursive_toggled);
        }
        let on = !self.toggles.recursive;
        self.set_recursive(on);
        let msg = if on {
            copy_str("Recursive mode enabled \u{2014} processing subdirectories")
        } else {
            copy_str("Recursive mode disabled")
        };
        self.add_log(msg, LogLevel::Info);
    }

    fn show_exif(&mut self, on: bool)
        ensures
            final(self)@ == exif_shown(old(self)@, on),
    {
        proof {
            reveal(exif_shown);
        }
        self.toggles = Toggles { show_exif: on, ..self.toggles };
    }

    fn drop_filter(&mut self)
        ensures
            final(self)@ == filter_dropped(old(self)@),
    {
        proof {
            reveal(filter_dropped);
        }
        self.toggles = Toggles { is_filtering: false, ..self.toggles };
        self.recipe_filter = String::new();
    }

    fn end_filtering(&mut self)
        ensures
            final(self)@ == filtering_ended(old(self)@),
    {
        proof {
            reveal(filtering_ended);
        }
        self.toggles = Toggles { is_filtering: false, ..self.toggles };
    }

    fn start_filter(&mut self, c: char)
        ensures
            final(self)@ == filter_started(old(self)@, c),
    {
        proof {
            reveal(filter_started);
        }
        self.toggles = Toggles { is_filtering: true, ..self.toggles };
        push_char(&mut self.recipe_filter, c);
        self.recipe_cursor = 0;
    }

    fn pop_filter(&mut self)
        ensures
            final(self)@ == filter_popped(old(self)@),
    {
        proof {
            reveal(filter_popped);
        }
        pop_last(&mut self.recipe_filter);
        self.recipe_cursor = 0;
        let on = self.recipe_filter.unicode_len() > 0;
        self.toggles = Toggles { is_filtering: on, ..self.toggles };
    }

    fn type_filter(&mut self, c: char)
        ensures
            final(self)@ == filter_typed(old(self)@, c),
    {
        proof {
            reveal(filter_typed);
        }
        push_char(&mut self.recipe_filter, c);
        self.recipe_cursor = 0;
    }

    fn set_recipe_cursor(&mut self, c: usize)
        ensures
            final(self)@ == recipe_cursor_set(old(self)@, c),
    {
        proof {
            reveal(recipe_cursor_set);
        }
        self.recipe_cursor = c;
    }

    fn set_file_cursor(&mut self, c: usize)
        ensures
            final(self)@ == file_cursor_set(old(self)@, c),
    {
        proof {
            reveal(file_cursor_set);
        }
        self.file_cursor = c;
    }

    fn select_recipe_name(&mut self, name: String)
        ensures
            final(self)@ == (AppModel { selected_recipe_name: Some(name@), ..old(self)@ }),
    {
        self.selected_recipe_name = Some(name);
    }

    fn choose_recipe(&mut self, i: usize) -> (r: Vec<Effect>)
        requires
            i < old(self).recipes@.len(),
        ensures
            final(self)@ == recipe_chosen(old(self)@, i as int).0,
            effect_views(r@) == recipe_chosen(old(self)@, i as int).1,
    {
        proof {
            reveal(recipe_chosen);
        }
        assert(self@.recipes[i as int] == self.recipes@[i as int]@);
        let name = self.recipes[i].name.clone();
        self.select_recipe_name(name);
        self.update_available_formats();
        self.generate_preview()
    }
}

impl App {
    fn undo_key(&mut self, k: Key) -> (r: Vec<Effect>)
        ensures
            final(self)@ == undo_keys(old(self)@, k).0,
            effect_views(r@) == undo_keys(old(self)@, k).1,
    {
        if down_key(k) {
            let c = step_down_exec(self.undo_cursor, self.generated_outputs.len());
            self.set_undo_cursor(c);
            nothing()
        } else if up_key(k) {
            let c = self.undo_cursor.saturating_sub(1);
            self.set_undo_cursor(c);
            nothing()
        } else if k.code == KeyCode::Enter || k.code == KeyCode::Char('d') {
            self.undo_delete_request()
        } else if k.code == KeyCode::Char('c') {
            self.clear_undo_list();
            nothing()
        } else if k.code == KeyCode::Esc {
            self.close_undo_list();
            nothing()
        } else {
            nothing()
        }
    }

    fn help_key(&mut self, k: Key)
        ensures
            final(self)@ == help_keys(old(self)@, k),
    {
        if k.code == KeyCode::Char('?') || k.code == KeyCode::Esc {
            self.toggle_help();
        }
    }

    fn browser_key(&mut self, k: Key, p: Probe) -> (r: Vec<Effect>)
        ensures
            final(self)@ == browser_keys(old(self)@, k, p).0,
            effect_views(r@) == browser_keys(old(self)@, k, p).1,
    {
        if k.code == KeyCode::Esc {
            self.close_dir_browser();
            nothing()
        } else if down_key(k) {
            let c = step_down_exec(self.dir_browser_cursor, self.dir_browser_listing.len());
            self.set_browser_cursor(c);
            nothing()
        } else if up_key(k) {
            let c = self.dir_browser_cursor.saturating_sub(1);
            self.set_browser_cursor(c);
            nothing()
        } else if k.code == KeyCode::Enter || k.code == KeyCode::Right {
            self.enter_dir_browser_subdir(p)
        } else if k.code == KeyCode::Backspace || k.code == KeyCode::Left {
            self.dir_browser_up()
        } else if (k.code == KeyCode::Char(' ') || k.code == KeyCode::Char('s')) && p.browser_path_is_dir {
            self.choose_browsed_dir();
            nothing()
        } else {
            nothing()
        }
    }

    fn edit_field_key(&mut self, k: Key)
        ensures
            final(self)@ == edit_field_keys(old(self)@, k),
    {
        match k.code {
            KeyCode::Esc => self.close_edit(),
            KeyCode::Enter => self.apply_edits(),
            KeyCode::Tab => self.switch_edit_field(),
            KeyCode::Backspace => self.pop_edit(),
            KeyCode::Char(c) => self.type_edit(c),
            _ => {},
        }
    }

    fn edit_key(&mut self, k: Key, p: Probe) -> (r: Vec<Effect>)
        ensures
            final(self)@ == edit_keys(old(self)@, k, p).0,
            effect_views(r@) == edit_keys(old(self)@, k, p).1,
    {
        if self.toggles.show_dir_browser {
            return self.browser_key(k, p);
        }
        self.edit_field_key(k);
        if k.modifiers == Modifiers::Control && (k.code == KeyCode::Char('o') || k.code
            == KeyCode::Char('O')) && self.edit_field == EditField::OutputDir {
            just(Effect::OpenDirBrowser)
        } else {
            nothing()
        }
    }

    fn escape_key(&mut self) -> (stop: bool)
        ensures
            final(self)@ == escape_keys(old(self)@).0,
            stop == escape_keys(old(self)@).1,
    {
        if self.toggles.show_format_picker {
            self.close_picker();
            true
        } else if self.toggles.show_edit_popup {
            self.close_edit();
            true
        } else if self.toggles.show_before_after {
            self.close_comparison();
            true
        } else if self.toggles.show_image_preview {
            self.close_image_preview();
            true
        } else {
            false
        }
    }

    fn exif_toggle(&mut self, p: Probe) -> (r: Vec<Effect>)
        ensures
            final(self)@ == exif_key(old(self)@, p).0,
            effect_views(r@) == exif_key(old(self)@, p).1,
    {
        if self.toggles.show_exif {
            self.show_exif(false);
            return nothing();
        }
        match self.cursor_file() {
            Some(f) => {
                if p.cursor_is_file && is_image(f.as_str()) {
                    self.show_exif(true);
                    just(Effect::LoadExif(f))
                } else {
                    nothing()
                }
            },
            None => nothing(),
        }
    }

    fn focus_key(&self, k: Key) -> (r: Option<Focus>)
        ensures
            r == focus_for(self@, k),
    {
        if k.code == KeyCode::Tab {
            Some(self.focus.next())
        } else if k.code == KeyCode::BackTab {
            Some(
                match self.focus {
                    Focus::Recipe => Focus::Log,
                    Focus::File => Focus::Recipe,
                    Focus::Command => Focus::File,
                    Focus::Log => Focus::Command,
                },
            )
        } else if k.code == KeyCode::Char('1') {
            Some(Focus::Recipe)
        } else if k.code == KeyCode::Char('2') {
            Some(Focus::File)
        } else if k.code == KeyCode::Char('3') {
            Some(Focus::Command)
        } else if k.code == KeyCode::Char('4') {
            Some(Focus::Log)
        } else {
            None
        }
    }

    fn popups_are_closed(&self) -> (r: bool)
        ensures
            r == popups_closed(self@),
    {
        self.mode == Mode::Browse && !self.toggles.show_format_picker && !self.toggles.show_edit_popup
            && !self.toggles.show_undo_list
    }

    fn global_key(&mut self, k: Key, p: Probe) -> (r: (Vec<Effect>, bool))
        ensures
            final(self)@ == global_keys(old(self)@, k, p).0,
            effect_views(r.0@) == global_keys(old(self)@, k, p).1,
            r.1 == global_keys(old(self)@, k, p).2,
    {
        let quit = k.code == KeyCode::Char('q') && self.mode == Mode::Browse && (k.modifiers
            == Modifiers::Plain || k.modifiers == Modifiers::Control);
        if quit {
            self.quit();
            return (nothing(), false);
        }
        if k.code == KeyCode::Char('?') {
            self.toggle_help();
            return (nothing(), false);
        }
        if k.code == KeyCode::Esc {
            let stop = self.escape_key();
            return (nothing(), stop);
        }
        match self.focus_key(k) {
            Some(f) => {
                self.set_focus(f);
                (nothing(), false)
            },
            None => self.other_global_key(k, p),
        }
    }

    fn other_global_key(&mut self, k: Key, p: Probe) -> (r: (Vec<Effect>, bool))
        ensures
            final(self)@ == other_global_keys(old(self)@, k, p).0,
            effect_views(r.0@) == other_global_keys(old(self)@, k, p).1,
            r.1 == other_global_keys(old(self)@, k, p).2,
    {
        if k.code == KeyCode::Char('s') {
            self.cycle_sort();
            (nothing(), false)
        } else if k.code == KeyCode::Char('n') {
            self.toggle_dry_run();
            (nothing(), false)
        } else if k.code == KeyCode::Char('R') {
            self.toggle_recursive();
            (nothing(), false)
        } else if k.code == KeyCode::Char('x') {
            (self.exif_toggle(p), false)
        } else if k.code == KeyCode::Char('u') {
            self.toggle_undo_list();
            (nothing(), false)
        } else if k.code == KeyCode::Char('b') && self.popups_are_closed() {
            (self.toggle_before_after(p), true)
        } else if k.code == KeyCode::Char('p') && self.popups_are_closed() {
            (self.toggle_image_preview(p), true)
        } else {
            (nothing(), false)
        }
    }

    fn picker_key(&mut self, k: Key) -> (r: Vec<Effect>)
        requires
            k.code == KeyCode::Enter ==> old(self).format_picker_cursor < old(self).available_formats@.len(),
        ensures
            final(self)@ == picker_keys(old(self)@, k).0,
            effect_views(r@) == picker_keys(old(self)@, k).1,
    {
        if down_key(k) {
            let c = step_down_exec(self.format_picker_cursor, self.available_formats.len());
            self.set_picker_cursor(c);
            nothing()
        } else if up_key(k) {
            let c = self.format_picker_cursor.saturating_sub(1);
            self.set_picker_cursor(c);
            nothing()
        } else if k.code == KeyCode::Enter {
            let f = self.available_formats[self.format_picker_cursor].clone();
            assert(f@ == self@.available_formats[self.format_picker_cursor as int]);
            self.select_format(f)
        } else if k.code == KeyCode::Esc {
            self.close_picker();
            nothing()
        } else {
            nothing()
        }
    }

    fn recipe_move(&mut self, k: Key) -> (r: Vec<Effect>)
        ensures
            final(self)@ == recipe_moves(old(self)@, k).0,
            effect_views(r@) == recipe_moves(old(self)@, k).1,
    {
        let count = self.filtered_recipes().len();
        let max_idx = count.saturating_sub(1);
        if down_key(k) {
            let c = clamp_to(self.recipe_cursor.saturating_add(1), max_idx);
            self.set_recipe_cursor(c);
            nothing()
        } else if up_key(k) {
            let c = self.recipe_cursor.saturating_sub(1);
            self.set_recipe_cursor(c);
            nothing()
        } else if k.code == KeyCode::Enter && self.recipes.len() > 0 {
            match self.filtered_recipe_index(self.recipe_cursor) {
                Some(i) => {
                    proof {
                        assert(self@.recipes.len() == self.recipes@.len());
                        crate::app_view::lemma_filtered_bounds(self@);
                    }
                    self.choose_recipe(i)
                },
                None => nothing(),
            }
        } else if k.code == KeyCode::Enter {
            nothing()
        } else if k.code == KeyCode::Char('g') {
            self.set_recipe_cursor(0);
            nothing()
        } else if k.code == KeyCode::Char('G') {
            self.set_recipe_cursor(max_idx);
            nothing()
        } else if (k.code == KeyCode::PageUp || k.code == KeyCode::Char('u')) && k.modifiers
            == Modifiers::Control {
            let c = self.recipe_cursor.saturating_sub(10);
            self.set_recipe_cursor(c);
            nothing()
        } else if (k.code == KeyCode::PageDown || k.code == KeyCode::Char('d')) && k.modifiers
            == Modifiers::Control {
            let c = clamp_to(self.recipe_cursor.saturating_add(10), max_idx);
            self.set_recipe_cursor(c);
            nothing()
        } else {
            nothing()
        }
    }

    fn apply_filter(&mut self) -> (r: Vec<Effect>)
        ensures
            final(self)@ == filter_applied(old(self)@).0,
            effect_views(r@) == filter_applied(old(self)@).1,
    {
        let f = self.filtered_recipes();
        let n = self.recipes.len();
        if f.len() > 0 {
            proof {
                assert(self@.recipes.len() == n);
                crate::app_view::lemma_filtered_bounds(self@);
            }
            let e = self.choose_recipe(f[0]);
            self.end_filtering();
            e
        } else {
            self.end_filtering();
            nothing()
        }
    }

    fn recipe_key(&mut self, k: Key) -> (r: Vec<Effect>)
        ensures
            final(self)@ == recipe_keys(old(self)@, k).0,
            effect_views(r@) == recipe_keys(old(self)@, k).1,
    {
        let filtering = self.toggles.is_filtering;
        match k.code {
            KeyCode::Esc => {
                if filtering {
                    self.drop_filter();
                }
                nothing()
            },
            KeyCode::Enter if filtering && self.recipe_filter.unicode_len() > 0 => self.apply_filter(),
            KeyCode::Char(c) if !filtering && !recipe_move_key(k) && starts_recipe_filter(c) => {
                self.start_filter(c);
                nothing()
            },
            KeyCode::Backspace if filtering => {
                self.pop_filter();
                nothing()
            },
            KeyCode::Char(c) if filtering => {
                self.type_filter(c);
                nothing()
            },
            _ => {
                if !filtering {
                    self.recipe_move(k)
                } else {
                    nothing()
                }
            },
        }
    }

    fn file_key(&mut self, k: Key, p: Probe) -> (r: Vec<Effect>)
        ensures
            final(self)@ == file_keys(old(self)@, k, p).0,
            effect_views(r@) == file_keys(old(self)@, k, p).1,
    {
        if down_key(k) {
            let c = step_down_exec(self.file_cursor, self.file_visible_count());
            self.set_file_cursor(c);
            self.generate_preview()
        } else if up_key(k) {
            let c = self.file_cursor.saturating_sub(1);
            self.set_file_cursor(c);
            self.generate_preview()
        } else if k.code == KeyCode::Enter || k.code == KeyCode::Right || k.code == KeyCode::Char('l') {
            self.activate_file_cursor(p)
        } else if k.code == KeyCode::Left || k.code == KeyCode::Char('h') {
            self.parent_directory()
        } else if k.code == KeyCode::Char(' ') {
            self.toggle_file_selection();
            nothing()
        } else if k.code == KeyCode::Char('.') {
            self.toggle_hidden();
            nothing()
        } else {
            nothing()
        }
    }

    fn focused_key(&mut self, k: Key, p: Probe) -> (r: Vec<Effect>)
        ensures
            final(self)@ == focus_keys(old(self)@, k, p).0,
            effect_views(r@) == focus_keys(old(self)@, k, p).1,
    {
        match self.focus {
            Focus::Recipe => self.recipe_key(k),
            Focus::File => self.file_key(k, p),
            _ => nothing(),
        }
    }

    fn action_key(&mut self, k: Key) -> (r: Vec<Effect>)
        ensures
            final(self)@ == action_keys(old(self)@, k).0,
            effect_views(r@) == action_keys(old(self)@, k).1,
    {
        if k.code == KeyCode::Char('f') {
            self.toggle_format_picker();
            nothing()
        } else if k.code == KeyCode::Char('r') && self.selected_recipe_name.is_some() {
            just(Effect::StartRun)
        } else if k.code == KeyCode::Char('c') {
            self.cancel_run()
        } else if k.code == KeyCode::Char('e') {
            self.open_edit();
            nothing()
        } else if k.code == KeyCode::Char('E') {
            just(Effect::ExportBuiltins)
        } else {
            nothing()
        }
    }

    fn panel_key(&mut self, k: Key, p: Probe) -> (r: Vec<Effect>)
        ensures
            final(self)@ == panel_keys(old(self)@, k, p).0,
            effect_views(r@) == panel_keys(old(self)@, k, p).1,
    {
        let e2 = self.focused_key(k, p);
        let e3 = self.action_key(k);
        both(e2, e3)
    }

    fn after_global_key(&mut self, k: Key, p: Probe) -> (r: Vec<Effect>)
        requires
            (old(self).toggles.show_format_picker && k.code == KeyCode::Enter)
                ==> old(self).format_picker_cursor < old(self).available_formats@.len(),
        ensures
            final(self)@ == after_global(old(self)@, k, p).0,
            effect_views(r@) == after_global(old(self)@, k, p).1,
    {
        if self.toggles.show_format_picker {
            self.picker_key(k)
        } else if self.toggles.show_edit_popup {
            if k.code == KeyCode::Esc {
                self.close_edit();
            }
            nothing()
        } else {
            self.panel_key(k, p)
        }
    }

    fn browse_key(&mut self, k: Key, p: Probe) -> (r: Vec<Effect>)
        requires
            (old(self).toggles.show_format_picker && k.code == KeyCode::Enter)
                ==> old(self).format_picker_cursor < old(self).available_formats@.len(),
        ensures
            final(self)@ == browse_keys(old(self)@, k, p).0,
            effect_views(r@) == browse_keys(old(self)@, k, p).1,
    {
        let ghost m = self@;
        let (e1, stop) = self.global_key(k, p);
        if stop {
            return e1;
        }
        proof {
            if k.code == KeyCode::Enter {
                lemma_enter_keeps_picker(m, k, p);
            }
        }
        let e2 = self.after_global_key(k, p);
        both(e1, e2)
    }

    /// Handle a key press: change the state as [`key_step`] says and
    /// return what the application has to do, in order. `probe` says what
    /// the file system holds at the paths the key may look at.
    pub fn on_key(&mut self, key: Key, probe: Probe) -> (r: Vec<Effect>)
        requires
            key_ok(old(self)@, key),
        ensures
            final(self)@ == key_step(old(self)@, key, probe).0,
            effect_views(r@) == key_step(old(self)@, key, probe).1,
    {
        if self.toggles.show_undo_list {
            self.undo_key(key)
        } else if self.mode == Mode::Help {
            self.help_key(key);
            nothing()
        } else if self.mode == Mode::Edit {
            self.edit_key(key, probe)
        } else {
            self.browse_key(key, probe)
        }
    }
}

/// `c.min(top)`.
fn clamp_to(c: usize, top: usize) -> (r: usize)
    ensures
        r == min_usize(c, top),
{
    if c <= top {
        c
    } else {
        top
    }
}

/// Enter is no global key: the state it reaches the format picker with
/// is the one it came with.
proof fn lemma_enter_keeps_picker(m: AppModel, k: Key, p: Probe)
    requires
        k.code == KeyCode::Enter,
    ensures
        global_keys(m, k, p).0 == m,
{
}

} // verus!
