//! What key presses keep and do: the format picker's cursor stays on one
//! of the offered formats while the picker is open, so choosing a format
//! with Enter always has a format to choose; and in the recipe panel the
//! cursor keys move the cursor rather than start a filter.

use vstd::prelude::*;
use crate::app::{
    min_usize, sat_add, sat_sub, step_down, AppModel, Focus, Key, KeyCode, ListingView, Mode,
    Probe,
};
use crate::app_keys::{
    after_global, browsed_dir_chosen, browser_closed, browser_cursor_set, comparison_closed,
    dry_run_toggled, edit_closed, edit_field_switched, edit_keys, edit_popped, edit_typed,
    edits_applied, exif_shown, file_cursor_set, filter_dropped, filter_popped, filter_started,
    filter_typed, filtering_ended, focus_for, focus_keys, focus_set, global_keys,
    image_preview_closed, key_ok, key_step, picker_closed, picker_cursor_set, quit_set,
    recipe_chosen, recipe_cursor_set, recursive_toggled, sort_cycled, undo_closed,
    undo_cursor_set, undo_keys, undo_list_toggled,
};
use crate::app_ops::{
    activated, cursor_selection_toggled, edit_opened, format_selected, help_toggled,
    hidden_toggled, image_preview_toggled, lemma_first_index, no_effects, picker_toggled, preview_step,
    selection_toggled,
    undo_cleared, browser_entered, browser_up, comparison_toggled,
};
use crate::app_run::cancel_step;
use crate::app_keys::{is_down, is_up};
use crate::app_view::{entry_at, filtered, filtered_index, initial_state, sorted_state, visible_of};
use crate::app::{EffectView, Modifiers};
use crate::fs_utils::is_image_path;
use crate::recipe::RecipeView;

verus! {

/// The format picker, when open, has its cursor on an offered format.
pub open spec fn picker_in_range(m: AppModel) -> bool {
    m.toggles.show_format_picker ==> m.format_picker_cursor < m.available_formats.len()
}

/// The format picker's state is the same in both.
pub open spec fn same_picker(a: AppModel, b: AppModel) -> bool {
    &&& a.toggles.show_format_picker == b.toggles.show_format_picker
    &&& a.format_picker_cursor == b.format_picker_cursor
    &&& a.available_formats == b.available_formats
}

proof fn lemma_popup_steps_keep_picker(m: AppModel, c: usize, ch: char, on: bool)
    ensures
        same_picker(m, undo_cursor_set(m, c)),
        same_picker(m, undo_closed(m)),
        same_picker(m, undo_list_toggled(m)),
        same_picker(m, browser_closed(m)),
        same_picker(m, browser_cursor_set(m, c)),
        same_picker(m, browsed_dir_chosen(m)),
        same_picker(m, edit_closed(m)),
        same_picker(m, edits_applied(m)),
        same_picker(m, edit_field_switched(m)),
        same_picker(m, edit_popped(m)),
        same_picker(m, edit_typed(m, ch)),
        same_picker(m, comparison_closed(m)),
        same_picker(m, image_preview_closed(m)),
        same_picker(m, undo_cleared(m)),
        same_picker(m, exif_shown(m, on)),
{
    reveal(undo_cursor_set);
    reveal(undo_closed);
    reveal(undo_list_toggled);
    reveal(browser_closed);
    reveal(browser_cursor_set);
    reveal(browsed_dir_chosen);
    reveal(edit_closed);
    reveal(edits_applied);
    reveal(edit_field_switched);
    reveal(edit_popped);
    reveal(edit_typed);
    reveal(comparison_closed);
    reveal(image_preview_closed);
    reveal(undo_cleared);
    reveal(exif_shown);
}

proof fn lemma_panel_steps_keep_picker(m: AppModel, c: usize, f: Focus, ch: char)
    ensures
        same_picker(m, quit_set(m)),
        same_picker(m, focus_set(m, f)),
        same_picker(m, dry_run_toggled(m)),
        same_picker(m, recursive_toggled(m)),
        same_picker(m, filter_dropped(m)),
        same_picker(m, filtering_ended(m)),
        same_picker(m, filter_started(m, ch)),
        same_picker(m, filter_popped(m)),
        same_picker(m, filter_typed(m, ch)),
        same_picker(m, recipe_cursor_set(m, c)),
        same_picker(m, file_cursor_set(m, c)),
        same_picker(m, help_toggled(m)),
        same_picker(m, hidden_toggled(m)),
        same_picker(m, edit_opened(m)),
        same_picker(m, cursor_selection_toggled(m)),
        same_picker(m, preview_step(m).0),
{
    reveal(quit_set);
    reveal(focus_set);
    reveal(dry_run_toggled);
    reveal(recursive_toggled);
    reveal(filter_dropped);
    reveal(filtering_ended);
    reveal(filter_started);
    reveal(filter_popped);
    reveal(filter_typed);
    reveal(recipe_cursor_set);
    reveal(file_cursor_set);
    reveal(help_toggled);
    reveal(hidden_toggled);
    reveal(edit_opened);
    reveal(cursor_selection_toggled);
    reveal(selection_toggled);
    reveal(preview_step);
}

proof fn lemma_requests_keep_picker(m: AppModel, p: Probe)
    ensures
        same_picker(m, activated(m, p).0),
        same_picker(m, browser_up(m).0),
        same_picker(m, browser_entered(m, p).0),
        same_picker(m, comparison_toggled(m, p).0),
        same_picker(m, image_preview_toggled(m, p).0),
        same_picker(m, cancel_step(m).0),
        same_picker(m, sort_cycled(m)),
{
    reveal(activated);
    reveal(selection_toggled);
    reveal(browser_up);
    reveal(browser_entered);
    reveal(comparison_toggled);
    reveal(image_preview_toggled);
    reveal(cancel_step);
    reveal(sort_cycled);
    reveal(sorted_state);
    lemma_panel_steps_keep_picker(m, 0, Focus::Recipe, ' ');
}

proof fn lemma_picker_steps(m: AppModel, c: usize, f: Seq<char>, i: int)
    ensures
        !picker_closed(m).toggles.show_format_picker,
        picker_cursor_set(m, c).toggles.show_format_picker == m.toggles.show_format_picker,
        picker_cursor_set(m, c).format_picker_cursor == c,
        picker_cursor_set(m, c).available_formats == m.available_formats,
        !format_selected(m, f).0.toggles.show_format_picker,
        recipe_chosen(m, i).0.toggles.show_format_picker == m.toggles.show_format_picker,
{
    reveal(picker_closed);
    reveal(picker_cursor_set);
    reveal(format_selected);
    reveal(recipe_chosen);
    reveal(preview_step);
}

proof fn lemma_picker_opened(m: AppModel)
    requires
        picker_in_range(m),
        m.available_formats.len() <= usize::MAX,
    ensures
        picker_in_range(picker_toggled(m)),
{
    reveal(picker_toggled);
    match m.format_override {
        Some(o) => lemma_first_index(m.available_formats, o, 0),
        None => {},
    }
}

proof fn lemma_undo_keys(m: AppModel, k: Key)
    ensures
        same_picker(m, undo_keys(m, k).0),
{
    lemma_popup_steps_keep_picker(m, step_down(m.undo_cursor, m.generated_outputs.len() as usize), ' ', true);
    lemma_popup_steps_keep_picker(m, sat_sub(m.undo_cursor, 1), ' ', true);
}

proof fn lemma_edit_keys(m: AppModel, k: Key, p: Probe)
    ensures
        same_picker(m, edit_keys(m, k, p).0),
{
    lemma_requests_keep_picker(m, p);
    lemma_popup_steps_keep_picker(m, step_down(m.dir_browser_cursor, m.dir_browser_listing.len() as usize), ' ', true);
    lemma_popup_steps_keep_picker(m, sat_sub(m.dir_browser_cursor, 1), ' ', true);
    if let KeyCode::Char(c) = k.code {
        lemma_popup_steps_keep_picker(m, 0, c, true);
    }
}

proof fn lemma_global_keys(m: AppModel, k: Key, p: Probe)
    requires
        picker_in_range(m),
        m.available_formats.len() <= usize::MAX,
    ensures
        picker_in_range(global_keys(m, k, p).0),
        !global_keys(m, k, p).2 ==> same_picker(m, global_keys(m, k, p).0),
{
    lemma_requests_keep_picker(m, p);
    lemma_popup_steps_keep_picker(m, 0, ' ', false);
    lemma_popup_steps_keep_picker(m, 0, ' ', true);
    lemma_picker_steps(m, 0, Seq::empty(), 0);
    match focus_for(m, k) {
        Some(f) => lemma_panel_steps_keep_picker(m, 0, f, ' '),
        None => lemma_panel_steps_keep_picker(m, 0, Focus::Recipe, ' '),
    }
}

proof fn lemma_focus_keys(m: AppModel, k: Key, p: Probe)
    requires
        m.available_formats.len() <= usize::MAX,
    ensures
        focus_keys(m, k, p).0.toggles.show_format_picker == m.toggles.show_format_picker,
        k.code != KeyCode::Enter ==> focus_keys(m, k, p).0.available_formats == m.available_formats,
{
    lemma_requests_keep_picker(m, p);
    let f = filtered(m);
    let max_idx = sat_sub(f.len() as usize, 1);
    lemma_panel_steps_keep_picker(m, min_usize(sat_add(m.recipe_cursor, 1), max_idx), Focus::Recipe, ' ');
    lemma_panel_steps_keep_picker(m, sat_sub(m.recipe_cursor, 1), Focus::Recipe, ' ');
    lemma_panel_steps_keep_picker(m, 0, Focus::Recipe, ' ');
    lemma_panel_steps_keep_picker(m, max_idx, Focus::Recipe, ' ');
    lemma_panel_steps_keep_picker(m, sat_sub(m.recipe_cursor, 10), Focus::Recipe, ' ');
    lemma_panel_steps_keep_picker(m, min_usize(sat_add(m.recipe_cursor, 10), max_idx), Focus::Recipe, ' ');
    if let KeyCode::Char(c) = k.code {
        lemma_panel_steps_keep_picker(m, 0, Focus::Recipe, c);
    }
    match filtered_index(m, m.recipe_cursor) {
        Some(i) => lemma_picker_steps(m, 0, Seq::empty(), i as int),
        None => {},
    }
    if f.len() > 0 {
        lemma_picker_steps(m, 0, Seq::empty(), f[0] as int);
        lemma_panel_steps_keep_picker(recipe_chosen(m, f[0] as int).0, 0, Focus::Recipe, ' ');
    }
    let down = file_cursor_set(m, step_down(m.file_cursor, visible_of(m).len() as usize));
    let up = file_cursor_set(m, sat_sub(m.file_cursor, 1));
    lemma_panel_steps_keep_picker(m, step_down(m.file_cursor, visible_of(m).len() as usize), Focus::File, ' ');
    lemma_panel_steps_keep_picker(m, sat_sub(m.file_cursor, 1), Focus::File, ' ');
    lemma_panel_steps_keep_picker(down, 0, Focus::File, ' ');
    lemma_panel_steps_keep_picker(up, 0, Focus::File, ' ');
}

proof fn lemma_after_global(m: AppModel, k: Key, p: Probe)
    requires
        picker_in_range(m),
        m.available_formats.len() <= usize::MAX,
    ensures
        picker_in_range(after_global(m, k, p).0),
{
    if m.toggles.show_format_picker {
        let len = m.available_formats.len() as usize;
        lemma_picker_steps(m, step_down(m.format_picker_cursor, len), Seq::empty(), 0);
        lemma_picker_steps(m, sat_sub(m.format_picker_cursor, 1), Seq::empty(), 0);
        if m.format_picker_cursor < m.available_formats.len() {
            lemma_picker_steps(m, 0, m.available_formats[m.format_picker_cursor as int], 0);
        }
    } else if m.toggles.show_edit_popup {
        lemma_popup_steps_keep_picker(m, 0, ' ', true);
    } else {
        lemma_focus_keys(m, k, p);
        let m2 = focus_keys(m, k, p).0;
        if k.code != KeyCode::Enter {
            lemma_picker_opened(m2);
        }
        lemma_requests_keep_picker(m2, p);
        lemma_panel_steps_keep_picker(m2, 0, Focus::Recipe, ' ');
    }
}

/// Whatever key is pressed, the format picker's cursor stays on an
/// offered format while the picker is open; so every key can be handled,
/// the picker's Enter included.
pub proof fn law_keys_keep_picker_in_range(m: AppModel, k: Key, p: Probe)
    requires
        picker_in_range(m),
        m.available_formats.len() <= usize::MAX,
    ensures
        key_ok(m, k),
        picker_in_range(key_step(m, k, p).0),
{
    if m.toggles.show_undo_list {
        lemma_undo_keys(m, k);
    } else if m.mode == Mode::Help {
        lemma_panel_steps_keep_picker(m, 0, Focus::Recipe, ' ');
    } else if m.mode == Mode::Edit {
        lemma_edit_keys(m, k, p);
    } else {
        lemma_global_keys(m, k, p);
        let (m1, e1, stop) = global_keys(m, k, p);
        if !stop {
            lemma_after_global(m1, k, p);
        }
    }
}

/// The interface starts with the format picker closed.
pub proof fn law_start_picker_in_range(rs: Seq<RecipeView>, dir: Seq<char>, l: ListingView)
    ensures
        picker_in_range(initial_state(rs, dir, l)),
{
    reveal(initial_state);
}


/// In the recipe panel, with no popup open and no filter being typed,
/// `j` and Down move the recipe cursor one down, stopping at the last
/// recipe shown, `k` and Up one up, stopping at the first; neither starts
/// a filter, and nothing else changes.
#[verifier::spinoff_prover]
#[verifier::rlimit(40)]
pub proof fn law_recipe_cursor_keys(m: AppModel, k: Key, p: Probe)
    requires
        m.mode == Mode::Browse,
        m.focus == Focus::Recipe,
        !m.toggles.show_undo_list,
        !m.toggles.show_format_picker,
        !m.toggles.show_edit_popup,
        !m.toggles.is_filtering,
        is_down(k) || is_up(k),
    ensures
        key_step(m, k, p).0 == recipe_cursor_set(
            m,
            if is_down(k) {
                min_usize(sat_add(m.recipe_cursor, 1), sat_sub(filtered(m).len() as usize, 1))
            } else {
                sat_sub(m.recipe_cursor, 1)
            },
        ),
        key_step(m, k, p).1 == no_effects(),
        !key_step(m, k, p).0.toggles.is_filtering,
        key_step(m, k, p).0.recipe_filter == m.recipe_filter,
{
    reveal(recipe_cursor_set);
    assert(no_effects() + no_effects() =~= no_effects());
}


/// The keys that open the entry under the file cursor: Enter, Right and
/// `l`, whatever the modifiers.
pub open spec fn opens_file_entry(k: Key) -> bool {
    k.code == KeyCode::Enter || k.code == KeyCode::Right || k.code == KeyCode::Char('l')
}

/// In the file panel, with no popup open, `l` and Right do what Enter
/// does: on a directory they ask to change into it (checking that it is
/// one), on an image they select or unselect it (when nothing is selected
/// twice) and ask for nothing, and
/// with no entry under the cursor they change nothing.
pub proof fn law_file_open_keys(m: AppModel, k: Key, p: Probe)
    requires
        m.mode == Mode::Browse,
        m.focus == Focus::File,
        !m.toggles.show_undo_list,
        !m.toggles.show_format_picker,
        !m.toggles.show_edit_popup,
        opens_file_entry(k),
    ensures
        key_step(m, k, p) == key_step(m, Key { code: KeyCode::Enter, modifiers: Modifiers::Plain }, p),
        entry_at(m, m.file_cursor) is None ==> key_step(m, k, p) == (m, no_effects()),
        entry_at(m, m.file_cursor) is Some && p.cursor_is_dir ==> key_step(m, k, p) == (
            m,
            seq![EffectView::ChangeDirectory { path: entry_at(m, m.file_cursor)->0, check_dir: true }],
        ),
        entry_at(m, m.file_cursor) is Some && !p.cursor_is_dir && is_image_path(entry_at(m, m.file_cursor)->0)
            && crate::laws::no_repeats(m.selected_files) ==> key_step(m, k, p).1 == no_effects() && key_step(m, k, p).0.selected_files.contains(entry_at(m, m.file_cursor)->0)
            == !m.selected_files.contains(entry_at(m, m.file_cursor)->0),
{
    reveal(activated);
    let enter = Key { code: KeyCode::Enter, modifiers: Modifiers::Plain };
    assert(key_step(m, k, p) == (activated(m, p).0, activated(m, p).1 + no_effects()));
    assert(key_step(m, enter, p) == (activated(m, p).0, activated(m, p).1 + no_effects()));
    assert(activated(m, p).1 + no_effects() =~= activated(m, p).1);
    match entry_at(m, m.file_cursor) {
        Some(e) => {
            if !p.cursor_is_dir && is_image_path(e) && crate::laws::no_repeats(m.selected_files) {
                crate::laws::law_selection_toggle(m, e);
            }
        },
        None => {},
    }
}

} // verus!
