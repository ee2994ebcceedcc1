//! What the interface shows: visible files, filtered and sorted recipes,
//! the formats of the selected recipe.

use vstd::prelude::*;
use vstd::string::*;
use crate::app::{
    listing_view, EditField, Focus, Mode, Toggles, min_usize, ostr, sat_sub, step_down, wf, App, AppModel, Effect, EffectView, ListingView,
    SortOrder,
};
use crate::fs_utils::{is_image, is_image_path, lemma_sorted_strs, sort_paths, view_keys, DirListing};
use crate::paths::{file_name, path_file_name};
use crate::recipe::{recipe_views, Recipe, RecipeView};
use crate::sort::{
    key_order,
    key_views, lemma_is_stable_sorted, lemma_stable_sort_map, sort_by_keys, stable_sorted,
    KeyView, SortKey,
};
use crate::text::{
    chars_of, contains, copy_str, lemma_strs_push, lowercase, seq_contains, str_eq, strs,
    to_lowercase,
};

verus! {

// ── Visible files ─────────────────────────────────────────────────────

/// Whether a path names a hidden entry (its file name starts with `.`).
pub open spec fn is_hidden(p: Seq<char>) -> bool {
    match file_name(p) {
        Some(n) => n.len() > 0 && n[0] == '.',
        None => false,
    }
}

/// The paths of `s` that are shown: all of them, or only those that are
/// not hidden.
pub open spec fn keep_visible(s: Seq<Seq<char>>, show_hidden: bool) -> Seq<Seq<char>>
    decreases s.len(),
{
    if s.len() == 0 {
        Seq::empty()
    } else {
        let rest = keep_visible(s.drop_last(), show_hidden);
        if show_hidden || !is_hidden(s.last()) {
            rest.push(s.last())
        } else {
            rest
        }
    }
}

/// The entries of the file panel in order: directories, images, others.
pub open spec fn visible(l: ListingView, show_hidden: bool) -> Seq<Seq<char>> {
    keep_visible(l.directories, show_hidden) + keep_visible(l.image_files, show_hidden)
        + keep_visible(l.other_files, show_hidden)
}

/// The entries of the file panel of a state.
pub open spec fn visible_of(m: AppModel) -> Seq<Seq<char>> {
    visible(m.dir_listing, m.toggles.show_hidden)
}

/// The entry at a position of the file panel.
pub open spec fn entry_at(m: AppModel, c: usize) -> Option<Seq<char>> {
    if c < visible_of(m).len() {
        Some(visible_of(m)[c as int])
    } else {
        None
    }
}

/// Whether a path names a hidden entry.
pub fn hidden(p: &str) -> (r: bool)
    ensures
        r == is_hidden(p@),
{
    match path_file_name(p) {
        Some(n) => {
            let v = chars_of(n.as_str());
            v.len() > 0 && v[0] == '.'
        },
        None => false,
    }
}

fn push_visible(out: &mut Vec<String>, s: &Vec<String>, show_hidden: bool)
    ensures
        strs(final(out)@) == strs(old(out)@) + keep_visible(strs(s@), show_hidden),
{
    let ghost start = strs(out@);
    let mut i: usize = 0;
    while i < s.len()
        invariant
            i <= s.len(),
            strs(out@) == start + keep_visible(strs(s@).subrange(0, i as int), show_hidden),
        decreases s.len() - i,
    {
        let ghost pre = strs(s@).subrange(0, i as int);
        let ghost cur = strs(s@).subrange(0, i + 1);
        assert(cur.drop_last() =~= pre);
        assert(cur.last() == s@[i as int]@);
        if show_hidden || !hidden(s[i].as_str()) {
            let x = copy_str(s[i].as_str());
            proof {
                lemma_strs_push(out@, x);
            }
            out.push(x);
        }
        i = i + 1;
        assert(strs(out@) =~= start + keep_visible(cur, show_hidden));
    }
    assert(strs(s@).subrange(0, s@.len() as int) =~= strs(s@));
}

impl App {
    /// The entries of the file panel in order.
    pub fn visible_entries(&self) -> (r: Vec<String>)
        ensures
            strs(r@) == visible_of(self@),
    {
        let mut r: Vec<String> = Vec::new();
        push_visible(&mut r, &self.dir_listing.directories, self.toggles.show_hidden);
        push_visible(&mut r, &self.dir_listing.image_files, self.toggles.show_hidden);
        push_visible(&mut r, &self.dir_listing.other_files, self.toggles.show_hidden);
        assert(strs(r@) =~= visible_of(self@));
        r
    }

    /// The number of entries of the file panel.
    pub fn file_visible_count(&self) -> (r: usize)
        ensures
            r == visible_of(self@).len(),
    {
        self.visible_entries().len()
    }

    /// The number of entries the file panel would show with hidden files
    /// shown or not.
    pub fn visible_count_with(&self, show_hidden: bool) -> (r: usize)
        ensures
            r == visible(self@.dir_listing, show_hidden).len(),
    {
        let mut v: Vec<String> = Vec::new();
        push_visible(&mut v, &self.dir_listing.directories, show_hidden);
        push_visible(&mut v, &self.dir_listing.image_files, show_hidden);
        push_visible(&mut v, &self.dir_listing.other_files, show_hidden);
        assert(strs(v@) =~= visible(self@.dir_listing, show_hidden));
        v.len()
    }

    /// The entry at a position of the file panel.
    pub fn visible_entry_at(&self, cursor: usize) -> (r: Option<String>)
        ensures
            ostr(r) == entry_at(self@, cursor),
    {
        let v = self.visible_entries();
        if cursor < v.len() {
            assert(strs(v@)[cursor as int] == v@[cursor as int]@);
            Some(copy_str(v[cursor].as_str()))
        } else {
            None
        }
    }

    /// The entry under the file cursor.
    pub fn cursor_file(&self) -> (r: Option<String>)
        ensures
            ostr(r) == entry_at(self@, self.file_cursor),
    {
        self.visible_entry_at(self.file_cursor)
    }
}

// ── Filtered recipes ──────────────────────────────────────────────────

/// Whether one of the tags, lowercased, contains `f`.
pub open spec fn tag_matches(tags: Seq<Seq<char>>, f: Seq<char>) -> bool {
    exists|i: int| 0 <= i < tags.len() && seq_contains(lowercase(#[trigger] tags[i]), f)
}

/// Whether a recipe matches the lowercase filter `f`: its name, its
/// category or one of its tags, lowercased, contains it.
pub open spec fn recipe_matches(r: RecipeView, f: Seq<char>) -> bool {
    seq_contains(lowercase(r.name), f) || (match r.category {
        Some(c) => seq_contains(lowercase(c), f),
        None => false,
    }) || tag_matches(r.tags, f)
}

/// Positions among the first `n` recipes that match `f`.
pub open spec fn matching_upto(rs: Seq<RecipeView>, f: Seq<char>, n: int) -> Seq<usize>
    decreases n,
{
    if n <= 0 {
        Seq::empty()
    } else {
        let p = matching_upto(rs, f, n - 1);
        if recipe_matches(rs[n - 1], f) {
            p.push((n - 1) as usize)
        } else {
            p
        }
    }
}

/// Positions of the recipes the filter shows: all of them without a
/// filter, otherwise those matching the lowercased filter.
pub open spec fn filtered(m: AppModel) -> Seq<usize> {
    if m.recipe_filter.len() == 0 {
        Seq::new(m.recipes.len(), |i: int| i as usize)
    } else {
        matching_upto(m.recipes, lowercase(m.recipe_filter), m.recipes.len() as int)
    }
}

proof fn lemma_matching_upto(rs: Seq<RecipeView>, f: Seq<char>, n: int)
    requires
        0 <= n <= rs.len(),
        n <= usize::MAX,
    ensures
        forall|j: int| 0 <= j < matching_upto(rs, f, n).len() ==> #[trigger] matching_upto(rs, f, n)[j] < n,
    decreases n,
{
    if n > 0 {
        lemma_matching_upto(rs, f, n - 1);
        let p = matching_upto(rs, f, n - 1);
        assert forall|j: int| 0 <= j < matching_upto(rs, f, n).len() implies #[trigger] matching_upto(
            rs,
            f,
            n,
        )[j] < n by {
            if j < p.len() {
                assert(p[j] < n - 1);
            }
        }
    }
}

/// Every position the filter shows is a position of the list.
pub proof fn lemma_filtered_bounds(m: AppModel)
    requires
        m.recipes.len() <= usize::MAX,
    ensures
        forall|j: int| 0 <= j < filtered(m).len() ==> #[trigger] filtered(m)[j] < m.recipes.len(),
{
    if m.recipe_filter.len() > 0 {
        lemma_matching_upto(m.recipes, lowercase(m.recipe_filter), m.recipes.len() as int);
    }
}

/// The position of the recipe shown at a filtered cursor.
pub open spec fn filtered_index(m: AppModel, cursor: usize) -> Option<usize> {
    if cursor < filtered(m).len() {
        Some(filtered(m)[cursor as int])
    } else {
        None
    }
}

fn tags_match(tags: &Vec<String>, f: &str) -> (r: bool)
    ensures
        r == tag_matches(strs(tags@), f@),
{
    let mut i: usize = 0;
    while i < tags.len()
        invariant
            i <= tags.len(),
            forall|j: int| 0 <= j < i ==> !seq_contains(lowercase(#[trigger] strs(tags@)[j]), f@),
        decreases tags.len() - i,
    {
        let l = to_lowercase(tags[i].as_str());
        assert(strs(tags@)[i as int] == tags@[i as int]@);
        if contains(l.as_str(), f) {
            return true;
        }
        i = i + 1;
    }
    false
}

fn matches(r: &Recipe, f: &str) -> (b: bool)
    ensures
        b == recipe_matches(r@, f@),
{
    let n = to_lowercase(r.name.as_str());
    if contains(n.as_str(), f) {
        return true;
    }
    let in_cat = match &r.category {
        Some(c) => {
            let l = to_lowercase(c.as_str());
            contains(l.as_str(), f)
        },
        None => false,
    };
    if in_cat {
        return true;
    }
    tags_match(&r.tags, f)
}

impl App {
    /// Positions of the recipes that the filter shows: all of them when
    /// the filter is empty, otherwise those whose name, category or a tag
    /// contains it, ignoring case.
    pub fn filtered_recipes(&self) -> (r: Vec<usize>)
        ensures
            r@ == filtered(self@),
    {
        let n = self.recipes.len();
        let mut r: Vec<usize> = Vec::new();
        if self.recipe_filter.as_str().unicode_len() == 0 {
            let mut i: usize = 0;
            while i < n
                invariant
                    n == self.recipes@.len(),
                    i <= n,
                    r@ == Seq::new(i as nat, |k: int| k as usize),
                decreases n - i,
            {
                r.push(i);
                i = i + 1;
                assert(r@ =~= Seq::new(i as nat, |k: int| k as usize));
            }
            return r;
        }
        let f = to_lowercase(self.recipe_filter.as_str());
        let mut i: usize = 0;
        while i < n
            invariant
                n == self.recipes@.len(),
                f@ == lowercase(self.recipe_filter@),
                i <= n,
                r@ == matching_upto(recipe_views(self.recipes@), f@, i as int),
            decreases n - i,
        {
            assert(recipe_views(self.recipes@)[i as int] == self.recipes@[i as int]@);
            if matches(&self.recipes[i], f.as_str()) {
                r.push(i);
            }
            i = i + 1;
        }
        r
    }

    /// The position of the recipe shown at a filtered cursor, if any.
    pub fn filtered_recipe_index(&self, cursor: usize) -> (r: Option<usize>)
        ensures
            r == filtered_index(self@, cursor),
    {
        let f = self.filtered_recipes();
        if cursor < f.len() {
            Some(f[cursor])
        } else {
            None
        }
    }
}

// ── Sorting recipes ───────────────────────────────────────────────────

/// The sort key of a recipe: its lowercased name; its usage count, most
/// used first; or its category (empty when none), then its lowercased
/// name.
pub open spec fn recipe_key(order: SortOrder, r: RecipeView) -> KeyView {
    match order {
        SortOrder::Name => KeyView { first: lowercase(r.name), second: Seq::empty(), num: 0 },
        SortOrder::Usage => KeyView {
            first: Seq::empty(),
            second: Seq::empty(),
            num: (u64::MAX - r.usage_count) as u64,
        },
        SortOrder::Category => KeyView {
            first: match r.category {
                Some(c) => c,
                None => Seq::empty(),
            },
            second: lowercase(r.name),
            num: 0,
        },
    }
}

/// Whether recipes are in order for a sort order: no recipe's key comes
/// after a later one's.
pub open spec fn recipes_in_order(rs: Seq<RecipeView>, order: SortOrder) -> bool {
    forall|i: int, j: int| 0 <= i < j < rs.len() ==> key_order(#[trigger] recipe_key(order, rs[i]), #[trigger] recipe_key(order, rs[j])) <= 0
}

/// The sort keys of a list of recipes.
pub open spec fn recipe_keys(order: SortOrder, rs: Seq<RecipeView>) -> Seq<KeyView> {
    rs.map_values(|r: RecipeView| recipe_key(order, r))
}

/// The state with its recipes sorted stably by the current order and the
/// recipe cursor kept inside the list.
#[verifier::opaque]
pub open spec fn sorted_state(m: AppModel) -> AppModel {
    AppModel {
        recipes: stable_sorted(m.recipes, recipe_keys(m.recipe_sort, m.recipes)),
        recipe_cursor: min_usize(m.recipe_cursor, sat_sub(m.recipes.len() as usize, 1)),
        ..m
    }
}

fn recipe_sort_key(order: SortOrder, r: &Recipe) -> (k: SortKey)
    ensures
        k@ == recipe_key(order, r@),
{
    match order {
        SortOrder::Name => {
            let l = to_lowercase(r.name.as_str());
            SortKey { first: chars_of(l.as_str()), second: Vec::new(), num: 0 }
        },
        SortOrder::Usage => SortKey {
            first: Vec::new(),
            second: Vec::new(),
            num: u64::MAX - r.usage_count,
        },
        SortOrder::Category => {
            let first = match &r.category {
                Some(c) => chars_of(c.as_str()),
                None => Vec::new(),
            };
            let l = to_lowercase(r.name.as_str());
            SortKey { first, second: chars_of(l.as_str()), num: 0 }
        },
    }
}

/// Sort recipes stably by their keys for an order.
fn sort_recipe_vec(order: SortOrder, v: &mut Vec<Recipe>)
    ensures
        final(v)@.len() == old(v)@.len(),
        recipes_in_order(recipe_views(final(v)@), order),
        recipe_views(final(v)@) == stable_sorted(
            recipe_views(old(v)@),
            recipe_keys(order, recipe_views(old(v)@)),
        ),
{
    let ghost items0 = v@;
    let mut keys: Vec<SortKey> = Vec::new();
    let mut i: usize = 0;
    while i < v.len()
        invariant
            i <= v.len(),
            v@ == items0,
            keys@.len() == i,
            forall|k: int| 0 <= k < i ==> #[trigger] keys@[k]@ == recipe_key(order, v@[k]@),
        decreases v.len() - i,
    {
        let k = recipe_sort_key(order, &v[i]);
        keys.push(k);
        i = i + 1;
    }
    let ghost kv = key_views(keys@);
    assert(kv =~= recipe_keys(order, recipe_views(items0)));
    sort_by_keys(v, &mut keys);
    proof {
        lemma_stable_sort_map(items0, kv, v@, |r: Recipe| r@);
        assert(items0.map_values(|r: Recipe| r@) =~= recipe_views(items0));
        assert(v@.map_values(|r: Recipe| r@) =~= recipe_views(v@));
        lemma_is_stable_sorted(recipe_views(items0), kv, recipe_views(v@));
        let p = choose|p: Seq<int>| crate::sort::stably_sorted_by(items0, kv, v@, p);
        assert(crate::sort::stably_sorted_by(items0, kv, v@, p));
        let out = recipe_views(v@);
        assert forall|i: int, j: int| 0 <= i < j < out.len() implies key_order(
            #[trigger] recipe_key(order, out[i]),
            #[trigger] recipe_key(order, out[j]),
        ) <= 0 by {
            assert(crate::sort::before(kv, p, i, j));
            assert(out[i] == items0[p[i]]@);
            assert(out[j] == items0[p[j]]@);
        }
    }
}

/// `c.min(len.saturating_sub(1))`: a cursor kept inside a list of `len`.
pub fn clamp_cursor(c: usize, len: usize) -> (r: usize)
    ensures
        r == min_usize(c, sat_sub(len, 1)),
{
    let top = len.saturating_sub(1);
    if c > top {
        top
    } else {
        c
    }
}

impl App {
    /// Re-sort the recipes by the current order (stably) and keep the
    /// recipe cursor inside the list.
    pub fn sort_recipes(&mut self)
        ensures
            final(self)@ == sorted_state(old(self)@),
            recipes_in_order(final(self)@.recipes, final(self)@.recipe_sort),
    {
        proof {
            reveal(sorted_state);
        }
        sort_recipe_vec(self.recipe_sort, &mut self.recipes);
        self.recipe_cursor = clamp_cursor(self.recipe_cursor, self.recipes.len());
    }
}

// ── Formats of the selected recipe ────────────────────────────────────

/// Position of the first recipe named `name`.
pub open spec fn first_named(rs: Seq<RecipeView>, name: Seq<char>, from: int) -> Option<int>
    decreases rs.len() - from,
{
    if from < 0 || from >= rs.len() {
        None
    } else if rs[from].name == name {
        Some(from)
    } else {
        first_named(rs, name, from + 1)
    }
}

/// The selected recipe of a state, if it names one.
pub open spec fn selected_index(m: AppModel) -> Option<int> {
    match m.selected_recipe_name {
        Some(n) => first_named(m.recipes, n, 0),
        None => None,
    }
}

/// The format names of a recipe.
pub open spec fn format_names(r: RecipeView) -> Seq<Seq<char>> {
    r.formats.map_values(|f: (Seq<char>, Seq<Seq<char>>)| f.0)
}

/// The formats offered for the selected recipe, sorted.
pub open spec fn formats_for(m: AppModel) -> Seq<Seq<char>> {
    match selected_index(m) {
        Some(i) => sorted_formats(m.recipes[i]),
        None => Seq::empty(),
    }
}

pub proof fn lemma_first_named(rs: Seq<RecipeView>, name: Seq<char>, from: int)
    requires
        0 <= from,
    ensures
        match first_named(rs, name, from) {
            Some(i) => from <= i < rs.len() && rs[i].name == name,
            None => true,
        },
    decreases rs.len() - from,
{
    if from < rs.len() && rs[from].name != name {
        lemma_first_named(rs, name, from + 1);
    }
}

/// Position of the first recipe named `name`.
pub fn find_named(v: &Vec<Recipe>, name: &str) -> (r: Option<usize>)
    ensures
        match r {
            Some(i) => first_named(recipe_views(v@), name@, 0) == Some(i as int),
            None => first_named(recipe_views(v@), name@, 0) is None,
        },
{
    let ghost rv = recipe_views(v@);
    let mut i: usize = 0;
    while i < v.len()
        invariant
            i <= v.len(),
            rv == recipe_views(v@),
            first_named(rv, name@, 0) == first_named(rv, name@, i as int),
        decreases v.len() - i,
    {
        assert(rv[i as int] == v@[i as int]@);
        if str_eq(v[i].name.as_str(), name) {
            return Some(i);
        }
        i = i + 1;
    }
    None
}

/// The format names of a recipe, sorted.
pub open spec fn sorted_formats(r: RecipeView) -> Seq<Seq<char>> {
    stable_sorted(format_names(r), view_keys(format_names(r)))
}

/// The format names a recipe offers, sorted.
pub fn recipe_formats(r: &Recipe) -> (out: Vec<String>)
    ensures
        strs(out@) == sorted_formats(r@),
{
    let mut keys: Vec<String> = Vec::new();
    let fs = &r.formats;
    let ghost names = format_names(r@);
    let mut k: usize = 0;
    while k < fs.len()
        invariant
            k <= fs.len(),
            names.len() == fs@.len(),
            forall|j: int| 0 <= j < fs@.len() ==> #[trigger] names[j] == fs@[j].format@,
            strs(keys@) == names.subrange(0, k as int),
        decreases fs.len() - k,
    {
        let x = copy_str(fs[k].format.as_str());
        proof {
            lemma_strs_push(keys@, x);
        }
        keys.push(x);
        k = k + 1;
        assert(strs(keys@) =~= names.subrange(0, k as int));
    }
    let ghost k0 = keys@;
    assert(strs(k0) =~= names);
    sort_paths(&mut keys);
    proof {
        lemma_sorted_strs(k0, keys@);
    }
    keys
}

impl App {
    /// The position of the selected recipe, if it names one.
    pub fn selected_recipe_index(&self) -> (r: Option<usize>)
        ensures
            match r {
                Some(i) => selected_index(self@) == Some(i as int),
                None => selected_index(self@) is None,
            },
    {
        match &self.selected_recipe_name {
            Some(n) => find_named(&self.recipes, n.as_str()),
            None => None,
        }
    }

    /// The selected recipe, if any.
    pub fn selected_recipe(&self) -> (r: Option<&Recipe>)
        ensures
            match r {
                Some(rec) => selected_index(self@) matches Some(i) && rec@ == self@.recipes[i],
                None => selected_index(self@) is None,
            },
    {
        match self.selected_recipe_index() {
            Some(i) => {
                proof {
                    lemma_first_named(self@.recipes, self@.selected_recipe_name->0, 0);
                }
                Some(&self.recipes[i])
            },
            None => None,
        }
    }

    /// The format names of the selected recipe, sorted; none when no
    /// recipe is selected.
    pub fn selected_formats(&self) -> (r: Vec<String>)
        ensures
            strs(r@) == formats_for(self@),
    {
        match self.selected_recipe_index() {
            Some(i) => {
                proof {
                    lemma_first_named(self@.recipes, self@.selected_recipe_name->0, 0);
                }
                assert(self@.recipes[i as int] == self.recipes@[i as int]@);
                recipe_formats(&self.recipes[i])
            },
            None => {
                let keys: Vec<String> = Vec::new();
                assert(strs(keys@) =~= formats_for(self@));
                keys
            },
        }
    }

    /// Offer the formats of the selected recipe, sorted.
    pub fn update_available_formats(&mut self)
        ensures
            final(self)@ == (AppModel { available_formats: formats_for(old(self)@), ..old(self)@ }),
    {
        self.available_formats = self.selected_formats();
    }
}

// ── The starting state ────────────────────────────────────────────────

/// The state the interface starts in: the recipes sorted by name, the
/// formats of the first of them offered, the given directory and its
/// listing, everything else empty, off or at the top.
#[verifier::opaque]
pub open spec fn initial_state(rs: Seq<RecipeView>, dir: Seq<char>, l: ListingView) -> AppModel {
    let sorted = stable_sorted(rs, recipe_keys(SortOrder::Name, rs));
    AppModel {
        mode: Mode::Browse,
        toggles: all_off(),
        focus: Focus::Recipe,
        recipes: sorted,
        recipe_cursor: 0,
        selected_recipe_name: None,
        recipe_sort: SortOrder::Name,
        recipe_filter: Seq::empty(),
        current_dir: dir,
        dir_listing: l,
        file_cursor: 0,
        selected_files: Seq::empty(),
        format_override: None,
        available_formats: if sorted.len() > 0 {
            sorted_formats(sorted[0])
        } else {
            Seq::empty()
        },
        format_picker_cursor: 0,
        dir_browser_path: "/"@,
        dir_browser_cursor: 0,
        dir_browser_listing: Seq::empty(),
        edit_output_dir: None,
        edit_extra_args: Seq::empty(),
        edit_field: EditField::OutputDir,
        edit_output_buf: Seq::empty(),
        edit_args_buf: Seq::empty(),
        log: Seq::empty(),
        spinner_frame: 0,
        progress_current: 0,
        progress_total: 0,
        progress_stage: Seq::empty(),
        process_output: Seq::empty(),
        processing_queue: Seq::empty(),
        processing_queue_index: 0,
        preview_info: None,
        preview_error: None,
        exif_info: None,
        generated_outputs: Seq::empty(),
        undo_cursor: 0,
        auto_suffix: "lazymagick"@,
    }
}

/// All switches off.
pub open spec fn all_off() -> Toggles {
    Toggles {
        should_quit: false,
        is_filtering: false,
        show_hidden: false,
        show_format_picker: false,
        show_dir_browser: false,
        show_edit_popup: false,
        show_help: false,
        process_running: false,
        spinner_active: false,
        dry_run: false,
        recursive: false,
        show_exif: false,
        show_undo_list: false,
        show_before_after: false,
        show_image_preview: false,
    }
}

impl App {
    /// The interface's starting state for the loaded recipes and the
    /// directory it starts in, with that directory's listing.
    pub fn new(recipes: Vec<Recipe>, current_dir: String, dir_listing: DirListing) -> (r: App)
        ensures
            r@ == initial_state(recipe_views(recipes@), current_dir@, listing_view(dir_listing)),
    {
        proof {
            reveal(initial_state);
        }
        let mut recipes = recipes;
        sort_recipe_vec(SortOrder::Name, &mut recipes);
        let available_formats = if recipes.len() > 0 {
            assert(recipe_views(recipes@)[0] == recipes@[0]@);
            recipe_formats(&recipes[0])
        } else {
            Vec::new()
        };
        let toggles = Toggles {
            should_quit: false,
            is_filtering: false,
            show_hidden: false,
            show_format_picker: false,
            show_dir_browser: false,
            show_edit_popup: false,
            show_help: false,
            process_running: false,
            spinner_active: false,
            dry_run: false,
            recursive: false,
            show_exif: false,
            show_undo_list: false,
            show_before_after: false,
            show_image_preview: false,
        };
        let app = App {
            mode: Mode::Browse,
            toggles,
            focus: Focus::Recipe,
            recipes,
            recipe_cursor: 0,
            selected_recipe_name: None,
            recipe_sort: SortOrder::Name,
            recipe_filter: String::new(),
            current_dir,
            dir_listing,
            file_cursor: 0,
            selected_files: Vec::new(),
            format_override: None,
            available_formats,
            format_picker_cursor: 0,
            dir_browser_path: copy_str("/"),
            dir_browser_cursor: 0,
            dir_browser_listing: Vec::new(),
            edit_output_dir: None,
            edit_extra_args: String::new(),
            edit_field: EditField::OutputDir,
            edit_output_buf: String::new(),
            edit_args_buf: String::new(),
            log_entries: Vec::new(),
            spinner_frame: 0,
            progress_current: 0,
            progress_total: 0,
            progress_stage: String::new(),
            process_output: String::new(),
            processing_queue: Vec::new(),
            processing_queue_index: 0,
            preview_info: None,
            preview_error: None,
            exif_info: None,
            generated_outputs: Vec::new(),
            undo_cursor: 0,
            auto_suffix: crate::config::default_suffix(),
        };
        assert(strs(app.selected_files@) =~= Seq::<Seq<char>>::empty());
        assert(strs(app.dir_browser_listing@) =~= Seq::<Seq<char>>::empty());
        assert(strs(app.generated_outputs@) =~= Seq::<Seq<char>>::empty());
        assert(crate::app::log_views(app.log_entries@) =~= Seq::<(Seq<char>, crate::app::LogLevel)>::empty());
        assert(crate::app::job_views(app.processing_queue@) =~= Seq::<crate::app::JobView>::empty());
        if app.recipes.len() == 0 {
            assert(strs(app.available_formats@) =~= Seq::<Seq<char>>::empty());
        }
        app
    }
}

} // verus!
