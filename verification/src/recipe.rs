//! Recipes: named presets of `magick` arguments, with per-format overrides.

use vstd::prelude::*;
use vstd::string::*;
use crate::paths::{extension, with_extension, path_extension, path_with_extension};
use crate::text::{
    all_ascii, all_white, ascii_lower_seq, copy_str, lemma_strs_push, lowercase, str_eq, strs,
    to_lowercase,
    trims_to_empty,
};

verus! {

/// Where a recipe was loaded from.
pub enum RecipeSource {
    /// Shipped with the application.
    BuiltIn,
    /// Loaded from a user file (its path).
    User(String),
}

/// A processing stage: a set of `magick` flags.
pub struct Stage {
    /// The flags of this stage, e.g. `["-strip"]`.
    pub flags: Vec<String>,
}

/// The arguments a recipe adds when a given output format is chosen.
pub struct FormatArgs {
    /// The format name (an extension such as `webp`).
    pub format: String,
    /// Arguments appended for that format.
    pub args: Vec<String>,
}

/// A named preset of `magick` arguments.
///
/// Every recipe has a default output extension (`output_ext`, or `auto` to
/// keep the input's) and always-applied arguments. Per-format arguments
/// are appended when the user picks that output format.
pub struct Recipe {
    /// Name (lowercased on load).
    pub name: String,
    /// Short description.
    pub description: String,
    /// Optional category for grouping.
    pub category: Option<String>,
    /// How many times the recipe has been used.
    pub usage_count: u64,
    /// Tags for filtering.
    pub tags: Vec<String>,
    /// Processing stages; the first one stands in for `args` when those
    /// are empty.
    pub stages: Vec<Stage>,
    /// `auto` (keep the input extension) or a literal extension.
    pub output_ext: String,
    /// Always-applied arguments.
    pub args: Vec<String>,
    /// Per-format arguments, one entry per format name.
    pub formats: Vec<FormatArgs>,
    /// Where the recipe came from.
    pub source: RecipeSource,
}

/// The contents of a [`Recipe`].
pub struct RecipeView {
    pub name: Seq<char>,
    pub description: Seq<char>,
    pub category: Option<Seq<char>>,
    pub usage_count: u64,
    pub tags: Seq<Seq<char>>,
    pub stages: Seq<Seq<Seq<char>>>,
    pub output_ext: Seq<char>,
    pub args: Seq<Seq<char>>,
    pub formats: Seq<(Seq<char>, Seq<Seq<char>>)>,
    /// `None` for a built-in recipe, the file path for a user recipe.
    pub source: Option<Seq<char>>,
}

/// The view of an optional string.
pub open spec fn opt_view(o: Option<String>) -> Option<Seq<char>> {
    match o {
        Some(s) => Some(s@),
        None => None,
    }
}

impl View for Recipe {
    type V = RecipeView;

    open spec fn view(&self) -> RecipeView {
        RecipeView {
            name: self.name@,
            description: self.description@,
            category: opt_view(self.category),
            usage_count: self.usage_count,
            tags: strs(self.tags@),
            stages: self.stages@.map_values(|s: Stage| strs(s.flags@)),
            output_ext: self.output_ext@,
            args: strs(self.args@),
            formats: self.formats@.map_values(|f: FormatArgs| (f.format@, strs(f.args@))),
            source: match self.source {
                RecipeSource::BuiltIn => None,
                RecipeSource::User(p) => Some(p@),
            },
        }
    }
}

/// Whether no format is named twice among a recipe's per-format
/// arguments (as in the TOML table they come from, whose keys are
/// unique).
pub open spec fn formats_named_once(r: RecipeView) -> bool {
    forall|i: int, j: int| 0 <= i < j < r.formats.len() ==> r.formats[i].0 != r.formats[j].0
}

fn formats_once(fs: &Vec<FormatArgs>) -> (r: bool)
    ensures
        r == (forall|i: int, j: int| 0 <= i < j < fs@.len() ==> fs@[i].format@ != fs@[j].format@),
{
    let mut j: usize = 0;
    while j < fs.len()
        invariant
            j <= fs.len(),
            forall|a: int, b: int| 0 <= a < b < j ==> fs@[a].format@ != fs@[b].format@,
        decreases fs.len() - j,
    {
        let mut i: usize = 0;
        while i < j
            invariant
                i <= j < fs.len(),
                forall|a: int| 0 <= a < i ==> fs@[a].format@ != fs@[j as int].format@,
            decreases j - i,
        {
            if str_eq(fs[i].format.as_str(), fs[j].format.as_str()) {
                return false;
            }
            i = i + 1;
        }
        j = j + 1;
    }
    true
}

/// The views of a sequence of recipes.
pub open spec fn recipe_views(v: Seq<Recipe>) -> Seq<RecipeView> {
    v.map_values(|r: Recipe| r@)
}

/// The arguments of the first entry for format `f`, if any.
pub open spec fn format_entry(formats: Seq<(Seq<char>, Seq<Seq<char>>)>, f: Seq<char>) -> Option<
    Seq<Seq<char>>,
>
    decreases formats.len(),
{
    if formats.len() == 0 {
        None
    } else if formats[0].0 == f {
        Some(formats[0].1)
    } else {
        format_entry(formats.drop_first(), f)
    }
}

/// The extension a recipe gives an output: the override if there is one;
/// else the input's extension (or nothing) for `auto`; else `output_ext`.
pub open spec fn chosen_ext(r: RecipeView, input: Seq<char>, fo: Option<Seq<char>>) -> Seq<char> {
    match fo {
        Some(f) => f,
        None => if r.output_ext == "auto"@ {
            match extension(input) {
                Some(e) => e,
                None => Seq::empty(),
            }
        } else {
            r.output_ext
        },
    }
}

/// The output path a recipe gives an input.
pub open spec fn recipe_output(r: RecipeView, input: Seq<char>, fo: Option<Seq<char>>) -> Seq<
    char,
> {
    with_extension(input, chosen_ext(r, input, fo))
}

/// The arguments a recipe always gives: `args`, or the first stage's
/// flags when `args` is empty.
pub open spec fn base_args(r: RecipeView) -> Seq<Seq<char>> {
    if r.args.len() == 0 && r.stages.len() > 0 {
        r.stages[0]
    } else {
        r.args
    }
}

/// The arguments a recipe adds for the chosen format, if any.
pub open spec fn format_args_of(r: RecipeView, fo: Option<Seq<char>>) -> Seq<Seq<char>> {
    match fo {
        Some(f) => match format_entry(r.formats, f) {
            Some(extra) => extra,
            None => Seq::empty(),
        },
        None => Seq::empty(),
    }
}

/// The arguments of a recipe are its base arguments, then those of the
/// chosen format.
pub proof fn lemma_recipe_args_split(r: RecipeView, fo: Option<Seq<char>>)
    ensures
        recipe_args(r, fo) == base_args(r) + format_args_of(r, fo),
{
    match fo {
        Some(f) => match format_entry(r.formats, f) {
            Some(extra) => {},
            None => {
                assert(base_args(r) + Seq::<Seq<char>>::empty() =~= base_args(r));
            },
        },
        None => {
            assert(base_args(r) + Seq::<Seq<char>>::empty() =~= base_args(r));
        },
    }
}

/// The arguments a recipe gives: `args`, or the first stage's flags when
/// `args` is empty, then the arguments of the chosen format if it has
/// any.
pub open spec fn recipe_args(r: RecipeView, fo: Option<Seq<char>>) -> Seq<Seq<char>> {
    let base = if r.args.len() == 0 && r.stages.len() > 0 {
        r.stages[0]
    } else {
        r.args
    };
    match fo {
        Some(f) => match format_entry(r.formats, f) {
            Some(extra) => base + extra,
            None => base,
        },
        None => base,
    }
}

/// The view of an optional `&str`.
pub open spec fn opt_str_view(o: Option<&str>) -> Option<Seq<char>> {
    match o {
        Some(s) => Some(s@),
        None => None,
    }
}

/// A copy of a list of strings.
pub fn clone_strings(v: &Vec<String>) -> (r: Vec<String>)
    ensures
        strs(r@) == strs(v@),
{
    let mut r: Vec<String> = Vec::new();
    let mut i: usize = 0;
    while i < v.len()
        invariant
            i <= v.len(),
            strs(r@) == strs(v@).subrange(0, i as int),
        decreases v.len() - i,
    {
        let x = v[i].clone();
        proof {
            lemma_strs_push(r@, x);
        }
        r.push(x);
        i = i + 1;
        assert(strs(r@) =~= strs(v@).subrange(0, i as int));
    }
    assert(strs(v@).subrange(0, v@.len() as int) =~= strs(v@));
    r
}

/// Appends copies of `src` to `dst`.
fn append_strings(dst: &mut Vec<String>, src: &Vec<String>)
    ensures
        strs(final(dst)@) == strs(old(dst)@) + strs(src@),
{
    let ghost start = strs(dst@);
    let mut i: usize = 0;
    while i < src.len()
        invariant
            i <= src.len(),
            strs(dst@) == start + strs(src@).subrange(0, i as int),
        decreases src.len() - i,
    {
        let x = src[i].clone();
        proof {
            lemma_strs_push(dst@, x);
        }
        dst.push(x);
        i = i + 1;
        assert(strs(dst@) =~= start + strs(src@).subrange(0, i as int));
    }
    assert(strs(src@).subrange(0, src.len() as int) =~= strs(src@));
}

impl Recipe {
    /// The per-format arguments for `f`, if the recipe has any.
    pub fn format_args(&self, f: &str) -> (r: Option<&Vec<String>>)
        ensures
            match r {
                Some(a) => format_entry(self@.formats, f@) == Some(strs(a@)),
                None => format_entry(self@.formats, f@) is None,
            },
    {
        let mut i: usize = 0;
        assert(self@.formats.subrange(0, self@.formats.len() as int) =~= self@.formats);
        while i < self.formats.len()
            invariant
                i <= self.formats.len(),
                format_entry(self@.formats, f@) == format_entry(
                    self@.formats.subrange(i as int, self@.formats.len() as int),
                    f@,
                ),
            decreases self.formats.len() - i,
        {
            let ghost rest = self@.formats.subrange(i as int, self@.formats.len() as int);
            assert(rest[0] == (self.formats@[i as int].format@, strs(self.formats@[i as int].args@)));
            if str_eq(self.formats[i].format.as_str(), f) {
                return Some(&self.formats[i].args);
            }
            assert(rest.drop_first() =~= self@.formats.subrange(
                i + 1,
                self@.formats.len() as int,
            ));
            i = i + 1;
        }
        None
    }

    /// Resolve the output path for an input file and an optional format
    /// override: the override's extension; else, for `auto`, the input's
    /// own extension; else `output_ext`.
    pub fn output_path(&self, input: &str, format_override: Option<&str>) -> (r: String)
        ensures
            r@ == recipe_output(self@, input@, opt_str_view(format_override)),
    {
        match format_override {
            Some(f) => path_with_extension(input, f),
            None => {
                if str_eq(self.output_ext.as_str(), "auto") {
                    match path_extension(input) {
                        Some(e) => path_with_extension(input, e.as_str()),
                        None => {
                            let empty = String::new();
                            path_with_extension(input, empty.as_str())
                        },
                    }
                } else {
                    path_with_extension(input, self.output_ext.as_str())
                }
            },
        }
    }

    /// The full list of `magick` arguments: `args` (or the first stage's
    /// flags when `args` is empty), then the override format's arguments
    /// when the recipe has some for it.
    pub fn resolved_args(&self, format_override: Option<&str>) -> (r: Vec<String>)
        ensures
            strs(r@) == recipe_args(self@, opt_str_view(format_override)),
    {
        let mut out = if self.args.len() == 0 && self.stages.len() > 0 {
            assert(strs(self.stages@[0].flags@) == self@.stages[0]);
            clone_strings(&self.stages[0].flags)
        } else {
            clone_strings(&self.args)
        };
        match format_override {
            Some(f) => match self.format_args(f) {
                Some(extra) => append_strings(&mut out, extra),
                None => {},
            },
            None => {},
        }
        out
    }

    /// A parsed recipe file made ready: rejected when its name or its
    /// `output_ext` is blank, otherwise with its name lowercased and its
    /// source recorded.
    pub fn validated(raw: Recipe, source: RecipeSource) -> (r: Result<Recipe, String>)
        ensures
            all_white(raw.name@) ==> (r matches Err(m) && m@ == "recipe name must not be empty"@),
            !all_white(raw.name@) && all_white(raw.output_ext@) ==> (r matches Err(m) && m@
                == "recipe output_ext must not be empty"@),
            !all_white(raw.name@) && !all_white(raw.output_ext@) && !formats_named_once(raw@) ==> (
            r matches Err(m) && m@ == "recipe formats must not name a format twice"@),
            !all_white(raw.name@) && !all_white(raw.output_ext@) && formats_named_once(raw@) ==> (
            r matches Ok(rec) && rec@ == (RecipeView {
                name: lowercase(raw@.name),
                source: match source {
                    RecipeSource::BuiltIn => None,
                    RecipeSource::User(p) => Some(p@),
                },
                ..raw@
            })),
            !all_white(raw.name@) && !all_white(raw.output_ext@) && formats_named_once(raw@)
                && all_ascii(raw.name@) ==> (r matches Ok(rec) && rec.name@ == ascii_lower_seq(
                raw.name@,
            )),
            r matches Ok(rec) ==> formats_named_once(rec@),
    {
        if trims_to_empty(raw.name.as_str()) {
            return Err(copy_str("recipe name must not be empty"));
        }
        if trims_to_empty(raw.output_ext.as_str()) {
            return Err(copy_str("recipe output_ext must not be empty"));
        }
        let once = formats_once(&raw.formats);
        proof {
            let fv = raw@.formats;
            let rf = raw.formats@;
            if once {
                assert forall|i: int, j: int| 0 <= i < j < fv.len() implies fv[i].0 != fv[j].0 by {
                    assert(fv[i].0 == rf[i].format@);
                    assert(fv[j].0 == rf[j].format@);
                }
            } else {
                let (i, j) = choose|i: int, j: int| 0 <= i < j < rf.len() && rf[i].format@ == rf[j].format@;
                assert(fv[i].0 == rf[i].format@);
                assert(fv[j].0 == rf[j].format@);
            }
        }
        if !once {
            return Err(copy_str("recipe formats must not name a format twice"));
        }
        let mut rec = raw;
        rec.name = to_lowercase(rec.name.as_str());
        rec.source = source;
        Ok(rec)
    }

    /// A built-in recipe made ready: its name lowercased, its source
    /// marked built-in.
    pub fn builtin(raw: Recipe) -> (r: Recipe)
        ensures
            r@ == (RecipeView { name: lowercase(raw@.name), source: None, ..raw@ }),
            all_ascii(raw.name@) ==> r.name@ == ascii_lower_seq(raw.name@),
    {
        let mut rec = raw;
        rec.name = to_lowercase(rec.name.as_str());
        rec.source = RecipeSource::BuiltIn;
        rec
    }
}

// ── Merging built-in and user recipes ────────────────────────────────

/// Index of the last recipe named `name` in `v[..end]`, or -1.
pub open spec fn last_named(v: Seq<RecipeView>, end: int, name: Seq<char>) -> int
    decreases end,
{
    if end <= 0 {
        -1
    } else if v[end - 1].name == name {
        end - 1
    } else {
        last_named(v, end - 1, name)
    }
}

/// `v` with the recipe `u` merged in: it replaces the last recipe of the
/// same name, or is appended when there is none.
pub open spec fn merge_one(v: Seq<RecipeView>, u: RecipeView) -> Seq<RecipeView> {
    let i = last_named(v, v.len() as int, u.name);
    if i >= 0 {
        v.update(i, u)
    } else {
        v.push(u)
    }
}

/// `v` with the first `k` user recipes merged in, in order.
pub open spec fn merge_all(v: Seq<RecipeView>, user: Seq<RecipeView>, k: int) -> Seq<RecipeView>
    decreases k,
{
    if k <= 0 {
        v
    } else {
        merge_one(merge_all(v, user, k - 1), user[k - 1])
    }
}

pub proof fn lemma_last_named(v: Seq<RecipeView>, end: int, name: Seq<char>)
    requires
        0 <= end <= v.len(),
    ensures
        -1 <= last_named(v, end, name) < end,
        last_named(v, end, name) >= 0 ==> v[last_named(v, end, name)].name == name,
        forall|j: int| last_named(v, end, name) < j < end ==> v[j].name != name,
    decreases end,
{
    if end > 0 && v[end - 1].name != name {
        lemma_last_named(v, end - 1, name);
    }
}

fn find_last_named(v: &Vec<Recipe>, name: &str) -> (r: Option<usize>)
    ensures
        match r {
            Some(i) => last_named(recipe_views(v@), v@.len() as int, name@) == i as int && i
                < v.len(),
            None => last_named(recipe_views(v@), v@.len() as int, name@) == -1,
        },
{
    let ghost rv = recipe_views(v@);
    let mut end = v.len();
    while end > 0
        invariant
            end <= v.len(),
            rv == recipe_views(v@),
            last_named(rv, end as int, name@) == last_named(rv, v@.len() as int, name@),
        decreases end,
    {
        assert(rv[end - 1] == v@[end - 1]@);
        if str_eq(v[end - 1].name.as_str(), name) {
            return Some(end - 1);
        }
        end = end - 1;
    }
    None
}

/// Load all recipes: the built-in ones with the user ones merged in. A
/// user recipe overrides the built-in of the same name (in its place);
/// one with a new name is appended.
pub fn load_all(builtin: Vec<Recipe>, user: Vec<Recipe>) -> (r: Vec<Recipe>)
    ensures
        recipe_views(r@) == merge_all(recipe_views(builtin@), recipe_views(user@), user@.len() as int),
{
    let mut out = builtin;
    let mut user = user;
    let ghost b = recipe_views(out@);
    let ghost u = recipe_views(user@);
    let ghost n = user@.len();
    assert(user@.len() == user.len());
    let mut k: usize = 0;
    while user.len() > 0
        invariant
            k + user@.len() == n,
            n <= usize::MAX,
            u.len() == n,
            forall|j: int| 0 <= j < user@.len() ==> #[trigger] user@[j]@ == u[k + j],
            recipe_views(out@) == merge_all(b, u, k as int),
        decreases user.len(),
    {
        assert(user@[0]@ == u[k + 0]);
        let rec = user.remove(0);
        assert(rec@ == u[k as int]);
        let ghost before = recipe_views(out@);
        match find_last_named(&out, rec.name.as_str()) {
            Some(i) => {
                out.set(i, rec);
                assert(recipe_views(out@) =~= before.update(i as int, u[k as int]));
            },
            None => {
                out.push(rec);
                assert(recipe_views(out@) =~= before.push(u[k as int]));
            },
        }
        k = k + 1;
    }
    out
}

// ── Usage counts ─────────────────────────────────────────────────────

/// The stored count for a recipe name: the first entry with that name.
pub open spec fn stored_count(usage: Seq<(Seq<char>, u64)>, name: Seq<char>, from: int) -> Option<u64>
    decreases usage.len() - from,
{
    if from < 0 || from >= usage.len() {
        None
    } else if usage[from].0 == name {
        Some(usage[from].1)
    } else {
        stored_count(usage, name, from + 1)
    }
}

/// A recipe with its stored usage count, when one is stored for its name.
pub open spec fn with_stored_count(r: RecipeView, usage: Seq<(Seq<char>, u64)>) -> RecipeView {
    match stored_count(usage, r.name, 0) {
        Some(c) => RecipeView { usage_count: c, ..r },
        None => r,
    }
}

/// The views of stored usage counts.
pub open spec fn usage_views(usage: Seq<(String, u64)>) -> Seq<(Seq<char>, u64)> {
    usage.map_values(|e: (String, u64)| (e.0@, e.1))
}

/// Whether no recipe name is stored twice (as in the map the counts are
/// kept in).
pub open spec fn named_once(usage: Seq<(Seq<char>, u64)>) -> bool {
    forall|i: int, j: int| 0 <= i < j < usage.len() ==> usage[i].0 != usage[j].0
}

proof fn lemma_stored_count_unique(u: Seq<(Seq<char>, u64)>, name: Seq<char>, j: int, from: int)
    requires
        named_once(u),
        0 <= from <= j < u.len(),
        u[j].0 == name,
    ensures
        stored_count(u, name, from) == Some(u[j].1),
    decreases j - from,
{
    if from < j {
        assert(u[from].0 != u[j].0);
        lemma_stored_count_unique(u, name, j, from + 1);
    }
}

fn find_count(usage: &Vec<(String, u64)>, name: &str) -> (r: Option<u64>)
    ensures
        r == stored_count(usage_views(usage@), name@, 0),
{
    let ghost uv = usage_views(usage@);
    let mut k: usize = usage.len();
    let mut found: Option<u64> = None;
    while k > 0
        invariant
            k <= usage.len(),
            uv == usage_views(usage@),
            found == stored_count(uv, name@, k as int),
        decreases k,
    {
        k = k - 1;
        assert(uv[k as int] == (usage@[k as int].0@, usage@[k as int].1));
        if str_eq(usage[k].0.as_str(), name) {
            found = Some(usage[k].1);
        }
    }
    found
}

/// Give each recipe the usage count stored for its name (the first stored
/// entry of that name); recipes with no stored count keep theirs.
pub fn apply_usage(recipes: &mut Vec<Recipe>, usage: &Vec<(String, u64)>)
    ensures
        recipe_views(final(recipes)@) == recipe_views(old(recipes)@).map_values(
            |r: RecipeView| with_stored_count(r, usage_views(usage@)),
        ),
        named_once(usage_views(usage@)) ==> forall|i: int, j: int|
            0 <= i < old(recipes)@.len() && 0 <= j < usage@.len() && #[trigger] usage@[j].0@
                == #[trigger] old(recipes)@[i].name@ ==> final(recipes)@[i].usage_count
                == usage@[j].1,
{
    let ghost before = recipe_views(recipes@);
    let ghost uv = usage_views(usage@);
    let mut i: usize = 0;
    while i < recipes.len()
        invariant
            i <= recipes.len(),
            recipes@.len() == before.len(),
            uv == usage_views(usage@),
            forall|j: int| 0 <= j < i ==> #[trigger] recipes@[j]@ == with_stored_count(before[j], uv),
            forall|j: int| i <= j < recipes@.len() ==> #[trigger] recipes@[j]@ == before[j],
        decreases recipes.len() - i,
    {
        assert(recipes@[i as int]@ == before[i as int]);
        let c = find_count(usage, recipes[i].name.as_str());
        let ghost old_rs = recipes@;
        assert(c == stored_count(uv, before[i as int].name, 0));
        match c {
            Some(n) => {
                let mut rec = recipes.remove(i);
                rec.usage_count = n;
                recipes.insert(i, rec);
                assert(recipes@ =~= old_rs.update(i as int, rec));
                assert(rec@ == RecipeView { usage_count: n, ..before[i as int] });
            },
            None => {},
        }
        assert(recipes@[i as int]@ == with_stored_count(before[i as int], uv));
        i = i + 1;
    }
    assert(recipe_views(recipes@) =~= before.map_values(|r: RecipeView| with_stored_count(r, uv)));
    proof {
        if named_once(uv) {
            assert forall|i: int, j: int|
                0 <= i < before.len() && 0 <= j < usage@.len() && #[trigger] usage@[j].0@
                    == #[trigger] old(recipes)@[i].name@ implies recipes@[i].usage_count
                == usage@[j].1 by {
                assert(uv[j] == (usage@[j].0@, usage@[j].1));
                assert(before[i] == old(recipes)@[i]@);
                lemma_stored_count_unique(uv, before[i].name, j, 0);
                assert(recipes@[i]@ == with_stored_count(before[i], uv));
            }
        }
    }
}

} // verus!
