//! Running a recipe: building the jobs for the selected files, the queue
//! of jobs, and what happens as each `magick` process starts and ends.

use vstd::prelude::*;
use vstd::string::*;
use crate::app::{
    effect_views, job_name, job_views, logged, App, AppModel, Effect, EffectView, JobView,
    LogLevel, Mode, ProcessingJob, Toggles,
};
use crate::app_ops::{
    ext_or_empty, guarded_output, lemma_effects_concat, no_effects,
};
use crate::app_view::{first_named, find_named, lemma_first_named};
use crate::fs_utils::{is_image, is_image_path, safe_output, safe_output_path};
use crate::magick::{argv_of, CommandBuilder};
use crate::paths::{
    file_name, file_name_or_empty, file_name_or_empty_str, join, join_path, path_extension,
    path_file_name,
};
use crate::recipe::{
    base_args, format_args_of, lemma_recipe_args_split, opt_str_view, recipe_args, recipe_output,
    recipe_views, Recipe, RecipeView,
};
use crate::text::{
    copy_str, decimal, join_strs, lowercase, to_lowercase, joined, lemma_strs_push, push_decimal, push_str, split_words,
    strs, words,
};

verus! {

// ── Jobs ──────────────────────────────────────────────────────────────

/// Where a job on `input` writes: the recipe's output path (moved into the
/// output directory of the edit popup when one is set, which needs the
/// path to have a file name), made safe as [`guarded_output`] says.
pub open spec fn job_output(m: AppModel, r: RecipeView, input: Seq<char>) -> Option<Seq<char>> {
    let out0 = recipe_output(r, input, m.format_override);
    let out = match m.edit_output_dir {
        Some(dir) => match file_name(out0) {
            Some(f) => Some(join(dir, f)),
            None => None,
        },
        None => Some(out0),
    };
    match out {
        Some(o) => Some(guarded_output(m, r, input, o)),
        None => None,
    }
}

/// The job for `input`: `magick -monitor {input} {args} {output} {extra}`.
pub open spec fn job_for(m: AppModel, r: RecipeView, input: Seq<char>) -> Option<JobView> {
    match job_output(m, r, input) {
        Some(out) => Some(
            JobView {
                recipe_name: r.name,
                input,
                output: out,
                argv: argv_of(input, recipe_args(r, m.format_override), Seq::empty(), out).insert(
                    1,
                    "-monitor"@,
                ) + words(m.edit_extra_args),
            },
        ),
        None => None,
    }
}

/// What the application found out about a selected path before a run.
pub struct RunInput {
    /// The path is a directory.
    pub is_dir: bool,
    /// The path is a regular file.
    pub is_file: bool,
    /// For a directory when runs are recursive: every entry of the walk
    /// below it (links followed, unreadable entries left out), in walk
    /// order, each with whether it is a regular file. Otherwise empty.
    pub walked: Vec<(String, bool)>,
}

/// The contents of a [`RunInput`].
pub struct RunInputView {
    pub is_dir: bool,
    pub is_file: bool,
    pub walked: Seq<(Seq<char>, bool)>,
}

impl View for RunInput {
    type V = RunInputView;

    open spec fn view(&self) -> RunInputView {
        RunInputView {
            is_dir: self.is_dir,
            is_file: self.is_file,
            walked: self.walked@.map_values(|e: (String, bool)| (e.0@, e.1)),
        }
    }
}

/// The views of the inputs of a run.
pub open spec fn input_views(v: Seq<RunInput>) -> Seq<RunInputView> {
    v.map_values(|i: RunInput| i@)
}

/// The jobs and the skip messages for the first `j` entries of a walk:
/// each regular file that is an image gives a job, or a message when no
/// job can be made for it.
pub open spec fn walk_plan(m: AppModel, r: RecipeView, w: Seq<(Seq<char>, bool)>, j: int) -> (
    Seq<JobView>,
    Seq<Seq<char>>,
)
    decreases j,
{
    if j <= 0 || j > w.len() {
        (Seq::empty(), Seq::empty())
    } else {
        let (q, sk) = walk_plan(m, r, w, j - 1);
        let (p, is_file) = w[j - 1];
        if is_file && is_image_path(p) {
            match job_for(m, r, p) {
                Some(job) => (q.push(job), sk),
                None => (q, sk.push("Skipping (could not build command): "@ + p)),
            }
        } else {
            (q, sk)
        }
    }
}

/// The jobs and skip messages for one selected path: the images found
/// below a directory when runs are recursive; the path itself when it is a
/// regular file and an image; otherwise a message.
pub open spec fn file_plan(m: AppModel, r: RecipeView, f: Seq<char>, inp: RunInputView) -> (
    Seq<JobView>,
    Seq<Seq<char>>,
) {
    if m.toggles.recursive && inp.is_dir {
        walk_plan(m, r, inp.walked, inp.walked.len() as int)
    } else if inp.is_file && is_image_path(f) {
        match job_for(m, r, f) {
            Some(job) => (seq![job], Seq::empty()),
            None => (Seq::empty(), seq!["Skipping file (could not build command): "@ + f]),
        }
    } else {
        (Seq::empty(), seq!["Skipping (not an image): "@ + f])
    }
}

/// The jobs and skip messages for the first `k` selected paths, in order.
pub open spec fn plan(
    m: AppModel,
    r: RecipeView,
    files: Seq<Seq<char>>,
    inputs: Seq<RunInputView>,
    k: int,
) -> (Seq<JobView>, Seq<Seq<char>>)
    decreases k,
{
    if k <= 0 || k > files.len() || k > inputs.len() {
        (Seq::empty(), Seq::empty())
    } else {
        let (q, sk) = plan(m, r, files, inputs, k - 1);
        let (q2, sk2) = file_plan(m, r, files[k - 1], inputs[k - 1]);
        (q + q2, sk + sk2)
    }
}

/// The state with each message logged in order.
pub open spec fn logged_all(m: AppModel, msgs: Seq<Seq<char>>, lvl: LogLevel) -> AppModel
    decreases msgs.len(),
{
    if msgs.len() == 0 {
        m
    } else {
        logged(logged_all(m, msgs.drop_last(), lvl), msgs.last(), lvl)
    }
}

/// Logging messages adds them, with the level, to the log and changes
/// nothing else.
pub proof fn lemma_logged_all(m: AppModel, msgs: Seq<Seq<char>>, lvl: LogLevel)
    ensures
        logged_all(m, msgs, lvl) == (AppModel {
            log: m.log + msgs.map_values(|x: Seq<char>| (x, lvl)),
            ..m
        }),
    decreases msgs.len(),
{
    if msgs.len() > 0 {
        lemma_logged_all(m, msgs.drop_last(), lvl);
        assert(m.log + msgs.map_values(|x: Seq<char>| (x, lvl)) =~= (m.log + msgs.drop_last().map_values(
            |x: Seq<char>| (x, lvl),
        )).push((msgs.last(), lvl)));
    } else {
        assert(m.log + msgs.map_values(|x: Seq<char>| (x, lvl)) =~= m.log);
    }
}

/// The dry-run log lines of a list of jobs.
pub open spec fn dry_run_lines(q: Seq<JobView>) -> Seq<Seq<char>> {
    q.map_values(|j: JobView| "[DRY-RUN] "@ + joined(j.argv, " "@))
}

/// The log line that ends a batch.
pub open spec fn batch_message(count: nat) -> Seq<char> {
    "Batch complete: "@ + decimal(count) + " file(s) processed"@
}

/// Starting the next job of the queue: when the queue is done, it is
/// emptied and the batch is logged; otherwise the job is logged and asked
/// to be spawned, with the spinner and progress reset.
#[verifier::opaque]
pub open spec fn queue_step(m: AppModel) -> (AppModel, Seq<EffectView>) {
    let idx = m.processing_queue_index;
    if idx >= m.processing_queue.len() {
        let m2 = logged(
            AppModel { processing_queue: Seq::empty(), processing_queue_index: 0, ..m },
            batch_message(m.processing_queue.len()),
            LogLevel::Success,
        );
        (AppModel { mode: Mode::Browse, ..m2 }, no_effects())
    } else {
        let argv = m.processing_queue[idx as int].argv;
        let m2 = logged(
            m,
            "["@ + decimal(idx as nat) + "] Running: "@ + joined(argv, " "@),
            LogLevel::Info,
        );
        (
            AppModel {
                mode: Mode::Run,
                toggles: Toggles { spinner_active: true, ..m2.toggles },
                spinner_frame: 0,
                process_output: Seq::empty(),
                progress_current: 0,
                progress_total: 0,
                progress_stage: Seq::empty(),
                ..m2
            },
            seq![EffectView::Spawn(argv)],
        )
    }
}

/// Running the selected recipe on the selected paths, given whether
/// `magick` is available and what each selected path is. The checks come
/// in order, each failing one logged: no process running, a recipe
/// selected, that recipe present, some path selected, `magick` available.
/// Then the paths give jobs and skip messages (which are logged); with no
/// job that is logged too; in a dry run the commands are logged; otherwise
/// the recipe's use is counted and the queue starts.
#[verifier::opaque]
pub open spec fn run_started(m: AppModel, available: bool, inputs: Seq<RunInputView>) -> (
    AppModel,
    Seq<EffectView>,
) {
    if m.toggles.process_running {
        (logged(m, "A process is already running"@, LogLevel::Error), no_effects())
    } else {
        match m.selected_recipe_name {
            None => (logged(m, "No recipe selected"@, LogLevel::Error), no_effects()),
            Some(name) => match first_named(m.recipes, name, 0) {
                None => (
                    logged(m, "Recipe '"@ + name + "' not found"@, LogLevel::Error),
                    no_effects(),
                ),
                Some(idx) => if m.selected_files.len() == 0 {
                    (
                        logged(m, "No files selected (use Space to select)"@, LogLevel::Error),
                        no_effects(),
                    )
                } else if !available {
                    (logged(m, "'magick' not found on $PATH"@, LogLevel::Error), no_effects())
                } else {
                    let r = m.recipes[idx];
                    let (q, sk) = plan(m, r, m.selected_files, inputs, m.selected_files.len() as int);
                    let m2 = logged_all(m, sk, LogLevel::Error);
                    if q.len() == 0 {
                        (logged(m2, "No valid jobs to run"@, LogLevel::Error), no_effects())
                    } else if m.toggles.dry_run {
                        (logged_all(m2, dry_run_lines(q), LogLevel::Info), no_effects())
                    } else {
                        queue_step(
                            AppModel {
                                recipes: m2.recipes.update(
                                    idx,
                                    RecipeView { usage_count: (r.usage_count + 1) as u64, ..r },
                                ),
                                processing_queue: q,
                                processing_queue_index: 0,
                                ..m2
                            },
                        )
                    }
                },
            },
        }
    }
}

/// The `[i] ` prefix of a job's log lines.
pub open spec fn job_tag(i: usize) -> Seq<char> {
    "["@ + decimal(i as nat) + "] "@
}

/// A job that could not be spawned: logged, the spinner stopped, and the
/// next job started when there is one.
#[verifier::opaque]
pub open spec fn spawn_failed_step(m: AppModel, e: Seq<char>) -> (AppModel, Seq<EffectView>) {
    let idx = m.processing_queue_index;
    let m2 = logged(m, job_tag(idx) + "Failed to spawn process: "@ + e, LogLevel::Error);
    let m3 = AppModel {
        toggles: Toggles { spinner_active: false, ..m2.toggles },
        mode: Mode::Browse,
        processing_queue_index: (idx + 1) as usize,
        ..m2
    };
    if m3.processing_queue_index < m3.processing_queue.len() {
        queue_step(m3)
    } else {
        (m3, no_effects())
    }
}

/// A process that ended: the spinner stops; success is logged and the
/// job's output goes on the undo list, failure is logged with the status;
/// then the next job starts (or the batch ends).
#[verifier::opaque]
pub open spec fn exit_step(m: AppModel, success: bool, status: Seq<char>) -> (
    AppModel,
    Seq<EffectView>,
) {
    let idx = m.processing_queue_index;
    queue_step(AppModel { processing_queue_index: (idx + 1) as usize, ..queue_step_input(m, success, status) })
}

/// The state after a process ended, before the next job starts: the
/// spinner stopped, the outcome logged, the output of a successful job on
/// the undo list.
#[verifier::opaque]
pub open spec fn queue_step_input(m: AppModel, success: bool, status: Seq<char>) -> AppModel {
    let idx = m.processing_queue_index;
    let m1 = AppModel {
        toggles: Toggles { process_running: false, spinner_active: false, ..m.toggles },
        ..m
    };
    let name = job_name(m.processing_queue, idx);
    if success {
        let m1b = if idx < m.processing_queue.len() {
            AppModel {
                generated_outputs: m1.generated_outputs.push(m.processing_queue[idx as int].output),
                ..m1
            }
        } else {
            m1
        };
        logged(m1b, job_tag(idx) + name + " completed successfully"@, LogLevel::Success)
    } else {
        logged(m1, job_tag(idx) + name + " failed with status: "@ + status, LogLevel::Error)
    }
}

/// Checking on the process failed: logged, the spinner stopped, the
/// interface back to browsing.
#[verifier::opaque]
pub open spec fn process_error_step(m: AppModel, e: Seq<char>) -> AppModel {
    let m2 = logged(
        AppModel {
            toggles: Toggles { process_running: false, spinner_active: false, ..m.toggles },
            ..m
        },
        "Error checking process: "@ + e,
        LogLevel::Error,
    );
    AppModel { mode: Mode::Browse, ..m2 }
}

/// Cancelling: when a process runs, it is killed, which is logged, and the
/// queue is dropped.
#[verifier::opaque]
pub open spec fn cancel_step(m: AppModel) -> (AppModel, Seq<EffectView>) {
    if m.toggles.process_running {
        let m2 = logged(m, "Process cancelled"@, LogLevel::Error);
        (
            AppModel {
                toggles: Toggles { process_running: false, spinner_active: false, ..m2.toggles },
                mode: Mode::Browse,
                processing_queue: Seq::empty(),
                processing_queue_index: 0,
                ..m2
            },
            seq![EffectView::Kill],
        )
    } else {
        (m, no_effects())
    }
}

// ── Executable forms ─────────────────────────────────────────────────

/// The views of the first `j` entries of a walk.
proof fn lemma_walk_views(w: Seq<(String, bool)>, j: int)
    requires
        0 <= j < w.len(),
    ensures
        w.map_values(|e: (String, bool)| (e.0@, e.1))[j] == (w[j].0@, w[j].1),
{
}

proof fn lemma_job_views_push(v: Seq<ProcessingJob>, x: ProcessingJob)
    ensures
        job_views(v.push(x)) == job_views(v).push(x@),
{
    assert(job_views(v.push(x)) =~= job_views(v).push(x@));
}

proof fn lemma_job_views_append(a: Seq<ProcessingJob>, b: Seq<ProcessingJob>)
    ensures
        job_views(a + b) == job_views(a) + job_views(b),
{
    assert(job_views(a + b) =~= job_views(a) + job_views(b));
}

proof fn lemma_strs_append(a: Seq<String>, b: Seq<String>)
    ensures
        strs(a + b) == strs(a) + strs(b),
{
    assert(strs(a + b) =~= strs(a) + strs(b));
}

/// Appends `b` to `a`.
fn append_jobs(a: &mut Vec<ProcessingJob>, b: Vec<ProcessingJob>)
    ensures
        job_views(final(a)@) == job_views(old(a)@) + job_views(b@),
{
    let mut b = b;
    proof {
        lemma_job_views_append(a@, b@);
    }
    a.append(&mut b);
}

/// Appends `b` to `a`.
fn append_strings(a: &mut Vec<String>, b: Vec<String>)
    ensures
        strs(final(a)@) == strs(old(a)@) + strs(b@),
{
    let mut b = b;
    proof {
        lemma_strs_append(a@, b@);
    }
    a.append(&mut b);
}

/// `prefix` followed by `s`.
fn prefixed(prefix: &str, s: &str) -> (r: String)
    ensures
        r@ == prefix@ + s@,
{
    let mut r = copy_str(prefix);
    push_str(&mut r, s);
    r
}

/// The `magick` run for one file of a headless batch: where it writes.
/// With an output directory, the file is the input's stem with the chosen
/// extension (the format override, or the recipe's output extension) in
/// that directory. Otherwise it is the recipe's output path beside the
/// input, made safe (see [`safe_output_path`]) with `suffix` unless a
/// format is given.
pub open spec fn headless_output(
    r: RecipeView,
    file: Seq<char>,
    fo: Option<Seq<char>>,
    dir: Option<Seq<char>>,
    suffix: Seq<char>,
) -> Seq<char> {
    match dir {
        Some(d) => join(d, recipe_output(r, file_name_or_empty(file), fo)),
        None => {
            let out = recipe_output(r, file, fo);
            if fo is Some {
                out
            } else {
                safe_output(file, ext_or_empty(out), suffix)
            }
        },
    }
}

/// The images of a walk: its regular files that are images, in walk
/// order.
pub open spec fn walk_images(w: Seq<(Seq<char>, bool)>) -> Seq<Seq<char>>
    decreases w.len(),
{
    if w.len() == 0 {
        Seq::empty()
    } else {
        let rest = walk_images(w.drop_last());
        let (p, is_file) = w.last();
        if is_file && is_image_path(p) {
            rest.push(p)
        } else {
            rest
        }
    }
}

/// The images a headless run takes from one path it was given: those
/// found below a directory when runs are recursive, otherwise the path
/// itself when it is a regular file and an image.
pub open spec fn headless_images(p: Seq<char>, inp: RunInputView, recursive: bool) -> Seq<Seq<char>> {
    if recursive && inp.is_dir {
        walk_images(inp.walked)
    } else if inp.is_file && is_image_path(p) {
        seq![p]
    } else {
        Seq::empty()
    }
}

/// The images a headless run takes from the first `k` paths, in order.
pub open spec fn headless_selection(
    paths: Seq<Seq<char>>,
    inputs: Seq<RunInputView>,
    recursive: bool,
    k: int,
) -> Seq<Seq<char>>
    decreases k,
{
    if k <= 0 || k > paths.len() || k > inputs.len() {
        Seq::empty()
    } else {
        headless_selection(paths, inputs, recursive, k - 1) + headless_images(
            paths[k - 1],
            inputs[k - 1],
            recursive,
        )
    }
}

fn walk_image_paths(w: &Vec<(String, bool)>) -> (r: Vec<String>)
    ensures
        strs(r@) == walk_images(w@.map_values(|e: (String, bool)| (e.0@, e.1))),
{
    let ghost wv = w@.map_values(|e: (String, bool)| (e.0@, e.1));
    let mut r: Vec<String> = Vec::new();
    let mut j: usize = 0;
    while j < w.len()
        invariant
            j <= w.len(),
            wv == w@.map_values(|e: (String, bool)| (e.0@, e.1)),
            strs(r@) == walk_images(wv.subrange(0, j as int)),
        decreases w.len() - j,
    {
        proof {
            lemma_walk_views(w@, j as int);
            assert(wv.subrange(0, j + 1).drop_last() =~= wv.subrange(0, j as int));
        }
        if w[j].1 && is_image(w[j].0.as_str()) {
            let p = w[j].0.clone();
            proof {
                lemma_strs_push(r@, p);
            }
            r.push(p);
        }
        j = j + 1;
    }
    assert(wv.subrange(0, w@.len() as int) =~= wv);
    r
}

/// The images a headless run takes from the paths it was given (after
/// glob expansion), each path with what it is, as
/// [`headless_selection`] says.
pub fn headless_files(paths: &Vec<String>, inputs: &Vec<RunInput>, recursive: bool) -> (r: Vec<
    String,
>)
    requires
        paths@.len() == inputs@.len(),
    ensures
        strs(r@) == headless_selection(strs(paths@), input_views(inputs@), recursive, paths@.len() as int),
{
    let mut r: Vec<String> = Vec::new();
    let mut k: usize = 0;
    while k < paths.len()
        invariant
            k <= paths.len(),
            paths@.len() == inputs@.len(),
            strs(r@) == headless_selection(strs(paths@), input_views(inputs@), recursive, k as int),
        decreases paths.len() - k,
    {
        assert(strs(paths@)[k as int] == paths@[k as int]@);
        assert(input_views(inputs@)[k as int] == inputs@[k as int]@);
        let inp = &inputs[k];
        if recursive && inp.is_dir {
            let found = walk_image_paths(&inp.walked);
            append_strings(&mut r, found);
        } else if inp.is_file && is_image(paths[k].as_str()) {
            let p = paths[k].clone();
            proof {
                lemma_strs_push(r@, p);
                assert(seq![p@] =~= Seq::<Seq<char>>::empty().push(p@));
            }
            r.push(p);
        }
        k = k + 1;
    }
    r
}

/// The recipe a headless run asks for by name: the first one whose name
/// is the requested name lowercased (recipe names are lowercased on load).
pub fn headless_recipe(recipes: &Vec<Recipe>, requested: &str) -> (r: Option<usize>)
    ensures
        match r {
            Some(i) => first_named(recipe_views(recipes@), lowercase(requested@), 0) == Some(i as int),
            None => first_named(recipe_views(recipes@), lowercase(requested@), 0) is None,
        },
{
    let name = to_lowercase(requested);
    find_named(recipes, name.as_str())
}

/// The output file name the command preview shows for an input: the
/// recipe's output rule applied to the input's file name.
pub open spec fn preview_output(r: RecipeView, input: Seq<char>, fo: Option<Seq<char>>) -> Seq<char> {
    recipe_output(r, file_name_or_empty(input), fo)
}

/// The command the preview panel shows for a recipe on an input: the
/// output file name, and `magick`, the input's file name, the recipe's
/// base arguments, the chosen format's arguments and the output name.
pub fn command_preview(recipe: &Recipe, input: &str, format_override: Option<&str>) -> (r: (
    String,
    Vec<String>,
))
    ensures
        r.0@ == preview_output(recipe@, input@, opt_str_view(format_override)),
        strs(r.1@) == seq!["magick"@, file_name_or_empty(input@)] + base_args(recipe@)
            + format_args_of(recipe@, opt_str_view(format_override)) + seq![r.0@],
{
    let name = file_name_or_empty_str(input);
    let out = recipe.output_path(name.as_str(), format_override);
    let args = recipe.resolved_args(format_override);
    let none: Vec<String> = Vec::new();
    assert(strs(none@) =~= Seq::<Seq<char>>::empty());
    let argv = CommandBuilder::build_argv(name.as_str(), &args, &none, out.as_str());
    proof {
        lemma_recipe_args_split(recipe@, opt_str_view(format_override));
        assert(strs(argv@) =~= seq!["magick"@, file_name_or_empty(input@)] + base_args(recipe@)
            + format_args_of(recipe@, opt_str_view(format_override)) + seq![out@]);
    }
    (out, argv)
}

/// The output path and the argument vector for one file of a headless
/// batch run; `suffix` is the one added when the output would keep the
/// input's format.
pub fn headless_job(
    recipe: &Recipe,
    file: &str,
    format_override: Option<&str>,
    output_dir: Option<&str>,
    suffix: &str,
) -> (r: (String, Vec<String>))
    ensures
        r.0@ == headless_output(
            recipe@,
            file@,
            opt_str_view(format_override),
            opt_str_view(output_dir),
            suffix@,
        ),
        strs(r.1@) == argv_of(
            file@,
            recipe_args(recipe@, opt_str_view(format_override)),
            Seq::empty(),
            r.0@,
        ),
{
    let safe = match output_dir {
        Some(d) => {
            let name = file_name_or_empty_str(file);
            let out = recipe.output_path(name.as_str(), format_override);
            join_path(d, out.as_str())
        },
        None => {
            let out = recipe.output_path(file, format_override);
            if format_override.is_some() {
                out
            } else {
                let ext = match path_extension(out.as_str()) {
                    Some(e) => e,
                    None => String::new(),
                };
                safe_output_path(file, ext.as_str(), suffix)
            }
        },
    };
    let args = recipe.resolved_args(format_override);
    let none: Vec<String> = Vec::new();
    assert(strs(none@) =~= Seq::<Seq<char>>::empty());
    let argv = CommandBuilder::build_argv(file, &args, &none, safe.as_str());
    (safe, argv)
}

impl App {
    /// The job for one input file (see [`job_for`]); none when the output
    /// directory is set and the output path has no file name.
    pub fn build_command_for_file(&self, recipe: &Recipe, input: &str) -> (r: Option<ProcessingJob>)
        ensures
            match r {
                Some(j) => job_for(self@, recipe@, input@) == Some(j@),
                None => job_for(self@, recipe@, input@) is None,
            },
    {
        let fo = match &self.format_override {
            Some(f) => Some(f.as_str()),
            None => None,
        };
        let out0 = recipe.output_path(input, fo);
        let out = match &self.edit_output_dir {
            Some(dir) => match path_file_name(out0.as_str()) {
                Some(f) => join_path(dir.as_str(), f.as_str()),
                None => {
                    return None;
                },
            },
            None => out0,
        };
        let safe = self.guard_output(recipe, input, out);
        let args = recipe.resolved_args(fo);
        let none: Vec<String> = Vec::new();
        assert(strs(none@) =~= Seq::<Seq<char>>::empty());
        let mut argv = CommandBuilder::build_argv(input, &args, &none, safe.as_str());
        let ghost a0 = strs(argv@);
        let mon = copy_str("-monitor");
        argv.insert(1, mon);
        assert(strs(argv@) =~= a0.insert(1, "-monitor"@));
        let extra = split_words(self.edit_extra_args.as_str());
        append_strings(&mut argv, extra);
        Some(ProcessingJob { recipe_name: recipe.name.clone(), input: copy_str(input), output: safe, argv })
    }

    fn walk_jobs(&self, recipe: &Recipe, w: &Vec<(String, bool)>) -> (r: (
        Vec<ProcessingJob>,
        Vec<String>,
    ))
        ensures
            (job_views(r.0@), strs(r.1@)) == walk_plan(
                self@,
                recipe@,
                w@.map_values(|e: (String, bool)| (e.0@, e.1)),
                w@.len() as int,
            ),
    {
        let ghost wv = w@.map_values(|e: (String, bool)| (e.0@, e.1));
        let mut q: Vec<ProcessingJob> = Vec::new();
        let mut sk: Vec<String> = Vec::new();
        let mut j: usize = 0;
        while j < w.len()
            invariant
                j <= w.len(),
                wv == w@.map_values(|e: (String, bool)| (e.0@, e.1)),
                (job_views(q@), strs(sk@)) == walk_plan(self@, recipe@, wv, j as int),
            decreases w.len() - j,
        {
            proof {
                lemma_walk_views(w@, j as int);
            }
            if w[j].1 && is_image(w[j].0.as_str()) {
                match self.build_command_for_file(recipe, w[j].0.as_str()) {
                    Some(job) => {
                        proof {
                            lemma_job_views_push(q@, job);
                        }
                        q.push(job);
                    },
                    None => {
                        let msg = prefixed("Skipping (could not build command): ", w[j].0.as_str());
                        proof {
                            lemma_strs_push(sk@, msg);
                        }
                        sk.push(msg);
                    },
                }
            }
            j = j + 1;
        }
        (q, sk)
    }

    fn file_jobs(&self, recipe: &Recipe, f: &str, inp: &RunInput) -> (r: (
        Vec<ProcessingJob>,
        Vec<String>,
    ))
        ensures
            (job_views(r.0@), strs(r.1@)) == file_plan(self@, recipe@, f@, inp@),
    {
        let mut q: Vec<ProcessingJob> = Vec::new();
        let mut sk: Vec<String> = Vec::new();
        if self.toggles.recursive && inp.is_dir {
            return self.walk_jobs(recipe, &inp.walked);
        } else if inp.is_file && is_image(f) {
            match self.build_command_for_file(recipe, f) {
                Some(job) => {
                    proof {
                        lemma_job_views_push(q@, job);
                    }
                    q.push(job);
                    assert(strs(sk@) =~= Seq::<Seq<char>>::empty());
                },
                None => {
                    let msg = prefixed("Skipping file (could not build command): ", f);
                    proof {
                        lemma_strs_push(sk@, msg);
                    }
                    sk.push(msg);
                    assert(job_views(q@) =~= Seq::<JobView>::empty());
                },
            }
        } else {
            let msg = prefixed("Skipping (not an image): ", f);
            proof {
                lemma_strs_push(sk@, msg);
            }
            sk.push(msg);
            assert(job_views(q@) =~= Seq::<JobView>::empty());
        }
        (q, sk)
    }

    fn plan_jobs(&self, recipe: &Recipe, inputs: &Vec<RunInput>) -> (r: (
        Vec<ProcessingJob>,
        Vec<String>,
    ))
        requires
            inputs@.len() == self.selected_files@.len(),
        ensures
            (job_views(r.0@), strs(r.1@)) == plan(
                self@,
                recipe@,
                self@.selected_files,
                input_views(inputs@),
                self@.selected_files.len() as int,
            ),
    {
        let mut q: Vec<ProcessingJob> = Vec::new();
        let mut sk: Vec<String> = Vec::new();
        let mut k: usize = 0;
        while k < self.selected_files.len()
            invariant
                k <= self.selected_files.len(),
                inputs@.len() == self.selected_files@.len(),
                (job_views(q@), strs(sk@)) == plan(
                    self@,
                    recipe@,
                    self@.selected_files,
                    input_views(inputs@),
                    k as int,
                ),
            decreases self.selected_files.len() - k,
        {
            assert(self@.selected_files[k as int] == self.selected_files@[k as int]@);
            assert(input_views(inputs@)[k as int] == inputs@[k as int]@);
            let (q2, sk2) = self.file_jobs(recipe, self.selected_files[k].as_str(), &inputs[k]);
            append_jobs(&mut q, q2);
            append_strings(&mut sk, sk2);
            k = k + 1;
        }
        (q, sk)
    }

    /// Log each message in order.
    pub fn log_all(&mut self, msgs: Vec<String>, level: LogLevel)
        ensures
            final(self)@ == logged_all(old(self)@, strs(msgs@), level),
    {
        let ghost start = self@;
        let ghost all = strs(msgs@);
        let mut rest = msgs;
        let mut i: usize = 0;
        let ghost n = all.len();
        assert(rest@.len() == rest.len());
        while rest.len() > 0
            invariant
                i + rest@.len() == n,
                n == all.len(),
                n <= usize::MAX,
                forall|j: int| 0 <= j < rest@.len() ==> #[trigger] rest@[j]@ == all[i + j],
                self@ == logged_all(start, all.subrange(0, i as int), level),
            decreases rest.len(),
        {
            assert(rest@[0]@ == all[i + 0]);
            let m = rest.remove(0);
            let ghost cur = all.subrange(0, i + 1);
            assert(cur.drop_last() =~= all.subrange(0, i as int));
            self.add_log(m, level);
            i = i + 1;
        }
        assert(all.subrange(0, n as int) =~= all);
    }

    fn dry_run_log(&self, q: &Vec<ProcessingJob>) -> (r: Vec<String>)
        ensures
            strs(r@) == dry_run_lines(job_views(q@)),
    {
        let mut r: Vec<String> = Vec::new();
        let mut i: usize = 0;
        while i < q.len()
            invariant
                i <= q.len(),
                strs(r@) == dry_run_lines(job_views(q@)).subrange(0, i as int),
            decreases q.len() - i,
        {
            let line = join_strs(&q[i].argv, " ");
            let msg = prefixed("[DRY-RUN] ", line.as_str());
            proof {
                lemma_strs_push(r@, msg);
            }
            r.push(msg);
            i = i + 1;
            assert(strs(r@) =~= dry_run_lines(job_views(q@)).subrange(0, i as int));
        }
        assert(dry_run_lines(job_views(q@)).subrange(0, q@.len() as int) =~= dry_run_lines(job_views(q@)));
        r
    }

    fn start_queue(&mut self, idx: usize, q: Vec<ProcessingJob>)
        requires
            idx < old(self).recipes@.len(),
            old(self).recipes@[idx as int].usage_count < u64::MAX,
        ensures
            final(self)@ == (AppModel {
                recipes: old(self)@.recipes.update(
                    idx as int,
                    RecipeView {
                        usage_count: (old(self)@.recipes[idx as int].usage_count + 1) as u64,
                        ..old(self)@.recipes[idx as int]
                    },
                ),
                processing_queue: job_views(q@),
                processing_queue_index: 0,
                ..old(self)@
            }),
    {
        let ghost before = self.recipes@;
        let mut rec = self.recipes.remove(idx);
        rec.usage_count = rec.usage_count + 1;
        let ghost rv = rec@;
        self.recipes.insert(idx, rec);
        assert(self.recipes@ =~= before.update(idx as int, rec));
        assert(recipe_views(self.recipes@) =~= recipe_views(before).update(idx as int, rv));
        self.processing_queue = q;
        self.processing_queue_index = 0;
    }

    /// Run the selected recipe on the selected paths (see
    /// [`run_started`]), given whether `magick` is available and, for each
    /// selected path in order, what it is.
    pub fn run_current(&mut self, magick_available: bool, inputs: Vec<RunInput>) -> (r: Vec<Effect>)
        requires
            inputs@.len() == old(self).selected_files@.len(),
            crate::app_view::selected_index(old(self)@) matches Some(i)
                ==> old(self)@.recipes[i].usage_count < u64::MAX,
        ensures
            final(self)@ == run_started(old(self)@, magick_available, input_views(inputs@)).0,
            effect_views(r@) == run_started(old(self)@, magick_available, input_views(inputs@)).1,
    {
        proof {
            reveal(run_started);
        }
        let ghost m = self@;
        let none: Vec<Effect> = Vec::new();
        assert(effect_views(none@) =~= no_effects());
        if self.toggles.process_running {
            self.add_log(copy_str("A process is already running"), LogLevel::Error);
            return none;
        }
        let name = match &self.selected_recipe_name {
            Some(n) => n.clone(),
            None => {
                self.add_log(copy_str("No recipe selected"), LogLevel::Error);
                return none;
            },
        };
        let idx = match find_named(&self.recipes, name.as_str()) {
            Some(i) => i,
            None => {
                let mut msg = prefixed("Recipe '", name.as_str());
                push_str(&mut msg, "' not found");
                self.add_log(msg, LogLevel::Error);
                return none;
            },
        };
        proof {
            lemma_first_named(self@.recipes, name@, 0);
        }
        if self.selected_files.len() == 0 {
            self.add_log(copy_str("No files selected (use Space to select)"), LogLevel::Error);
            return none;
        }
        if !magick_available {
            self.add_log(copy_str("'magick' not found on $PATH"), LogLevel::Error);
            return none;
        }
        assert(self.recipes@[idx as int]@ == m.recipes[idx as int]);
        let (q, sk) = self.plan_jobs(&self.recipes[idx], &inputs);
        let ghost skv = strs(sk@);
        self.log_all(sk, LogLevel::Error);
        proof {
            lemma_logged_all(m, skv, LogLevel::Error);
        }
        if q.len() == 0 {
            self.add_log(copy_str("No valid jobs to run"), LogLevel::Error);
            return none;
        }
        if self.toggles.dry_run {
            let lines = self.dry_run_log(&q);
            let ghost m2 = self@;
            let ghost lv = strs(lines@);
            self.log_all(lines, LogLevel::Info);
            proof {
                lemma_logged_all(m2, lv, LogLevel::Info);
            }
            return none;
        }
        self.start_queue(idx, q);
        self.run_next_in_queue()
    }

    fn finish_batch(&mut self)
        requires
            old(self)@.processing_queue_index >= old(self)@.processing_queue.len(),
        ensures
            final(self)@ == queue_step(old(self)@).0,
    {
        proof {
            reveal(queue_step);
        }
        let count = self.processing_queue.len();
        self.processing_queue = Vec::new();
        self.processing_queue_index = 0;
        assert(job_views(self.processing_queue@) =~= Seq::<JobView>::empty());
        let mut msg = copy_str("Batch complete: ");
        push_decimal(&mut msg, count as u64);
        push_str(&mut msg, " file(s) processed");
        self.add_log(msg, LogLevel::Success);
        self.mode = Mode::Browse;
    }

    fn reset_progress(&mut self)
        ensures
            final(self)@ == (AppModel {
                mode: Mode::Run,
                toggles: Toggles { spinner_active: true, ..old(self)@.toggles },
                spinner_frame: 0,
                process_output: Seq::empty(),
                progress_current: 0,
                progress_total: 0,
                progress_stage: Seq::empty(),
                ..old(self)@
            }),
    {
        self.mode = Mode::Run;
        self.toggles = Toggles { spinner_active: true, ..self.toggles };
        self.spinner_frame = 0;
        self.process_output = String::new();
        self.progress_current = 0;
        self.progress_total = 0;
        self.progress_stage = String::new();
    }

    /// Start the next job of the queue (see [`queue_step`]).
    pub fn run_next_in_queue(&mut self) -> (r: Vec<Effect>)
        ensures
            final(self)@ == queue_step(old(self)@).0,
            effect_views(r@) == queue_step(old(self)@).1,
    {
        proof {
            reveal(queue_step);
        }
        let mut r: Vec<Effect> = Vec::new();
        let idx = self.processing_queue_index;
        if idx >= self.processing_queue.len() {
            self.finish_batch();
            assert(effect_views(r@) =~= no_effects());
            return r;
        }
        assert(self@.processing_queue[idx as int] == self.processing_queue@[idx as int]@);
        let argv = crate::recipe::clone_strings(&self.processing_queue[idx].argv);
        let mut msg = copy_str("[");
        push_decimal(&mut msg, idx as u64);
        push_str(&mut msg, "] Running: ");
        let line = join_strs(&argv, " ");
        push_str(&mut msg, line.as_str());
        self.add_log(msg, LogLevel::Info);
        self.reset_progress();
        let ghost av = strs(argv@);
        r.push(Effect::Spawn(argv));
        assert(effect_views(r@) =~= seq![EffectView::Spawn(av)]);
        r
    }

    /// The process of the current job started.
    pub fn spawned(&mut self)
        ensures
            final(self)@ == (AppModel {
                toggles: Toggles { process_running: true, ..old(self)@.toggles },
                ..old(self)@
            }),
    {
        self.toggles = Toggles { process_running: true, ..self.toggles };
    }

    fn stop_after_spawn_failure(&mut self)
        requires
            old(self).processing_queue_index < usize::MAX,
        ensures
            final(self)@ == (AppModel {
                toggles: Toggles { spinner_active: false, ..old(self)@.toggles },
                mode: Mode::Browse,
                processing_queue_index: (old(self)@.processing_queue_index + 1) as usize,
                ..old(self)@
            }),
    {
        self.toggles = Toggles { spinner_active: false, ..self.toggles };
        self.mode = Mode::Browse;
        self.processing_queue_index = self.processing_queue_index + 1;
    }

    /// The process of the current job could not be started (the error).
    pub fn spawn_failed(&mut self, error: String) -> (r: Vec<Effect>)
        requires
            old(self).processing_queue_index < usize::MAX,
        ensures
            final(self)@ == spawn_failed_step(old(self)@, error@).0,
            effect_views(r@) == spawn_failed_step(old(self)@, error@).1,
    {
        proof {
            reveal(spawn_failed_step);
        }
        let mut msg = copy_str("[");
        push_decimal(&mut msg, self.processing_queue_index as u64);
        push_str(&mut msg, "] ");
        push_str(&mut msg, "Failed to spawn process: ");
        push_str(&mut msg, error.as_str());
        self.add_log(msg, LogLevel::Error);
        self.stop_after_spawn_failure();
        if self.processing_queue_index < self.processing_queue.len() {
            self.run_next_in_queue()
        } else {
            let r: Vec<Effect> = Vec::new();
            assert(effect_views(r@) =~= no_effects());
            r
        }
    }

    fn record_exit(&mut self, success: bool, status: String)
        ensures
            final(self)@ == (AppModel {
                processing_queue_index: old(self)@.processing_queue_index,
                ..queue_step_input(old(self)@, success, status@)
            }),
    {
        proof {
            reveal(queue_step_input);
        }
        let idx = self.processing_queue_index;
        self.toggles = Toggles { process_running: false, spinner_active: false, ..self.toggles };
        let name = crate::app::handle_to_job_name(&self.processing_queue, idx);
        let mut msg = copy_str("[");
        push_decimal(&mut msg, idx as u64);
        push_str(&mut msg, "] ");
        push_str(&mut msg, name.as_str());
        if success {
            if idx < self.processing_queue.len() {
                assert(self@.processing_queue[idx as int] == self.processing_queue@[idx as int]@);
                let out = self.processing_queue[idx].output.clone();
                proof {
                    lemma_strs_push(self.generated_outputs@, out);
                }
                self.generated_outputs.push(out);
            }
            push_str(&mut msg, " completed successfully");
            self.add_log(msg, LogLevel::Success);
        } else {
            push_str(&mut msg, " failed with status: ");
            push_str(&mut msg, status.as_str());
            self.add_log(msg, LogLevel::Error);
        }
    }

    /// The process of the current job ended, successfully or with the
    /// given status.
    pub fn process_exited(&mut self, success: bool, status: String) -> (r: Vec<Effect>)
        requires
            old(self).processing_queue_index < usize::MAX,
        ensures
            final(self)@ == exit_step(old(self)@, success, status@).0,
            effect_views(r@) == exit_step(old(self)@, success, status@).1,
    {
        proof {
            reveal(exit_step);
        }
        self.record_exit(success, status);
        self.processing_queue_index = self.processing_queue_index + 1;
        self.run_next_in_queue()
    }

    /// Checking on the process failed (the error).
    pub fn process_error(&mut self, error: String)
        ensures
            final(self)@ == process_error_step(old(self)@, error@),
    {
        proof {
            reveal(process_error_step);
        }
        self.toggles = Toggles { process_running: false, spinner_active: false, ..self.toggles };
        let msg = prefixed("Error checking process: ", error.as_str());
        self.add_log(msg, LogLevel::Error);
        self.mode = Mode::Browse;
    }

    /// Cancel the running process, if any: ask for it to be killed and
    /// drop the queue.
    pub fn cancel_run(&mut self) -> (r: Vec<Effect>)
        ensures
            final(self)@ == cancel_step(old(self)@).0,
            effect_views(r@) == cancel_step(old(self)@).1,
    {
        proof {
            reveal(cancel_step);
        }
        let mut r: Vec<Effect> = Vec::new();
        if self.toggles.process_running {
            self.add_log(copy_str("Process cancelled"), LogLevel::Error);
            self.toggles = Toggles { process_running: false, spinner_active: false, ..self.toggles };
            self.mode = Mode::Browse;
            self.processing_queue = Vec::new();
            self.processing_queue_index = 0;
            assert(job_views(self.processing_queue@) =~= Seq::<JobView>::empty());
            r.push(Effect::Kill);
            assert(effect_views(r@) =~= seq![EffectView::Kill]);
        } else {
            assert(effect_views(r@) =~= no_effects());
        }
        r
    }
}

} // verus!
