use lazymagick::app_keys::starts_recipe_filter;
use lazymagick::app::{
    chrono_or_fallback, format_clock, App, Effect, EditField, Focus, Key, KeyCode, LogLevel,
    Mode, Modifiers, Probe, SortOrder,
};
use lazymagick::app_ops::progress_fields;
use lazymagick::app_run::{command_preview, headless_files, headless_job, headless_recipe, RunInput};
use lazymagick::fs_utils::DirListing;
use lazymagick::recipe::{FormatArgs, Recipe, RecipeSource, Stage};

fn strings(v: &[&str]) -> Vec<String> {
    v.iter().map(|s| s.to_string()).collect()
}

fn recipe(name: &str, category: Option<&str>, ext: &str, stage: &[&str], formats: &[(&str, &[&str])]) -> Recipe {
    let raw = Recipe {
        name: name.to_string(),
        description: format!("{name} recipe"),
        category: category.map(|c| c.to_string()),
        usage_count: 0,
        tags: Vec::new(),
        stages: vec![Stage { flags: strings(stage) }],
        output_ext: ext.to_string(),
        args: Vec::new(),
        formats: formats
            .iter()
            .map(|(f, a)| FormatArgs { format: f.to_string(), args: strings(a) })
            .collect(),
        source: RecipeSource::BuiltIn,
    };
    Recipe::validated(raw, RecipeSource::BuiltIn).ok().unwrap()
}

fn recipes() -> Vec<Recipe> {
    vec![
        recipe("webp 85", Some("web"), "webp", &["-strip"], &[("webp", &["-quality", "85"])]),
        recipe(
            "Avif 50",
            Some("modern"),
            "avif",
            &["-strip"],
            &[("webp", &["-quality", "85"]), ("avif", &["-quality", "50"])],
        ),
        recipe("grayscale", None, "auto", &["-colorspace", "Gray"], &[]),
    ]
}

fn listing() -> DirListing {
    DirListing::from_entries(vec![
        ("/pics/notes.txt".to_string(), false),
        ("/pics/cat.png".to_string(), false),
        ("/pics/sub".to_string(), true),
        ("/pics/.hidden.png".to_string(), false),
    ])
}

fn app() -> App {
    App::new(recipes(), "/pics".to_string(), listing())
}

fn key(code: KeyCode) -> Key {
    Key { code, modifiers: Modifiers::Plain }
}

fn ch(c: char) -> Key {
    key(KeyCode::Char(c))
}

fn probe() -> Probe {
    Probe { cursor_is_file: true, cursor_is_dir: false, browser_path_is_dir: true, browser_entry_is_dir: true }
}

fn press(app: &mut App, k: Key) -> Vec<Effect> {
    app.on_key(k, probe())
}

fn last_log(app: &App) -> (String, LogLevel) {
    let e = app.log_entries.last().unwrap();
    (e.message().clone(), e.level())
}

/// An app with the file `cat.png` selected and the recipe `webp 85` chosen.
fn ready_app() -> App {
    let mut a = app();
    press(&mut a, key(KeyCode::Tab));
    press(&mut a, ch('j'));
    press(&mut a, ch(' '));
    press(&mut a, key(KeyCode::Tab));
    press(&mut a, key(KeyCode::Tab));
    press(&mut a, key(KeyCode::Tab));
    assert_eq!(a.focus, Focus::Recipe);
    press(&mut a, key(KeyCode::Down));
    press(&mut a, key(KeyCode::Down));
    press(&mut a, key(KeyCode::Enter));
    assert_eq!(a.selected_recipe_name, Some("webp 85".to_string()));
    press(&mut a, key(KeyCode::Tab));
    a
}

fn image_input() -> Vec<RunInput> {
    vec![RunInput { is_dir: false, is_file: true, walked: Vec::new() }]
}

#[test]
fn a_new_app_browses_recipes_sorted_by_name() {
    let a = app();
    assert_eq!(a.mode, Mode::Browse);
    assert_eq!(a.focus, Focus::Recipe);
    assert_eq!(a.recipe_sort, SortOrder::Name);
    let names: Vec<&str> = a.recipes.iter().map(|r| r.name.as_str()).collect();
    assert_eq!(names, vec!["avif 50", "grayscale", "webp 85"]);
    assert_eq!(a.available_formats, vec!["avif", "webp"]);
    assert_eq!(a.file_visible_count(), 3);
    assert_eq!(a.visible_entries(), vec!["/pics/sub", "/pics/cat.png", "/pics/notes.txt"]);
    assert!(a.log_entries.is_empty());
}

#[test]
fn tab_and_back_tab_cycle_the_panels() {
    let mut a = app();
    let order = [Focus::File, Focus::Command, Focus::Log, Focus::Recipe];
    for f in order {
        press(&mut a, key(KeyCode::Tab));
        assert_eq!(a.focus, f);
    }
    press(&mut a, key(KeyCode::BackTab));
    assert_eq!(a.focus, Focus::Log);
    press(&mut a, ch('2'));
    assert_eq!(a.focus, Focus::File);
    press(&mut a, ch('4'));
    assert_eq!(a.focus, Focus::Log);
    press(&mut a, ch('3'));
    assert_eq!(a.focus, Focus::Command);
    press(&mut a, ch('1'));
    assert_eq!(a.focus, Focus::Recipe);
}

#[test]
fn q_and_control_q_quit() {
    let mut a = app();
    press(&mut a, key(KeyCode::Tab));
    press(&mut a, ch('q'));
    assert!(a.toggles.should_quit);
    let mut b = app();
    b.on_key(Key { code: KeyCode::Char('q'), modifiers: Modifiers::Control }, probe());
    assert!(b.toggles.should_quit);
}

#[test]
fn help_overlay_takes_the_keys_until_closed() {
    let mut a = app();
    press(&mut a, ch('?'));
    assert_eq!(a.mode, Mode::Help);
    assert!(a.toggles.show_help);
    press(&mut a, key(KeyCode::Tab));
    assert_eq!(a.focus, Focus::Recipe);
    press(&mut a, key(KeyCode::Esc));
    assert_eq!(a.mode, Mode::Browse);
    assert!(!a.toggles.show_help);
}

#[test]
fn moving_in_the_file_panel_asks_for_a_preview() {
    let mut a = app();
    press(&mut a, key(KeyCode::Tab));
    let fx = press(&mut a, ch('j'));
    assert_eq!(a.file_cursor, 1);
    assert_eq!(fx.len(), 1);
    assert!(matches!(&fx[0], Effect::Identify(p) if p == "/pics/cat.png"));
    press(&mut a, ch('j'));
    press(&mut a, ch('j'));
    assert_eq!(a.file_cursor, 2);
    press(&mut a, ch('k'));
    assert_eq!(a.file_cursor, 1);
}

#[test]
fn dot_shows_hidden_files() {
    let mut a = app();
    press(&mut a, key(KeyCode::Tab));
    press(&mut a, ch('.'));
    assert!(a.toggles.show_hidden);
    assert_eq!(a.file_visible_count(), 4);
    assert_eq!(a.visible_entry_at(1), Some("/pics/.hidden.png".to_string()));
    press(&mut a, ch('.'));
    assert!(!a.toggles.show_hidden);
}

#[test]
fn space_toggles_the_selection() {
    let mut a = app();
    press(&mut a, key(KeyCode::Tab));
    press(&mut a, ch('j'));
    press(&mut a, ch(' '));
    assert_eq!(a.selected_files, vec!["/pics/cat.png"]);
    press(&mut a, ch(' '));
    assert!(a.selected_files.is_empty());
}

#[test]
fn enter_on_a_directory_changes_into_it() {
    let mut a = app();
    press(&mut a, key(KeyCode::Tab));
    let fx = a.on_key(key(KeyCode::Enter), Probe { cursor_is_file: false, cursor_is_dir: true, ..probe() });
    assert_eq!(fx.len(), 1);
    assert!(matches!(&fx[0], Effect::ChangeDirectory { path, check_dir: true } if path == "/pics/sub"));
    a.enter_directory("/pics/sub".to_string(), DirListing::new());
    assert_eq!(a.current_dir, "/pics/sub");
    assert_eq!(a.file_cursor, 0);
    let up = press(&mut a, ch('h'));
    assert!(matches!(&up[0], Effect::ChangeDirectory { path, .. } if path == "/pics"));
}

#[test]
fn typing_filters_recipes_and_enter_selects_the_first_match() {
    let mut a = app();
    press(&mut a, ch('8'));
    assert!(a.toggles.is_filtering);
    press(&mut a, ch('5'));
    assert_eq!(a.recipe_filter, "85");
    let names: Vec<String> = a.filtered_recipes().iter().map(|&i| a.recipes[i].name.clone()).collect();
    assert_eq!(names, vec!["webp 85"]);
    press(&mut a, key(KeyCode::Enter));
    assert!(!a.toggles.is_filtering);
    assert_eq!(a.selected_recipe_name, Some("webp 85".to_string()));
    assert_eq!(a.available_formats, vec!["webp"]);
}

#[test]
fn letters_that_are_commands_also_act_while_filtering() {
    let mut a = app();
    press(&mut a, ch('w'));
    press(&mut a, ch('e'));
    assert_eq!(a.recipe_filter, "we");
    assert_eq!(a.mode, Mode::Edit);
}

#[test]
fn only_alphanumeric_and_path_characters_start_a_filter() {
    let mut a = app();
    press(&mut a, ch('!'));
    assert!(!a.toggles.is_filtering);
    press(&mut a, ch('\u{e9}'));
    assert!(a.toggles.is_filtering);
    assert_eq!(a.recipe_filter, "\u{e9}");
    press(&mut a, ch('!'));
    assert_eq!(a.recipe_filter, "\u{e9}!");
    let mut b = app();
    press(&mut b, ch('/'));
    assert!(b.toggles.is_filtering);
}

#[test]
fn filters_match_categories_and_escape_clears_them() {
    let mut a = app();
    press(&mut a, ch('m'));
    press(&mut a, ch('o'));
    press(&mut a, ch('d'));
    assert_eq!(a.filtered_recipes(), vec![0]);
    press(&mut a, key(KeyCode::Backspace));
    assert_eq!(a.recipe_filter, "mo");
    press(&mut a, key(KeyCode::Esc));
    assert!(!a.toggles.is_filtering);
    assert_eq!(a.recipe_filter, "");
    assert_eq!(a.filtered_recipes().len(), 3);
}

#[test]
fn s_cycles_the_sort_order() {
    let mut a = app();
    press(&mut a, key(KeyCode::Tab));
    press(&mut a, ch('s'));
    assert_eq!(a.recipe_sort, SortOrder::Usage);
    press(&mut a, ch('s'));
    assert_eq!(a.recipe_sort, SortOrder::Category);
    let cats: Vec<Option<String>> = a.recipes.iter().map(|r| r.category.clone()).collect();
    assert_eq!(cats, vec![None, Some("modern".to_string()), Some("web".to_string())]);
    press(&mut a, ch('s'));
    assert_eq!(a.recipe_sort, SortOrder::Name);
}

#[test]
fn the_format_picker_sets_an_override() {
    let mut a = app();
    press(&mut a, key(KeyCode::Tab));
    press(&mut a, ch('f'));
    assert!(a.toggles.show_format_picker);
    assert_eq!(a.format_picker_cursor, 0);
    press(&mut a, ch('j'));
    assert_eq!(a.format_picker_cursor, 1);
    press(&mut a, key(KeyCode::Enter));
    assert!(!a.toggles.show_format_picker);
    assert_eq!(a.format_override, Some("webp".to_string()));
    press(&mut a, ch('f'));
    assert_eq!(a.format_picker_cursor, 1);
    press(&mut a, key(KeyCode::Esc));
    assert!(!a.toggles.show_format_picker);
}

#[test]
fn the_edit_popup_applies_its_fields() {
    let mut a = app();
    press(&mut a, key(KeyCode::Tab));
    press(&mut a, ch('e'));
    assert_eq!(a.mode, Mode::Edit);
    assert!(a.toggles.show_edit_popup);
    assert_eq!(a.edit_field, EditField::OutputDir);
    for c in "/outx".chars() {
        press(&mut a, ch(c));
    }
    press(&mut a, key(KeyCode::Backspace));
    press(&mut a, key(KeyCode::Tab));
    assert_eq!(a.edit_field, EditField::ExtraArgs);
    for c in "-strip".chars() {
        press(&mut a, ch(c));
    }
    press(&mut a, key(KeyCode::Enter));
    assert_eq!(a.mode, Mode::Browse);
    assert_eq!(a.edit_output_dir, Some("/out".to_string()));
    assert_eq!(a.edit_extra_args, "-strip");
    assert_eq!(last_log(&a), ("Applied edit parameters".to_string(), LogLevel::Info));
}

#[test]
fn control_o_opens_the_directory_browser() {
    let mut a = app();
    press(&mut a, key(KeyCode::Tab));
    press(&mut a, ch('e'));
    for c in "/tmp/x".chars() {
        press(&mut a, ch(c));
    }
    let fx = a.on_key(Key { code: KeyCode::Char('o'), modifiers: Modifiers::Control }, probe());
    assert_eq!(a.edit_output_buf, "/tmp/xo");
    assert!(matches!(fx.last(), Some(Effect::OpenDirBrowser)));
    let fx = a.open_dir_browser(false);
    assert!(a.toggles.show_dir_browser);
    assert_eq!(a.dir_browser_path, "/tmp");
    assert!(matches!(&fx[0], Effect::RefreshDirBrowser(p) if p == "/tmp"));
    a.set_dir_browser_listing(vec![
        ("/tmp/b".to_string(), true),
        ("/tmp/.cache".to_string(), true),
        ("/tmp/A".to_string(), true),
        ("/tmp/file".to_string(), false),
    ]);
    assert_eq!(a.dir_browser_listing, vec!["/tmp/A", "/tmp/b"]);
    press(&mut a, ch('s'));
    assert!(!a.toggles.show_dir_browser);
    assert_eq!(a.edit_output_buf, "/tmp");
}

#[test]
fn a_dry_run_logs_the_commands_and_spawns_nothing() {
    let mut a = ready_app();
    assert_eq!(a.focus, Focus::File);
    press(&mut a, ch('n'));
    assert!(a.toggles.dry_run);
    assert_eq!(last_log(&a), ("Dry-run mode enabled".to_string(), LogLevel::Info));
    press(&mut a, key(KeyCode::Tab));
    let fx = press(&mut a, ch('r'));
    assert_eq!(fx.len(), 1);
    assert!(matches!(fx[0], Effect::StartRun));
    let fx = a.run_current(true, image_input());
    assert!(fx.is_empty());
    assert_eq!(
        last_log(&a),
        ("[DRY-RUN] magick -monitor /pics/cat.png -strip /pics/cat.webp".to_string(), LogLevel::Info)
    );
    assert_eq!(a.mode, Mode::Browse);
    assert_eq!(a.recipes[2].usage_count, 0);
}

#[test]
fn a_run_spawns_magick_and_completes_the_batch() {
    let mut a = ready_app();
    let fx = a.run_current(true, image_input());
    assert_eq!(fx.len(), 1);
    let argv = match &fx[0] {
        Effect::Spawn(argv) => argv.clone(),
        _ => panic!("expected a spawn"),
    };
    assert_eq!(argv, strings(&["magick", "-monitor", "/pics/cat.png", "-strip", "/pics/cat.webp"]));
    assert_eq!(a.mode, Mode::Run);
    assert!(a.toggles.spinner_active);
    assert_eq!(a.recipes[2].usage_count, 1);
    assert_eq!(
        last_log(&a).0,
        "[0] Running: magick -monitor /pics/cat.png -strip /pics/cat.webp"
    );
    a.spawned();
    assert!(a.toggles.process_running);
    a.on_tick();
    assert_eq!(a.spinner_frame, 1);
    assert_eq!(a.spinner_char(), '⠙');
    let fx = a.process_exited(true, "exit status: 0".to_string());
    assert!(fx.is_empty());
    assert_eq!(a.generated_outputs, vec!["/pics/cat.webp"]);
    let n = a.log_entries.len();
    assert_eq!(a.log_entries[n - 2].message(), "[0] webp 85 → /pics/cat.webp completed successfully");
    assert_eq!(last_log(&a), ("Batch complete: 1 file(s) processed".to_string(), LogLevel::Success));
    assert_eq!(a.mode, Mode::Browse);
    assert!(a.processing_queue.is_empty());
}

#[test]
fn a_failed_process_is_logged_with_its_status() {
    let mut a = ready_app();
    a.run_current(true, image_input());
    a.spawned();
    a.process_exited(false, "exit status: 1".to_string());
    let n = a.log_entries.len();
    assert_eq!(a.log_entries[n - 2].message(), "[0] webp 85 → /pics/cat.webp failed with status: exit status: 1");
    assert_eq!(a.log_entries[n - 2].level(), LogLevel::Error);
    assert!(a.generated_outputs.is_empty());
}

#[test]
fn a_spawn_failure_is_logged() {
    let mut a = ready_app();
    a.run_current(true, image_input());
    let fx = a.spawn_failed("Cannot spawn magick: not found".to_string());
    assert!(fx.is_empty());
    assert_eq!(
        last_log(&a),
        ("[0] Failed to spawn process: Cannot spawn magick: not found".to_string(), LogLevel::Error)
    );
    assert_eq!(a.mode, Mode::Browse);
    assert!(!a.toggles.spinner_active);
}

#[test]
fn cancel_kills_the_process_and_drops_the_queue() {
    let mut a = ready_app();
    a.run_current(true, image_input());
    a.spawned();
    let fx = press(&mut a, ch('c'));
    assert_eq!(fx.len(), 1);
    assert!(matches!(fx[0], Effect::Kill));
    assert_eq!(last_log(&a), ("Process cancelled".to_string(), LogLevel::Error));
    assert!(!a.toggles.process_running);
    assert!(a.processing_queue.is_empty());
    assert_eq!(a.mode, Mode::Browse);
}

#[test]
fn run_refusals_are_logged() {
    let mut a = app();
    a.run_current(true, Vec::new());
    assert_eq!(last_log(&a), ("No recipe selected".to_string(), LogLevel::Error));
    let mut b = ready_app();
    b.run_current(false, image_input());
    assert_eq!(last_log(&b), ("'magick' not found on $PATH".to_string(), LogLevel::Error));
    let mut c = ready_app();
    c.run_current(true, vec![RunInput { is_dir: false, is_file: false, walked: Vec::new() }]);
    let n = c.log_entries.len();
    assert_eq!(c.log_entries[n - 2].message(), "Skipping (not an image): /pics/cat.png");
    assert_eq!(last_log(&c), ("No valid jobs to run".to_string(), LogLevel::Error));
}

#[test]
fn a_recursive_run_takes_the_images_of_the_walk() {
    let mut a = ready_app();
    press(&mut a, ch('R'));
    assert!(a.toggles.recursive);
    press(&mut a, ch('n'));
    a.run_current(
        true,
        vec![RunInput {
            is_dir: true,
            is_file: false,
            walked: vec![
                ("/pics/cat.png".to_string(), false),
                ("/pics/cat.png/a.jpg".to_string(), true),
                ("/pics/cat.png/b.txt".to_string(), true),
            ],
        }],
    );
    assert_eq!(
        last_log(&a).0,
        "[DRY-RUN] magick -monitor /pics/cat.png/a.jpg -strip /pics/cat.png/a.webp"
    );
}

#[test]
fn the_undo_list_deletes_and_clears_outputs() {
    let mut a = ready_app();
    a.run_current(true, image_input());
    a.spawned();
    a.process_exited(true, "exit status: 0".to_string());
    press(&mut a, ch('u'));
    assert!(a.toggles.show_undo_list);
    let fx = press(&mut a, ch('d'));
    assert!(matches!(&fx[0], Effect::DeleteOutput { index: 0, path } if path == "/pics/cat.webp"));
    a.output_deleted(0, Err("permission denied".to_string()));
    assert_eq!(
        last_log(&a),
        ("Failed to delete /pics/cat.webp: permission denied".to_string(), LogLevel::Error)
    );
    a.output_deleted(0, Ok(()));
    assert_eq!(last_log(&a), ("Deleted: /pics/cat.webp".to_string(), LogLevel::Info));
    assert!(a.generated_outputs.is_empty());
    press(&mut a, ch('c'));
    assert_eq!(last_log(&a), ("Undo list cleared".to_string(), LogLevel::Info));
    press(&mut a, key(KeyCode::Esc));
    assert!(!a.toggles.show_undo_list);
}

#[test]
fn progress_lines_are_split_into_stage_and_fraction() {
    assert_eq!(
        progress_fields("resize[cat.png]: 50/100 done"),
        Some(("resize".to_string(), Some(("50".to_string(), "100".to_string()))))
    );
    assert_eq!(progress_fields("resize[cat.png]: almost"), Some(("resize".to_string(), None)));
    assert_eq!(progress_fields("no progress here"), None);
    assert_eq!(
        progress_fields("resize[photo.png]: 50 of 100, 50% complete"),
        Some(("resize".to_string(), Some(("50".to_string(), "100".to_string()))))
    );
    assert_eq!(progress_fields("[x]: 1/2"), None);
}

#[test]
fn process_output_lines_are_recorded() {
    let mut a = ready_app();
    a.run_current(true, image_input());
    a.record_output("first".to_string(), None, None);
    a.record_output("resize[x]: 1/2".to_string(), Some("resize".to_string()), Some((100, 200)));
    assert_eq!(a.process_output, "first\nresize[x]: 1/2");
    assert_eq!(a.progress_stage, "resize");
    assert_eq!((a.progress_current, a.progress_total), (100, 200));
}

#[test]
fn log_timestamps_are_hours_minutes_seconds() {
    assert_eq!(format_clock(0), "00:00:00");
    assert_eq!(format_clock(3 * 3600 + 25 * 60 + 7), "03:25:07");
    assert_eq!(format_clock(86400 + 61), "00:01:01");
    let now = chrono_or_fallback();
    assert_eq!(now.len(), 8);
    assert_eq!(&now[2..3], ":");
    let mut a = app();
    a.add_log("hello".to_string(), LogLevel::Magick);
    assert_eq!(a.log_entries[0].timestamp().len(), 8);
}

#[test]
fn headless_jobs_use_safe_outputs() {
    let rs = recipes();
    let webp = &rs[0];
    let (out, argv) = headless_job(webp, "/pics/cat.png", None, None, "lazymagick");
    assert_eq!(out, "/pics/cat.webp");
    assert_eq!(argv, strings(&["magick", "/pics/cat.png", "-strip", "/pics/cat.webp"]));
    let (out, _) = headless_job(webp, "/pics/cat.webp", None, None, "lazymagick");
    assert_eq!(out, "/pics/cat_lazymagick.webp");
    let (out, argv) = headless_job(webp, "/pics/cat.png", Some("webp"), Some("/out"), "lazymagick");
    assert_eq!(out, "/out/cat.webp");
    assert_eq!(argv, strings(&["magick", "/pics/cat.png", "-strip", "-quality", "85", "/out/cat.webp"]));
}

#[test]
fn headless_output_directories_keep_the_format_override() {
    let rs = recipes();
    let (out, _) = headless_job(&rs[0], "photo.png", Some("avif"), Some("out"), "lazymagick");
    assert_eq!(out, "out/photo.avif");
    let (out, _) = headless_job(&rs[0], "photo.png", None, Some("out"), "lazymagick");
    assert_eq!(out, "out/photo.webp");
    let (out, _) = headless_job(&rs[2], "photo.png", None, Some("out"), "lazymagick");
    assert_eq!(out, "out/photo.png");
}

#[test]
fn same_format_outputs_take_the_auto_suffix() {
    let mut a = app();
    let rs = recipes();
    let gray = &rs[2];
    let job = a.build_command_for_file(gray, "photo.png").unwrap();
    assert_eq!(job.output, "photo_lazymagick.png");
    assert_eq!(job.recipe_name, "grayscale");
    assert_eq!(job.input, "photo.png");
    a.auto_suffix = "small".to_string();
    assert_eq!(a.build_command_for_file(gray, "photo.png").unwrap().output, "photo_small.png");
}

#[test]
fn headless_runs_take_the_images_among_their_paths() {
    let paths = strings(&["/p/a.png", "/p/notes.txt", "/p/dir", "/p/b.JPG"]);
    let file = || RunInput { is_dir: false, is_file: true, walked: Vec::new() };
    let walked = vec![
        ("/p/dir".to_string(), false),
        ("/p/dir/c.png".to_string(), true),
        ("/p/dir/d.txt".to_string(), true),
    ];
    let inputs = vec![
        file(),
        file(),
        RunInput { is_dir: true, is_file: false, walked },
        file(),
    ];
    assert_eq!(
        headless_files(&paths, &inputs, true),
        strings(&["/p/a.png", "/p/dir/c.png", "/p/b.JPG"])
    );
    assert_eq!(headless_files(&paths, &inputs, false), strings(&["/p/a.png", "/p/b.JPG"]));
}

#[test]
fn sorting_sorted_recipes_changes_nothing() {
    let mut a = app();
    a.recipes[0].usage_count = 3;
    a.recipes[2].usage_count = 3;
    a.recipe_sort = SortOrder::Usage;
    a.sort_recipes();
    let once: Vec<(String, u64)> = a.recipes.iter().map(|r| (r.name.clone(), r.usage_count)).collect();
    assert_eq!(
        once,
        vec![("avif 50".to_string(), 3), ("webp 85".to_string(), 3), ("grayscale".to_string(), 0)]
    );
    a.sort_recipes();
    let twice: Vec<(String, u64)> = a.recipes.iter().map(|r| (r.name.clone(), r.usage_count)).collect();
    assert_eq!(once, twice);
}

#[test]
fn the_command_preview_names_the_output_and_the_arguments() {
    let rs = recipes();
    let (out, argv) = command_preview(&rs[1], "/pics/cat.png", Some("webp"));
    assert_eq!(out, "cat.webp");
    assert_eq!(argv, strings(&["magick", "cat.png", "-strip", "-quality", "85", "cat.webp"]));
    let (out, argv) = command_preview(&rs[2], "/pics/cat.png", None);
    assert_eq!(out, "cat.png");
    assert_eq!(argv, strings(&["magick", "cat.png", "-colorspace", "Gray", "cat.png"]));
}

#[test]
fn headless_runs_find_recipes_by_lowercased_name() {
    let rs = recipes();
    assert_eq!(headless_recipe(&rs, "WEBP 85"), Some(0));
    assert_eq!(headless_recipe(&rs, "Avif 50"), Some(1));
    assert_eq!(headless_recipe(&rs, "sepia"), None);
}

#[test]
fn letters_digits_and_path_characters_start_a_filter() {
    assert!(starts_recipe_filter('j'));
    assert!(starts_recipe_filter('7'));
    assert!(starts_recipe_filter('\u{e9}'));
    assert!(starts_recipe_filter('.'));
    assert!(!starts_recipe_filter('!'));
    assert!(!starts_recipe_filter('_'));
}

#[test]
fn j_and_k_move_the_recipe_cursor() {
    let mut a = app();
    assert_eq!(a.focus, Focus::Recipe);
    press(&mut a, ch('j'));
    assert_eq!(a.recipe_cursor, 1);
    assert!(!a.toggles.is_filtering);
    assert_eq!(a.recipe_filter, "");
    press(&mut a, ch('j'));
    press(&mut a, ch('j'));
    assert_eq!(a.recipe_cursor, 2);
    press(&mut a, ch('k'));
    assert_eq!(a.recipe_cursor, 1);
    press(&mut a, ch('G'));
    assert_eq!(a.recipe_cursor, 2);
    press(&mut a, ch('g'));
    assert_eq!(a.recipe_cursor, 0);
    assert!(!a.toggles.is_filtering);
    press(&mut a, ch('a'));
    assert!(a.toggles.is_filtering);
    press(&mut a, ch('j'));
    assert_eq!(a.recipe_filter, "aj");
}

#[test]
fn control_q_quits_only_while_browsing() {
    let mut a = ready_app();
    a.run_current(true, image_input());
    assert_eq!(a.mode, Mode::Run);
    a.on_key(Key { code: KeyCode::Char('q'), modifiers: Modifiers::Control }, probe());
    assert!(!a.toggles.should_quit);
}
