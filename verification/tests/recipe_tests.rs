use lazymagick::recipe::{apply_usage, load_all, FormatArgs, Recipe, RecipeSource, Stage};

fn strings(v: &[&str]) -> Vec<String> {
    v.iter().map(|s| s.to_string()).collect()
}

/// A recipe as a TOML file with these fields gives it, before validation.
fn raw(
    name: &str,
    description: &str,
    output_ext: &str,
    stage: &[&str],
    formats: &[(&str, &[&str])],
) -> Recipe {
    Recipe {
        name: name.to_string(),
        description: description.to_string(),
        category: None,
        usage_count: 0,
        tags: Vec::new(),
        stages: if stage.is_empty() {
            Vec::new()
        } else {
            vec![Stage { flags: strings(stage) }]
        },
        output_ext: output_ext.to_string(),
        args: Vec::new(),
        formats: formats
            .iter()
            .map(|(f, a)| FormatArgs { format: f.to_string(), args: strings(a) })
            .collect(),
        source: RecipeSource::BuiltIn,
    }
}

fn parse(r: Recipe) -> Recipe {
    Recipe::validated(r, RecipeSource::BuiltIn).ok().unwrap()
}

fn make_webp_85() -> Recipe {
    raw(
        "webp 85",
        "Convert to WebP with quality 85",
        "webp",
        &["-strip"],
        &[("webp", &["-quality", "85"])],
    )
}

fn make_avif_50() -> Recipe {
    raw(
        "avif 50",
        "Convert to AVIF with quality 50",
        "avif",
        &["-strip"],
        &[("avif", &["-quality", "50", "-effort", "5"]), ("webp", &["-quality", "85"])],
    )
}

fn make_jpeg_90() -> Recipe {
    raw(
        "jpeg 90",
        "High-quality JPEG",
        "jpg",
        &["-strip", "-interlace", "Plane", "-quality", "90"],
        &[],
    )
}

fn make_resize_50() -> Recipe {
    raw("resize 50%", "Scale to 50%", "auto", &["-resize", "50%"], &[])
}

fn make_grayscale() -> Recipe {
    raw("grayscale", "Convert to grayscale", "auto", &["-colorspace", "Gray"], &[])
}

fn make_png_optimize() -> Recipe {
    raw("png optimize", "Optimize PNG", "png", &["-strip"], &[("png", &["-quality", "95"])])
}

fn has_format(r: &Recipe, f: &str) -> bool {
    r.formats.iter().any(|x| x.format == f)
}

fn is_builtin(s: &RecipeSource) -> bool {
    matches!(s, RecipeSource::BuiltIn)
}

// ── validation ──────────────────────────────────────────────────────

#[test]
fn parse_webp_85() {
    let recipe = parse(make_webp_85());
    assert_eq!(recipe.name, "webp 85");
    assert_eq!(recipe.output_ext, "webp");
    assert_eq!(recipe.stages[0].flags, vec!["-strip"]);
    assert!(is_builtin(&recipe.source));
}

#[test]
fn parse_avif_50() {
    let recipe = parse(make_avif_50());
    assert_eq!(recipe.name, "avif 50");
    assert_eq!(recipe.output_ext, "avif");
    assert!(has_format(&recipe, "webp"));
}

#[test]
fn parse_jpeg_90() {
    let recipe = parse(make_jpeg_90());
    assert_eq!(recipe.name, "jpeg 90");
    assert_eq!(recipe.output_ext, "jpg");
    assert!(recipe.stages[0].flags.contains(&"-interlace".to_string()));
}

#[test]
fn parse_resize_50() {
    let recipe = parse(make_resize_50());
    assert_eq!(recipe.name, "resize 50%");
    assert_eq!(recipe.output_ext, "auto");
    assert_eq!(recipe.stages[0].flags, vec!["-resize", "50%"]);
}

#[test]
fn parse_grayscale() {
    let recipe = parse(make_grayscale());
    assert_eq!(recipe.name, "grayscale");
    assert_eq!(recipe.stages[0].flags, vec!["-colorspace", "Gray"]);
}

#[test]
fn parse_png_optimize() {
    let recipe = parse(make_png_optimize());
    assert_eq!(recipe.name, "png optimize");
    assert_eq!(recipe.output_ext, "png");
    assert!(has_format(&recipe, "png"));
}

#[test]
fn parse_recipe_rejects_empty_name() {
    let result = Recipe::validated(raw("", "empty", "png", &[], &[]), RecipeSource::BuiltIn);
    assert!(result.is_err());
    assert_eq!(result.err().unwrap(), "recipe name must not be empty");
}

#[test]
fn parse_recipe_rejects_empty_output_ext() {
    let result = Recipe::validated(raw("test", "empty ext", "", &[], &[]), RecipeSource::BuiltIn);
    assert!(result.is_err());
    assert_eq!(result.err().unwrap(), "recipe output_ext must not be empty");
}

#[test]
fn validation_rejects_blank_name_and_ext() {
    let r = Recipe::validated(raw(" \t ", "d", "png", &[], &[]), RecipeSource::BuiltIn);
    assert_eq!(r.err().unwrap(), "recipe name must not be empty");
    let r = Recipe::validated(raw("ok", "d", "  ", &[], &[]), RecipeSource::BuiltIn);
    assert_eq!(r.err().unwrap(), "recipe output_ext must not be empty");
}

#[test]
fn validation_lowercases_the_name_and_records_the_source() {
    let r = Recipe::validated(
        raw("WEBP 85 Ü", "d", "webp", &[], &[]),
        RecipeSource::User("/home/u/.config/lazymagick/recipes/custom.toml".into()),
    )
    .ok()
    .unwrap();
    assert_eq!(r.name, "webp 85 ü");
    match r.source {
        RecipeSource::User(p) => assert_eq!(p, "/home/u/.config/lazymagick/recipes/custom.toml"),
        RecipeSource::BuiltIn => panic!("expected a user source"),
    }
}

#[test]
fn builtin_recipes_are_lowercased() {
    let mut r = raw("Sepia TONE", "d", "auto", &[], &[]);
    r.source = RecipeSource::User("x".into());
    let b = Recipe::builtin(r);
    assert_eq!(b.name, "sepia tone");
    assert!(is_builtin(&b.source));
}

// ── resolved_args ───────────────────────────────────────────────────

#[test]
fn resolved_args_no_override() {
    let recipe = parse(make_webp_85());
    assert_eq!(recipe.resolved_args(None), vec!["-strip"]);
}

#[test]
fn resolved_args_with_matching_override() {
    let recipe = parse(make_webp_85());
    assert_eq!(recipe.resolved_args(Some("webp")), vec!["-strip", "-quality", "85"]);
}

#[test]
fn resolved_args_with_mismatched_override() {
    let recipe = parse(make_webp_85());
    assert_eq!(recipe.resolved_args(Some("png")), vec!["-strip"]);
}

#[test]
fn resolved_args_avif_format_override() {
    let recipe = parse(make_avif_50());
    assert_eq!(
        recipe.resolved_args(Some("avif")),
        vec!["-strip", "-quality", "50", "-effort", "5"]
    );
}

#[test]
fn resolved_args_from_stages() {
    let recipe = parse(raw("from-stages", "test", "auto", &["-resize", "50%"], &[]));
    assert!(recipe.args.is_empty());
    assert_eq!(recipe.resolved_args(None), vec!["-resize", "50%"]);
}

#[test]
fn resolved_args_prefer_args_over_stages() {
    let mut recipe = parse(make_webp_85());
    recipe.args = strings(&["-auto-orient"]);
    assert_eq!(recipe.resolved_args(Some("webp")), vec!["-auto-orient", "-quality", "85"]);
}

#[test]
fn format_args_look_up_the_format() {
    let recipe = parse(make_avif_50());
    assert_eq!(recipe.format_args("webp").unwrap(), &strings(&["-quality", "85"]));
    assert!(recipe.format_args("png").is_none());
}

// ── output_path ─────────────────────────────────────────────────────

fn bare(output_ext: &str) -> Recipe {
    raw("x", "", output_ext, &[], &[])
}

#[test]
fn output_path_with_explicit_ext() {
    let recipe = bare("webp");
    assert_eq!(recipe.output_path("photo.png", None), "photo.webp");
}

#[test]
fn output_path_with_auto_ext() {
    let recipe = bare("auto");
    assert_eq!(recipe.output_path("photo.png", None), "photo.png");
    assert_eq!(recipe.output_path("photo.jpeg", None), "photo.jpeg");
}

#[test]
fn output_path_with_format_override() {
    let recipe = bare("auto");
    assert_eq!(recipe.output_path("photo.png", Some("webp")), "photo.webp");
    assert_eq!(recipe.output_path("photo.png", Some("avif")), "photo.avif");
}

#[test]
fn output_path_edge_cases() {
    let recipe = bare("auto");
    assert_eq!(recipe.output_path("dir/noext", None), "dir/noext");
    assert_eq!(recipe.output_path("dir/a.b.c", Some("png")), "dir/a.b.png");
    assert_eq!(recipe.output_path(".hidden", Some("png")), ".hidden.png");
    assert_eq!(bare("jpg").output_path("/", None), "/");
}

// ── load_all ────────────────────────────────────────────────────────

#[test]
fn load_all_user_overrides_builtin() {
    let builtin = vec![make_avif_50(), make_webp_85(), make_grayscale()];
    let user = vec![Recipe::validated(
        raw("webp 85", "OVERRIDDEN", "webp", &["-strip"], &[]),
        RecipeSource::User("override.toml".into()),
    )
    .ok()
    .unwrap()];
    let all = load_all(builtin, user);
    assert_eq!(all.len(), 3);
    let overridden = all.iter().find(|r| r.name == "webp 85").unwrap();
    assert_eq!(overridden.description, "OVERRIDDEN");
    assert_eq!(all[1].description, "OVERRIDDEN");
}

#[test]
fn load_all_merges_new_user_recipes() {
    let user = Recipe::validated(
        raw("my custom recipe", "A user-defined recipe", "png", &["-strip"], &[]),
        RecipeSource::User("/tmp/r/lazymagick/recipes/custom.toml".into()),
    )
    .ok()
    .unwrap();
    assert_eq!(user.name, "my custom recipe");
    match &user.source {
        RecipeSource::User(p) => assert_eq!(p, "/tmp/r/lazymagick/recipes/custom.toml"),
        RecipeSource::BuiltIn => panic!("expected a user source"),
    }
    let all = load_all(vec![make_webp_85()], vec![user]);
    assert_eq!(all.len(), 2);
    assert_eq!(all[1].name, "my custom recipe");
}

#[test]
fn load_all_later_user_recipe_wins() {
    let u1 = raw("grayscale", "first", "png", &[], &[]);
    let u2 = raw("grayscale", "second", "png", &[], &[]);
    let u3 = raw("new", "third", "png", &[], &[]);
    let u4 = raw("new", "fourth", "png", &[], &[]);
    let all = load_all(vec![make_grayscale(), make_webp_85()], vec![u1, u3, u2, u4]);
    let names: Vec<&str> = all.iter().map(|r| r.name.as_str()).collect();
    assert_eq!(names, vec!["grayscale", "webp 85", "new"]);
    assert_eq!(all[0].description, "second");
    assert_eq!(all[2].description, "fourth");
}

#[test]
fn parsed_names_are_lowercased_beyond_ascii() {
    let recipe = parse(raw("ÉCLAT Vif", "test", "png", &["-modulate", "110"], &[]));
    assert_eq!(recipe.name, "éclat vif");
}

#[test]
fn stored_usage_counts_are_applied_by_name() {
    let mut recipes = vec![parse(make_webp_85()), parse(make_avif_50())];
    recipes[1].usage_count = 7;
    let usage = vec![("webp 85".to_string(), 5u64), ("missing".to_string(), 9u64)];
    apply_usage(&mut recipes, &usage);
    assert_eq!(recipes[0].usage_count, 5);
    assert_eq!(recipes[1].usage_count, 7);
    assert_eq!(recipes[0].name, "webp 85");
}

#[test]
fn a_format_named_twice_is_rejected() {
    let r = raw("twice", "test", "png", &["-strip"], &[("webp", &["-quality", "80"]), ("webp", &["-quality", "90"])]);
    match Recipe::validated(r, RecipeSource::BuiltIn) {
        Err(m) => assert_eq!(m, "recipe formats must not name a format twice"),
        Ok(_) => panic!("expected an error"),
    }
}
