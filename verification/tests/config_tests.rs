use lazymagick::config::{
    config_dir, config_dir_from, parse_color, settings_path, try_parse_color, usage_path,
    user_recipes_dir, Settings, Theme, ThemeColor, ThemeColors,
};

#[test]
fn default_settings() {
    let s = Settings::default();
    assert_eq!(s.auto_suffix, "lazymagick");
    assert!(!s.skip_run_confirm);
    assert!(!s.skip_overwrite_confirm);
}

#[test]
fn default_settings_have_no_directory_and_the_default_theme() {
    let s = Settings::default();
    assert!(s.default_directory.is_none());
    assert_eq!(s.theme.border_focused, "Green");
    assert_eq!(s.theme.background, "Black");
}

#[test]
fn named_colors_ignore_case() {
    assert_eq!(parse_color("Green"), ThemeColor::Green);
    assert_eq!(parse_color("DARKGRAY"), ThemeColor::DarkGray);
    assert_eq!(parse_color("grey"), ThemeColor::DarkGray);
    assert_eq!(parse_color("Light_Blue"), ThemeColor::LightBlue);
    assert_eq!(parse_color("lightwhite"), ThemeColor::White);
    assert_eq!(parse_color("lightcyan"), ThemeColor::LightCyan);
    assert_eq!(parse_color("reset"), ThemeColor::Reset);
}

#[test]
fn hex_colors() {
    assert_eq!(parse_color("#FF8800"), ThemeColor::Rgb(255, 136, 0));
    assert_eq!(parse_color("#abc"), ThemeColor::Rgb(170, 187, 204));
    assert_eq!(parse_color("#000000"), ThemeColor::Rgb(0, 0, 0));
}

#[test]
fn unknown_colors_fall_back_to_dark_gray() {
    assert_eq!(try_parse_color("chartreuse"), Some(ThemeColor::DarkGray));
    assert_eq!(try_parse_color("#12345"), Some(ThemeColor::DarkGray));
    assert_eq!(try_parse_color(""), Some(ThemeColor::DarkGray));
    assert_eq!(parse_color("#gg0000"), ThemeColor::Rgb(0, 0, 0));
}

#[test]
fn hex_digits_that_are_not_ascii_count_as_zero() {
    assert_eq!(try_parse_color("#\u{e9}1"), Some(ThemeColor::Rgb(0, 0, 17)));
    assert_eq!(parse_color("#a\u{e9}"), ThemeColor::Rgb(170, 0, 0));
    assert_eq!(parse_color("#"), ThemeColor::DarkGray);
}

#[test]
fn default_theme_parses() {
    let t = Theme::default();
    let c = ThemeColors::from_theme(&t);
    assert_eq!(c.border_focused, ThemeColor::Green);
    assert_eq!(c.border_unfocused, ThemeColor::DarkGray);
    assert_eq!(c.title_fg, ThemeColor::Yellow);
}

#[test]
fn config_dir_prefers_the_platform_dir() {
    assert_eq!(config_dir_from(Some("/cfg".into()), Some("/home/u".into())), "/cfg/lazymagick");
    assert_eq!(config_dir_from(None, Some("/home/u".into())), "/home/u/.config/lazymagick");
}

#[test]
fn config_paths_live_in_the_config_dir() {
    let dir = config_dir();
    assert!(dir.ends_with("lazymagick"));
    assert_eq!(user_recipes_dir(), format!("{dir}/recipes"));
    assert_eq!(usage_path(), format!("{dir}/usage.toml"));
    assert_eq!(settings_path(), format!("{dir}/settings.toml"));
}
