//! Theme colours, settings, and where the configuration files live.

use vstd::prelude::*;
use vstd::string::*;
use vstd::utf8::encode_utf8;
use crate::paths::{join, join_path};
use crate::text::{
    all_ascii, ascii_lower_seq, copy_str, has_prefix, lowercase, starts_with, str_eq, to_lowercase,
};

verus! {

/// A colour of the interface.
#[derive(Clone, Copy, Debug, PartialEq, Eq, Structural)]
pub enum ThemeColor {
    Black,
    Red,
    Green,
    Yellow,
    Blue,
    Magenta,
    Cyan,
    White,
    DarkGray,
    LightRed,
    LightGreen,
    LightYellow,
    LightBlue,
    LightMagenta,
    LightCyan,
    Reset,
    Rgb(u8, u8, u8),
}

/// The colour a lowercase name stands for, if it is one of the names.
pub open spec fn named_color(l: Seq<char>) -> Option<ThemeColor> {
    if l == "black"@ {
        Some(ThemeColor::Black)
    } else if l == "red"@ {
        Some(ThemeColor::Red)
    } else if l == "green"@ {
        Some(ThemeColor::Green)
    } else if l == "yellow"@ {
        Some(ThemeColor::Yellow)
    } else if l == "blue"@ {
        Some(ThemeColor::Blue)
    } else if l == "magenta"@ {
        Some(ThemeColor::Magenta)
    } else if l == "cyan"@ {
        Some(ThemeColor::Cyan)
    } else if l == "white"@ {
        Some(ThemeColor::White)
    } else if l == "darkgray"@ || l == "dark_gray"@ || l == "grey"@ || l == "gray"@ {
        Some(ThemeColor::DarkGray)
    } else if l == "lightred"@ || l == "light_red"@ {
        Some(ThemeColor::LightRed)
    } else if l == "lightgreen"@ || l == "light_green"@ {
        Some(ThemeColor::LightGreen)
    } else if l == "lightyellow"@ || l == "light_yellow"@ {
        Some(ThemeColor::LightYellow)
    } else if l == "lightblue"@ || l == "light_blue"@ {
        Some(ThemeColor::LightBlue)
    } else if l == "lightmagenta"@ || l == "light_magenta"@ {
        Some(ThemeColor::LightMagenta)
    } else if l == "lightcyan"@ || l == "light_cyan"@ {
        Some(ThemeColor::LightCyan)
    } else if l == "lightwhite"@ || l == "light_white"@ {
        Some(ThemeColor::White)
    } else if l == "reset"@ {
        Some(ThemeColor::Reset)
    } else {
        None
    }
}

/// The value of a hexadecimal digit byte, if it is one.
pub open spec fn hex_digit(b: u8) -> Option<nat> {
    if 48 <= b <= 57 {
        Some((b - 48) as nat)
    } else if 97 <= b <= 102 {
        Some((b - 87) as nat)
    } else if 65 <= b <= 70 {
        Some((b - 55) as nat)
    } else {
        None
    }
}

/// The value of a run of hexadecimal digits, if they all are.
pub open spec fn hex_value(d: Seq<u8>) -> Option<nat>
    decreases d.len(),
{
    if d.len() == 0 {
        Some(0)
    } else {
        match (hex_value(d.drop_last()), hex_digit(d.last())) {
            (Some(v), Some(x)) => Some(v * 16 + x),
            _ => None,
        }
    }
}

/// `u8::from_str_radix(s, 16)` on the bytes of `s`: an optional `+`, then
/// at least one hexadecimal digit, with a value that fits in a byte.
pub open spec fn parse_hex_u8(b: Seq<u8>) -> Option<u8> {
    if b.len() == 0 || (b[0] == 43 && b.len() == 1) {
        None
    } else {
        let d = if b[0] == 43 {
            b.drop_first()
        } else {
            b
        };
        match hex_value(d) {
            Some(v) => if v <= 255 {
                Some(v as u8)
            } else {
                None
            },
            None => None,
        }
    }
}

/// `u8::from_str_radix(s, 16).unwrap_or(0)`.
pub open spec fn hex_or_zero(b: Seq<u8>) -> u8 {
    match parse_hex_u8(b) {
        Some(v) => v,
        None => 0,
    }
}

/// The colour for the bytes `b` of a lowercase name that starts with `#`:
/// three or six digits (counted in bytes) give an RGB colour, each of its
/// one- or two-byte pieces read in hexadecimal, a piece that does not
/// read counting as zero; any other length gives dark gray.
pub open spec fn hex_color(b: Seq<u8>) -> Option<ThemeColor> {
    let n = b.len() - 1;
    if n == 3 {
        Some(
            ThemeColor::Rgb(
                (hex_or_zero(b.subrange(1, 2)) * 17) as u8,
                (hex_or_zero(b.subrange(2, 3)) * 17) as u8,
                (hex_or_zero(b.subrange(3, 4)) * 17) as u8,
            ),
        )
    } else if n == 6 {
        Some(
            ThemeColor::Rgb(
                hex_or_zero(b.subrange(1, 3)),
                hex_or_zero(b.subrange(3, 5)),
                hex_or_zero(b.subrange(5, 7)),
            ),
        )
    } else {
        Some(ThemeColor::DarkGray)
    }
}

/// The colour for a lowercased name: named colours, `#rgb` and
/// `#rrggbb`, and dark gray for everything else.
pub open spec fn color_of_lower(l: Seq<char>) -> Option<ThemeColor> {
    match named_color(l) {
        Some(c) => Some(c),
        None => if starts_with(l, "#"@) {
            hex_color(encode_utf8(l))
        } else {
            Some(ThemeColor::DarkGray)
        },
    }
}

/// The colour for a name: named colours (any case), `#rgb` and
/// `#rrggbb`, and dark gray for everything else. Every name has one.
pub open spec fn color_for(s: Seq<char>) -> Option<ThemeColor> {
    color_of_lower(lowercase(s))
}

fn hex_digit_exec(b: u8) -> (r: Option<u8>)
    ensures
        match r {
            Some(v) => hex_digit(b) == Some(v as nat),
            None => hex_digit(b) is None,
        },
{
    if 48 <= b && b <= 57 {
        Some(b - 48)
    } else if 97 <= b && b <= 102 {
        Some(b - 87)
    } else if 65 <= b && b <= 70 {
        Some(b - 55)
    } else {
        None
    }
}

/// `u8::from_str_radix(&s[from..to], 16)` on the bytes of `s`.
fn parse_hex_exec(b: &[u8], from: usize, to: usize) -> (r: Option<u8>)
    requires
        from <= to <= b@.len(),
        to - from <= 2,
    ensures
        r == parse_hex_u8(b@.subrange(from as int, to as int)),
{
    let ghost s = b@.subrange(from as int, to as int);
    if to == from || (b[from] == 43 && to - from == 1) {
        return None;
    }
    let start = if b[from] == 43 {
        from + 1
    } else {
        from
    };
    let ghost d = b@.subrange(start as int, to as int);
    assert(s[0] == b@[from as int]);
    assert(d =~= if s[0] == 43 { s.drop_first() } else { s });
    let ghost expect = match hex_value(d) {
        Some(w) => if w <= 255 {
            Some(w as u8)
        } else {
            None
        },
        None => None,
    };
    assert(parse_hex_u8(s) == expect);
    let mut v: u64 = 0;
    let mut i = start;
    assert(d.subrange(0, 0) =~= Seq::<u8>::empty());
    while i < to
        invariant
            start <= i <= to <= b@.len(),
            to - start <= 2,
            d == b@.subrange(start as int, to as int),
            s == b@.subrange(from as int, to as int),
            parse_hex_u8(s) == expect,
            expect == match hex_value(d) {
                Some(w) => if w <= 255 {
                    Some(w as u8)
                } else {
                    None
                },
                None => None,
            },
            hex_value(d.subrange(0, i - start)) == Some(v as nat),
            i == start ==> v == 0,
            i == start + 1 ==> v <= 15,
            v <= 255,
        decreases to - i,
    {
        assert(d.subrange(0, i - start + 1).drop_last() =~= d.subrange(0, i - start));
        match hex_digit_exec(b[i]) {
            Some(x) => {
                v = v * 16 + x as u64;
            },
            None => {
                assert(hex_value(d.subrange(0, i - start + 1)) is None);
                proof {
                    lemma_hex_value_none(d, i - start + 1);
                }
                return None;
            },
        }
        i = i + 1;
    }
    assert(d.subrange(0, (to - start) as int) =~= d);
    Some(v as u8)
}

proof fn lemma_hex_value_none(d: Seq<u8>, k: int)
    requires
        0 <= k <= d.len(),
        hex_value(d.subrange(0, k)) is None,
    ensures
        hex_value(d) is None,
    decreases d.len() - k,
{
    if k < d.len() {
        assert(d.subrange(0, k + 1).drop_last() =~= d.subrange(0, k));
        lemma_hex_value_none(d, k + 1);
    } else {
        assert(d.subrange(0, k) =~= d);
    }
}

fn named_color_exec(l: &str) -> (r: Option<ThemeColor>)
    ensures
        r == named_color(l@),
{
    if str_eq(l, "black") {
        Some(ThemeColor::Black)
    } else if str_eq(l, "red") {
        Some(ThemeColor::Red)
    } else if str_eq(l, "green") {
        Some(ThemeColor::Green)
    } else if str_eq(l, "yellow") {
        Some(ThemeColor::Yellow)
    } else if str_eq(l, "blue") {
        Some(ThemeColor::Blue)
    } else if str_eq(l, "magenta") {
        Some(ThemeColor::Magenta)
    } else if str_eq(l, "cyan") {
        Some(ThemeColor::Cyan)
    } else if str_eq(l, "white") {
        Some(ThemeColor::White)
    } else if str_eq(l, "darkgray") || str_eq(l, "dark_gray") || str_eq(l, "grey") || str_eq(
        l,
        "gray",
    ) {
        Some(ThemeColor::DarkGray)
    } else if str_eq(l, "lightred") || str_eq(l, "light_red") {
        Some(ThemeColor::LightRed)
    } else if str_eq(l, "lightgreen") || str_eq(l, "light_green") {
        Some(ThemeColor::LightGreen)
    } else if str_eq(l, "lightyellow") || str_eq(l, "light_yellow") {
        Some(ThemeColor::LightYellow)
    } else if str_eq(l, "lightblue") || str_eq(l, "light_blue") {
        Some(ThemeColor::LightBlue)
    } else if str_eq(l, "lightmagenta") || str_eq(l, "light_magenta") {
        Some(ThemeColor::LightMagenta)
    } else if str_eq(l, "lightcyan") || str_eq(l, "light_cyan") {
        Some(ThemeColor::LightCyan)
    } else if str_eq(l, "lightwhite") || str_eq(l, "light_white") {
        Some(ThemeColor::White)
    } else if str_eq(l, "reset") {
        Some(ThemeColor::Reset)
    } else {
        None
    }
}

fn hex_byte_or_zero(b: &[u8], from: usize, to: usize) -> (r: u8)
    requires
        from <= to <= b@.len(),
        to - from <= 2,
    ensures
        r == hex_or_zero(b@.subrange(from as int, to as int)),
{
    match parse_hex_exec(b, from, to) {
        Some(v) => v,
        None => 0,
    }
}

/// Read a colour name; every name gives a colour.
///
/// Named colours are matched case-insensitively (`Green`, `DarkGray`,
/// `light_blue`, ...); `#rgb` and `#rrggbb` give RGB colours (a digit
/// that does not parse counts as zero); anything else is dark gray.
pub fn try_parse_color(s: &str) -> (r: Option<ThemeColor>)
    ensures
        r == color_for(s@),
        r is Some,
        all_ascii(s@) ==> r == color_of_lower(ascii_lower_seq(s@)),
{
    let lower = to_lowercase(s);
    let l = lower.as_str();
    match named_color_exec(l) {
        Some(c) => Some(c),
        None => {
            if !has_prefix(l, "#") {
                return Some(ThemeColor::DarkGray);
            }
            let b = l.as_bytes();
            proof {
                reveal_strlit("#");
                assert("#"@.len() == 1 && "#"@[0] == '#');
                assert(l@.subrange(0, 1)[0] == l@[0]);
                assert(l@[0] == '#');
                assert(encode_utf8(l@) == encode_utf8(seq![l@[0]]) + encode_utf8(
                    l@.drop_first(),
                )) by {
                    reveal_with_fuel(encode_utf8, 2);
                    assert(seq![l@[0]].drop_first() =~= Seq::<char>::empty());
                }
            }
            let n = b.len() - 1;
            if n == 3 {
                let r0 = hex_byte_or_zero(b, 1, 2);
                let g0 = hex_byte_or_zero(b, 2, 3);
                let b0 = hex_byte_or_zero(b, 3, 4);
                assert(r0 <= 15 && g0 <= 15 && b0 <= 15) by {
                    lemma_one_digit(b@.subrange(1, 2));
                    lemma_one_digit(b@.subrange(2, 3));
                    lemma_one_digit(b@.subrange(3, 4));
                }
                Some(ThemeColor::Rgb(r0 * 17, g0 * 17, b0 * 17))
            } else if n == 6 {
                Some(
                    ThemeColor::Rgb(
                        hex_byte_or_zero(b, 1, 3),
                        hex_byte_or_zero(b, 3, 5),
                        hex_byte_or_zero(b, 5, 7),
                    ),
                )
            } else {
                Some(ThemeColor::DarkGray)
            }
        },
    }
}

proof fn lemma_one_digit(d: Seq<u8>)
    requires
        d.len() == 1,
    ensures
        hex_or_zero(d) <= 15,
{
    reveal_with_fuel(hex_value, 2);
    assert(d.drop_last() =~= Seq::<u8>::empty());
}

/// Read a colour name: named colours (case-insensitive), `#rgb`,
/// `#rrggbb`, and dark gray for anything else.
pub fn parse_color(s: &str) -> (r: ThemeColor)
    ensures
        Some(r) == color_for(s@),
        all_ascii(s@) ==> Some(r) == color_of_lower(ascii_lower_seq(s@)),
{
    try_parse_color(s).unwrap()
}


// ── Theme ────────────────────────────────────────────────────────────

/// All colours of the interface as names (any case) or `#rgb` / `#rrggbb`.
pub struct Theme {
    /// Border colour of the focused panel.
    pub border_focused: String,
    /// Border colour of unfocused panels.
    pub border_unfocused: String,
    /// Cursor foreground (highlighted line).
    pub cursor_fg: String,
    /// Cursor background (highlighted line).
    pub cursor_bg: String,
    /// Foreground of selected items.
    pub selected_fg: String,
    /// Normal text.
    pub text_fg: String,
    /// Dim / secondary text.
    pub dim_text_fg: String,
    /// Accent for highlights (popup borders, active fields).
    pub accent_fg: String,
    /// Warnings.
    pub warning_fg: String,
    /// Errors.
    pub error_fg: String,
    /// Info log entries.
    pub info_fg: String,
    /// Success log entries.
    pub success_fg: String,
    /// The progress bar.
    pub progress_fg: String,
    /// Directory names.
    pub directory_fg: String,
    /// Background of popups.
    pub background: String,
    /// Titles and paths.
    pub title_fg: String,
}

/// The default `border_focused` colour: `Green`.
pub fn default_border_focused() -> (r: String)
    ensures
        r@ == "Green"@,
{
    copy_str("Green")
}

/// The default `border_unfocused` colour: `DarkGray`.
pub fn default_border_unfocused() -> (r: String)
    ensures
        r@ == "DarkGray"@,
{
    copy_str("DarkGray")
}

/// The default `cursor_fg` colour: `Cyan`.
pub fn default_cursor_fg() -> (r: String)
    ensures
        r@ == "Cyan"@,
{
    copy_str("Cyan")
}

/// The default `cursor_bg` colour: `DarkGray`.
pub fn default_cursor_bg() -> (r: String)
    ensures
        r@ == "DarkGray"@,
{
    copy_str("DarkGray")
}

/// The default `selected_fg` colour: `Green`.
pub fn default_selected_fg() -> (r: String)
    ensures
        r@ == "Green"@,
{
    copy_str("Green")
}

/// The default `text_fg` colour: `White`.
pub fn default_text_fg() -> (r: String)
    ensures
        r@ == "White"@,
{
    copy_str("White")
}

/// The default `dim_text_fg` colour: `DarkGray`.
pub fn default_dim_text_fg() -> (r: String)
    ensures
        r@ == "DarkGray"@,
{
    copy_str("DarkGray")
}

/// The default `accent_fg` colour: `Cyan`.
pub fn default_accent_fg() -> (r: String)
    ensures
        r@ == "Cyan"@,
{
    copy_str("Cyan")
}

/// The default `warning_fg` colour: `Yellow`.
pub fn default_warning_fg() -> (r: String)
    ensures
        r@ == "Yellow"@,
{
    copy_str("Yellow")
}

/// The default `error_fg` colour: `Red`.
pub fn default_error_fg() -> (r: String)
    ensures
        r@ == "Red"@,
{
    copy_str("Red")
}

/// The default `info_fg` colour: `Blue`.
pub fn default_info_fg() -> (r: String)
    ensures
        r@ == "Blue"@,
{
    copy_str("Blue")
}

/// The default `success_fg` colour: `Green`.
pub fn default_success_fg() -> (r: String)
    ensures
        r@ == "Green"@,
{
    copy_str("Green")
}

/// The default `progress_fg` colour: `Cyan`.
pub fn default_progress_fg() -> (r: String)
    ensures
        r@ == "Cyan"@,
{
    copy_str("Cyan")
}

/// The default `directory_fg` colour: `Blue`.
pub fn default_directory_fg() -> (r: String)
    ensures
        r@ == "Blue"@,
{
    copy_str("Blue")
}

/// The default `background` colour: `Black`.
pub fn default_background() -> (r: String)
    ensures
        r@ == "Black"@,
{
    copy_str("Black")
}

/// The default `title_fg` colour: `Yellow`.
pub fn default_title_fg() -> (r: String)
    ensures
        r@ == "Yellow"@,
{
    copy_str("Yellow")
}

/// Whether a theme holds the default colour names.
pub open spec fn is_default_theme(t: Theme) -> bool {
    &&& t.border_focused@ == "Green"@
    &&& t.border_unfocused@ == "DarkGray"@
    &&& t.cursor_fg@ == "Cyan"@
    &&& t.cursor_bg@ == "DarkGray"@
    &&& t.selected_fg@ == "Green"@
    &&& t.text_fg@ == "White"@
    &&& t.dim_text_fg@ == "DarkGray"@
    &&& t.accent_fg@ == "Cyan"@
    &&& t.warning_fg@ == "Yellow"@
    &&& t.error_fg@ == "Red"@
    &&& t.info_fg@ == "Blue"@
    &&& t.success_fg@ == "Green"@
    &&& t.progress_fg@ == "Cyan"@
    &&& t.directory_fg@ == "Blue"@
    &&& t.background@ == "Black"@
    &&& t.title_fg@ == "Yellow"@
}

impl Default for Theme {
    fn default() -> (r: Theme)
        ensures
            is_default_theme(r),
    {
        Theme {
            border_focused: default_border_focused(),
            border_unfocused: default_border_unfocused(),
            cursor_fg: default_cursor_fg(),
            cursor_bg: default_cursor_bg(),
            selected_fg: default_selected_fg(),
            text_fg: default_text_fg(),
            dim_text_fg: default_dim_text_fg(),
            accent_fg: default_accent_fg(),
            warning_fg: default_warning_fg(),
            error_fg: default_error_fg(),
            info_fg: default_info_fg(),
            success_fg: default_success_fg(),
            progress_fg: default_progress_fg(),
            directory_fg: default_directory_fg(),
            background: default_background(),
            title_fg: default_title_fg(),
        }
    }
}

/// The theme with every colour read.
pub struct ThemeColors {
    /// Border colour of the focused panel.
    pub border_focused: ThemeColor,
    /// Border colour of unfocused panels.
    pub border_unfocused: ThemeColor,
    /// Cursor foreground (highlighted line).
    pub cursor_fg: ThemeColor,
    /// Cursor background (highlighted line).
    pub cursor_bg: ThemeColor,
    /// Foreground of selected items.
    pub selected_fg: ThemeColor,
    /// Normal text.
    pub text_fg: ThemeColor,
    /// Dim / secondary text.
    pub dim_text_fg: ThemeColor,
    /// Accent for highlights (popup borders, active fields).
    pub accent_fg: ThemeColor,
    /// Warnings.
    pub warning_fg: ThemeColor,
    /// Errors.
    pub error_fg: ThemeColor,
    /// Info log entries.
    pub info_fg: ThemeColor,
    /// Success log entries.
    pub success_fg: ThemeColor,
    /// The progress bar.
    pub progress_fg: ThemeColor,
    /// Directory names.
    pub directory_fg: ThemeColor,
    /// Background of popups.
    pub background: ThemeColor,
    /// Titles and paths.
    pub title_fg: ThemeColor,
}

/// Whether every colour name of the theme can be read.
pub open spec fn theme_readable(t: Theme) -> bool {
    &&& color_for(t.border_focused@) is Some
    &&& color_for(t.border_unfocused@) is Some
    &&& color_for(t.cursor_fg@) is Some
    &&& color_for(t.cursor_bg@) is Some
    &&& color_for(t.selected_fg@) is Some
    &&& color_for(t.text_fg@) is Some
    &&& color_for(t.dim_text_fg@) is Some
    &&& color_for(t.accent_fg@) is Some
    &&& color_for(t.warning_fg@) is Some
    &&& color_for(t.error_fg@) is Some
    &&& color_for(t.info_fg@) is Some
    &&& color_for(t.success_fg@) is Some
    &&& color_for(t.progress_fg@) is Some
    &&& color_for(t.directory_fg@) is Some
    &&& color_for(t.background@) is Some
    &&& color_for(t.title_fg@) is Some
}

/// Whether `c` holds the colours read from `t`.
pub open spec fn colors_of(t: Theme, c: ThemeColors) -> bool {
    &&& color_for(t.border_focused@) == Some(c.border_focused)
    &&& color_for(t.border_unfocused@) == Some(c.border_unfocused)
    &&& color_for(t.cursor_fg@) == Some(c.cursor_fg)
    &&& color_for(t.cursor_bg@) == Some(c.cursor_bg)
    &&& color_for(t.selected_fg@) == Some(c.selected_fg)
    &&& color_for(t.text_fg@) == Some(c.text_fg)
    &&& color_for(t.dim_text_fg@) == Some(c.dim_text_fg)
    &&& color_for(t.accent_fg@) == Some(c.accent_fg)
    &&& color_for(t.warning_fg@) == Some(c.warning_fg)
    &&& color_for(t.error_fg@) == Some(c.error_fg)
    &&& color_for(t.info_fg@) == Some(c.info_fg)
    &&& color_for(t.success_fg@) == Some(c.success_fg)
    &&& color_for(t.progress_fg@) == Some(c.progress_fg)
    &&& color_for(t.directory_fg@) == Some(c.directory_fg)
    &&& color_for(t.background@) == Some(c.background)
    &&& color_for(t.title_fg@) == Some(c.title_fg)
}

impl ThemeColors {
    /// Read every colour of the theme; every theme can be read.
    pub fn try_from_theme(t: &Theme) -> (r: Option<ThemeColors>)
        ensures
            theme_readable(*t) <==> r is Some,
            r is Some,
            r matches Some(c) ==> colors_of(*t, c),
    {
        let border_focused = match try_parse_color(t.border_focused.as_str()) {
            Some(c) => c,
            None => return None,
        };
        let border_unfocused = match try_parse_color(t.border_unfocused.as_str()) {
            Some(c) => c,
            None => return None,
        };
        let cursor_fg = match try_parse_color(t.cursor_fg.as_str()) {
            Some(c) => c,
            None => return None,
        };
        let cursor_bg = match try_parse_color(t.cursor_bg.as_str()) {
            Some(c) => c,
            None => return None,
        };
        let selected_fg = match try_parse_color(t.selected_fg.as_str()) {
            Some(c) => c,
            None => return None,
        };
        let text_fg = match try_parse_color(t.text_fg.as_str()) {
            Some(c) => c,
            None => return None,
        };
        let dim_text_fg = match try_parse_color(t.dim_text_fg.as_str()) {
            Some(c) => c,
            None => return None,
        };
        let accent_fg = match try_parse_color(t.accent_fg.as_str()) {
            Some(c) => c,
            None => return None,
        };
        let warning_fg = match try_parse_color(t.warning_fg.as_str()) {
            Some(c) => c,
            None => return None,
        };
        let error_fg = match try_parse_color(t.error_fg.as_str()) {
            Some(c) => c,
            None => return None,
        };
        let info_fg = match try_parse_color(t.info_fg.as_str()) {
            Some(c) => c,
            None => return None,
        };
        let success_fg = match try_parse_color(t.success_fg.as_str()) {
            Some(c) => c,
            None => return None,
        };
        let progress_fg = match try_parse_color(t.progress_fg.as_str()) {
            Some(c) => c,
            None => return None,
        };
        let directory_fg = match try_parse_color(t.directory_fg.as_str()) {
            Some(c) => c,
            None => return None,
        };
        let background = match try_parse_color(t.background.as_str()) {
            Some(c) => c,
            None => return None,
        };
        let title_fg = match try_parse_color(t.title_fg.as_str()) {
            Some(c) => c,
            None => return None,
        };
        Some(ThemeColors {
            border_focused,
            border_unfocused,
            cursor_fg,
            cursor_bg,
            selected_fg,
            text_fg,
            dim_text_fg,
            accent_fg,
            warning_fg,
            error_fg,
            info_fg,
            success_fg,
            progress_fg,
            directory_fg,
            background,
            title_fg,
        })
    }

    /// Read every colour of the theme.
    pub fn from_theme(t: &Theme) -> (r: ThemeColors)
        ensures
            colors_of(*t, r),
    {
        Self::try_from_theme(t).unwrap()
    }
}

// ── Settings ──────────────────────────────────────────────────────────

/// The default output suffix: `lazymagick`.
pub fn default_suffix() -> (r: String)
    ensures
        r@ == "lazymagick"@,
{
    copy_str("lazymagick")
}

/// Application settings, persisted to `settings.toml`.
pub struct Settings {
    /// Suffix added to output names when input and output formats match.
    pub auto_suffix: String,
    /// Skip the "run this command?" confirmation.
    pub skip_run_confirm: bool,
    /// Skip the "overwrite existing file?" confirmation.
    pub skip_overwrite_confirm: bool,
    /// Directory to start in.
    pub default_directory: Option<String>,
    /// Colour theme.
    pub theme: Theme,
}

impl Default for Settings {
    fn default() -> (r: Settings)
        ensures
            r.auto_suffix@ == "lazymagick"@,
            !r.skip_run_confirm,
            !r.skip_overwrite_confirm,
            r.default_directory is None,
            is_default_theme(r.theme),
    {
        Settings {
            auto_suffix: default_suffix(),
            skip_run_confirm: false,
            skip_overwrite_confirm: false,
            default_directory: None,
            theme: Theme::default(),
        }
    }
}

// ── Configuration paths ───────────────────────────────────────────────

/// `dirs::config_dir` as a string (lossy for paths that are not UTF-8).
/// It reads the environment and the user database, and the contract says
/// nothing of the result.
#[verifier::external_body]
fn os_config_dir() -> Option<String> {
    dirs::config_dir().map(|p| p.to_string_lossy().into_owned())
}

/// `dirs::home_dir` as a string (lossy for paths that are not UTF-8). It
/// reads the environment and the user database, and the contract says
/// nothing of the result.
#[verifier::external_body]
fn os_home_dir() -> Option<String> {
    dirs::home_dir().map(|p| p.to_string_lossy().into_owned())
}

/// The configuration directory for a given system configuration directory
/// and home directory: `{config}/lazymagick`, or `{home}/.config/lazymagick`
/// without one (`home` empty when unknown).
pub open spec fn config_dir_for(config: Option<Seq<char>>, home: Option<Seq<char>>) -> Seq<char> {
    let base = match config {
        Some(c) => c,
        None => join(
            match home {
                Some(h) => h,
                None => Seq::empty(),
            },
            ".config"@,
        ),
    };
    join(base, "lazymagick"@)
}

/// The configuration directory from the system's answers.
pub fn config_dir_from(config: Option<String>, home: Option<String>) -> (r: String)
    ensures
        r@ == config_dir_for(crate::recipe::opt_view(config), crate::recipe::opt_view(home)),
{
    let base = match config {
        Some(c) => c,
        None => {
            let h = match home {
                Some(h) => h,
                None => String::new(),
            };
            join_path(h.as_str(), ".config")
        },
    };
    join_path(base.as_str(), "lazymagick")
}

/// Whether `p` is `{some configuration directory}/{name}`.
pub open spec fn in_some_config_dir(p: Seq<char>, name: Seq<char>) -> bool {
    exists|c: Option<Seq<char>>, h: Option<Seq<char>>| p == join(config_dir_for(c, h), name)
}

/// The configuration directory: `~/.config/lazymagick/` (or under
/// `$XDG_CONFIG_HOME`).
pub fn config_dir() -> (r: String)
    ensures
        exists|c: Option<Seq<char>>, h: Option<Seq<char>>| r@ == config_dir_for(c, h),
{
    let c = os_config_dir();
    let h = os_home_dir();
    config_dir_from(c, h)
}

/// The user recipes directory: `{config_dir}/recipes`.
pub fn user_recipes_dir() -> (r: String)
    ensures
        in_some_config_dir(r@, "recipes"@),
{
    let d = config_dir();
    join_path(d.as_str(), "recipes")
}

/// The usage counters file: `{config_dir}/usage.toml`.
pub fn usage_path() -> (r: String)
    ensures
        in_some_config_dir(r@, "usage.toml"@),
{
    let d = config_dir();
    join_path(d.as_str(), "usage.toml")
}

/// The settings file: `{config_dir}/settings.toml`.
pub fn settings_path() -> (r: String)
    ensures
        in_some_config_dir(r@, "settings.toml"@),
{
    let d = config_dir();
    join_path(d.as_str(), "settings.toml")
}

} // verus!
