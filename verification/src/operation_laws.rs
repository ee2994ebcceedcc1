//! What single operations are for, stated over their inputs and results:
//! the recipe filter, the magick jobs a run builds, the suffix of a safe
//! output name, and the EXIF fields read from `identify` output.

use vstd::prelude::*;
use crate::app::AppModel;
use crate::app_view::{filtered, matching_upto, recipe_matches, tag_matches};
use crate::app_run::job_for;
use crate::recipe::{recipe_args, RecipeView};
use crate::magick::{
    exif_fold, exif_line, exif_of, is_exif_property, lower_no_white, magick_safe_output, suffixed,
    ExifView,
};
use crate::paths::extension;
use crate::text::{
    ascii_lower_seq, char_lowercase, is_white, lowercase, non_white_chars, seq_contains, split_once,
    starts_with, trim, word_scan, words,
};

verus! {

// ── The recipe filter ─────────────────────────────────────────────────

proof fn lemma_matching_members(rs: Seq<RecipeView>, f: Seq<char>, n: int, i: int)
    requires
        0 <= n <= rs.len(),
        rs.len() <= usize::MAX,
        0 <= i < rs.len(),
    ensures
        matching_upto(rs, f, n).contains(i as usize) <==> (i < n && recipe_matches(rs[i], f)),
    decreases n,
{
    if n > 0 {
        lemma_matching_members(rs, f, n - 1, i);
        let p = matching_upto(rs, f, n - 1);
        if recipe_matches(rs[n - 1], f) {
            let q = p.push((n - 1) as usize);
            assert(q[p.len() as int] == (n - 1) as usize);
            if p.contains(i as usize) {
                let j = choose|j: int| 0 <= j < p.len() && p[j] == i as usize;
                assert(q[j] == i as usize);
            }
            if q.contains(i as usize) && i != n - 1 {
                let j = choose|j: int| 0 <= j < q.len() && q[j] == i as usize;
                assert(j < p.len());
                assert(p[j] == i as usize);
            }
        }
    }
}

/// With a filter typed, the recipe list shows exactly the recipes whose
/// name, category or one of whose tags, lowercased, contains the
/// lowercased filter; without one it shows every recipe, in order.
pub proof fn law_filter_shows_matching_recipes(m: AppModel, i: int)
    requires
        m.recipes.len() <= usize::MAX,
        0 <= i < m.recipes.len(),
    ensures
        m.recipe_filter.len() > 0 ==> (filtered(m).contains(i as usize) <==> (
            seq_contains(lowercase(m.recipes[i].name), lowercase(m.recipe_filter))
            || (m.recipes[i].category is Some && seq_contains(
                lowercase(m.recipes[i].category->0),
                lowercase(m.recipe_filter),
            ))
            || exists|t: int|
                0 <= t < m.recipes[i].tags.len() && seq_contains(
                    lowercase(#[trigger] m.recipes[i].tags[t]),
                    lowercase(m.recipe_filter),
                ))),
        m.recipe_filter.len() == 0 ==> filtered(m).len() == m.recipes.len() && filtered(m)[i]
            == i,
{
    if m.recipe_filter.len() > 0 {
        let f = lowercase(m.recipe_filter);
        lemma_matching_members(m.recipes, f, m.recipes.len() as int, i);
        let r = m.recipes[i];
        assert(recipe_matches(r, f) == (seq_contains(lowercase(r.name), f) || (r.category is Some
            && seq_contains(lowercase(r.category->0), f)) || tag_matches(r.tags, f)));
    }
}

// ── Splitting into words ──────────────────────────────────────────────

/// Whether every part is a non-empty run of non-whitespace characters.
pub open spec fn all_solid(ws: Seq<Seq<char>>) -> bool {
    forall|j: int|
        0 <= j < ws.len() ==> (#[trigger] ws[j]).len() > 0 && forall|k: int|
            0 <= k < ws[j].len() ==> !is_white(#[trigger] ws[j][k])
}

proof fn lemma_word_scan(s: Seq<char>, i: int)
    requires
        0 <= i <= s.len(),
    ensures
        word_scan(s, i).0.flatten() + word_scan(s, i).1 == non_white_chars(s.subrange(0, i)),
        all_solid(word_scan(s, i).0),
        forall|k: int| 0 <= k < word_scan(s, i).1.len() ==> !is_white(#[trigger] word_scan(s, i).1[k]),
    decreases i,
{
    broadcast use Seq::lemma_flatten_push;

    if i == 0 {
        reveal(Seq::filter);
        assert(s.subrange(0, 0) =~= Seq::<char>::empty());
        assert(word_scan(s, 0).0.flatten() =~= Seq::<char>::empty());
        assert(word_scan(s, i).0.flatten() + word_scan(s, i).1 =~= Seq::<char>::empty());
    } else {
        lemma_word_scan(s, i - 1);
        let (done, cur) = word_scan(s, i - 1);
        let t = s.subrange(0, i);
        assert(t.drop_last() =~= s.subrange(0, i - 1));
        assert(t.last() == s[i - 1]);
        reveal(Seq::filter);
        if is_white(s[i - 1]) {
            assert(non_white_chars(t) == non_white_chars(s.subrange(0, i - 1)));
            if cur.len() > 0 {
                assert(done.push(cur).flatten() =~= done.flatten() + cur);
                assert(done.push(cur).flatten() + Seq::<char>::empty() =~= done.flatten() + cur);
                assert forall|j: int| 0 <= j < done.push(cur).len() implies (#[trigger] done.push(
                    cur,
                )[j]).len() > 0 && forall|k: int|
                    0 <= k < done.push(cur)[j].len() ==> !is_white(#[trigger] done.push(cur)[j][k]) by {
                    if j < done.len() {
                        assert(done.push(cur)[j] == done[j]);
                    } else {
                        assert(done.push(cur)[j] == cur);
                    }
                }
            }
        } else {
            assert(non_white_chars(t) == non_white_chars(s.subrange(0, i - 1)).push(s[i - 1]));
            assert(done.flatten() + cur.push(s[i - 1]) =~= (done.flatten() + cur).push(s[i - 1]));
            assert forall|k: int| 0 <= k < cur.push(s[i - 1]).len() implies !is_white(
                #[trigger] cur.push(s[i - 1])[k],
            ) by {
                if k < cur.len() {
                    assert(cur.push(s[i - 1])[k] == cur[k]);
                }
            }
        }
    }
}

/// Splitting on whitespace keeps every other character, in order: the
/// words put together are the string without its whitespace, and each
/// word is a non-empty run of non-whitespace characters.
pub proof fn law_words_keep_text(s: Seq<char>)
    ensures
        words(s).flatten() == non_white_chars(s),
        all_solid(words(s)),
        non_white_chars(s).len() > 0 ==> words(s).len() > 0,
{
    broadcast use Seq::lemma_flatten_push;

    lemma_word_scan(s, s.len() as int);
    assert(s.subrange(0, s.len() as int) =~= s);
    let (done, cur) = word_scan(s, s.len() as int);
    if cur.len() > 0 {
        assert(done.push(cur).flatten() =~= done.flatten() + cur);
        assert forall|j: int| 0 <= j < done.push(cur).len() implies (#[trigger] done.push(
            cur,
        )[j]).len() > 0 && forall|k: int|
            0 <= k < done.push(cur)[j].len() ==> !is_white(#[trigger] done.push(cur)[j][k]) by {
            if j < done.len() {
                assert(done.push(cur)[j] == done[j]);
            } else {
                assert(done.push(cur)[j] == cur);
            }
        }
    } else {
        assert(done.flatten() + cur =~= done.flatten());
        if non_white_chars(s).len() > 0 && done.len() == 0 {
            assert(done.flatten() =~= Seq::<char>::empty());
        }
    }
}

// ── The jobs of a run ─────────────────────────────────────────────────

/// Every job a run builds calls `magick` with `-monitor`, the input, the
/// recipe's arguments (with the chosen format's), the output, and then
/// every word of the edit popup's extra arguments, in order; so extra
/// arguments that are not blank make the command longer.
pub proof fn law_job_command(m: AppModel, r: RecipeView, input: Seq<char>)
    ensures
        job_for(m, r, input) is Some ==> {
            let j = job_for(m, r, input)->0;
            &&& j.input == input
            &&& j.recipe_name == r.name
            &&& j.argv == seq!["magick"@, "-monitor"@, input] + recipe_args(r, m.format_override)
                + seq![j.output] + words(m.edit_extra_args)
            &&& non_white_chars(m.edit_extra_args).len() > 0 ==> j.argv.len() > 4 + recipe_args(
                r,
                m.format_override,
            ).len()
        },
{
    law_words_keep_text(m.edit_extra_args);
    if job_for(m, r, input) is Some {
        let j = job_for(m, r, input)->0;
        assert(j.argv =~= seq!["magick"@, "-monitor"@, input] + recipe_args(r, m.format_override)
            + seq![j.output] + words(m.edit_extra_args));
    }
}

// ── The suffix of a safe output name ──────────────────────────────────

/// The suffix a recipe name gives: `_` and then the lowercase of each of
/// its characters that is not whitespace, in order.
pub open spec fn name_suffix(name: Seq<char>) -> Seq<char> {
    seq!['_'] + non_white_chars(name).map_values(|c: char| char_lowercase(c)).flatten()
}

proof fn lemma_lower_no_white(s: Seq<char>)
    ensures
        lower_no_white(s) == non_white_chars(s).map_values(|c: char| char_lowercase(c)).flatten(),
    decreases s.len(),
{
    broadcast use Seq::lemma_flatten_push;

    reveal(Seq::filter);
    if s.len() == 0 {
        assert(non_white_chars(s) =~= Seq::<char>::empty());
        assert(non_white_chars(s).map_values(|c: char| char_lowercase(c)) =~= Seq::<Seq<char>>::empty());
    } else {
        lemma_lower_no_white(s.drop_last());
        let c = s.last();
        let f = |c: char| char_lowercase(c);
        let a = non_white_chars(s.drop_last());
        if is_white(c) {
            assert(non_white_chars(s) == a);
            assert(lower_no_white(s) =~= lower_no_white(s.drop_last()));
        } else {
            assert(non_white_chars(s) == a.push(c));
            assert(a.push(c).map_values(f) =~= a.map_values(f).push(char_lowercase(c)));
            assert(a.map_values(f).push(char_lowercase(c)).flatten() =~= a.map_values(f).flatten()
                + char_lowercase(c));
        }
    }
}

/// Where the output keeps the input's extension (ignoring ASCII case),
/// the safe output path puts the recipe's suffix (every non-whitespace
/// character of its name, lowercased, in order, after `_`) between the
/// output's stem and extension, twice where once would give the input
/// back; otherwise it is the output itself.
pub proof fn law_magick_safe_suffix(input: Seq<char>, output: Seq<char>, name: Seq<char>)
    ensures
        lower_no_white(name) == non_white_chars(name).map_values(|c: char| char_lowercase(c)).flatten(),
        ({
            let t = name_suffix(name);
            let same = match (extension(input), extension(output)) {
                (Some(a), Some(b)) => ascii_lower_seq(a) == ascii_lower_seq(b),
                (None, None) => true,
                _ => false,
            };
            &&& !same ==> magick_safe_output(input, output, name) == output
            &&& same && suffixed(output, t) != input ==> magick_safe_output(input, output, name)
                == suffixed(output, t)
            &&& same && suffixed(output, t) == input ==> magick_safe_output(input, output, name)
                == suffixed(output, t + t)
        }),
{
    lemma_lower_no_white(name);
    match (extension(input), extension(output)) {
        (Some(a), Some(b)) => {
            if ascii_lower_seq(a) != ascii_lower_seq(b) {
                assert(Some(ascii_lower_seq(a)) != Some(ascii_lower_seq(b)));
            }
        },
        _ => {},
    }
}

// ── EXIF fields ───────────────────────────────────────────────────────

proof fn lemma_exif_fold_prefix(ls: Seq<Seq<char>>, l: Seq<char>, k: int)
    requires
        0 <= k <= ls.len(),
    ensures
        exif_fold(ls.push(l), k) == exif_fold(ls, k),
    decreases k,
{
    if k > 0 {
        lemma_exif_fold_prefix(ls, l, k - 1);
        assert(ls.push(l)[k - 1] == ls[k - 1]);
    }
}

/// Inside the `Properties:` section, a line `key: value` whose key is one
/// of the EXIF keys the panel shows sets exactly the field that key names
/// to the trimmed value (the first of the two date keys seen wins), and
/// leaves every other field as it was; the section stays open.
#[verifier::spinoff_prover]
pub proof fn law_exif_key_sets_its_field(
    ls: Seq<Seq<char>>,
    line: Seq<char>,
    key: Seq<char>,
    value: Seq<char>,
)
    requires
        exif_fold(ls, ls.len() as int).0,
        split_once(trim(line), ": "@) == Some((key, value)),
    ensures
        ({
            let x = exif_of(ls);
            let y = exif_of(ls.push(line));
            let v = trim(value);
            &&& key == "exif:Make"@ ==> y == ExifView { make: v, ..x }
            &&& key == "exif:Model"@ ==> y == ExifView { model: v, ..x }
            &&& key == "exif:ISOSpeedRatings"@ || key == "exif:ISOSpeed"@ ==> y == ExifView {
                iso: v,
                ..x
            }
            &&& key == "exif:ExposureTime"@ ==> y == ExifView { exposure: v, ..x }
            &&& key == "exif:FNumber"@ ==> y == ExifView { aperture: v, ..x }
            &&& key == "exif:FocalLength"@ ==> y == ExifView { focal_length: v, ..x }
            &&& key == "exif:DateTimeOriginal"@ || key == "exif:DateTimeDigitized"@ ==> y == (
            if x.date_taken.len() == 0 {
                ExifView { date_taken: v, ..x }
            } else {
                x
            })
            &&& key == "exif:GPSLatitude"@ ==> y == ExifView { gps_latitude: v, ..x }
            &&& key == "exif:GPSLongitude"@ ==> y == ExifView { gps_longitude: v, ..x }
            &&& key == "exif:Software"@ ==> y == ExifView { software: v, ..x }
            &&& key == "exif:Orientation"@ ==> y == ExifView { orientation: v, ..x }
        }),
        starts_with(key, "exif:"@) ==> exif_fold(ls.push(line), ls.len() + 1int).0,
{
    let n = ls.len() as int;
    lemma_exif_fold_prefix(ls, line, n);
    assert(ls.push(line)[n] == line);
    let t = trim(line);
    crate::text::lemma_find_from(t, ": "@, 0);
    reveal_strlit("exif:");
    reveal_strlit("exif:Make");
    reveal_strlit("exif:Model");
    reveal_strlit("exif:ISOSpeedRatings");
    reveal_strlit("exif:ISOSpeed");
    reveal_strlit("exif:ExposureTime");
    reveal_strlit("exif:FNumber");
    reveal_strlit("exif:FocalLength");
    reveal_strlit("exif:DateTimeOriginal");
    reveal_strlit("exif:DateTimeDigitized");
    reveal_strlit("exif:GPSLatitude");
    reveal_strlit("exif:GPSLongitude");
    reveal_strlit("exif:Software");
    reveal_strlit("exif:Orientation");
    assert("exif:ISOSpeed"@[5] == 'I' && "exif:Software"@[5] == 'S');
    assert("exif:ExposureTime"@[5] == 'E' && "exif:GPSLongitude"@[5] == 'G');
    assert("exif:FocalLength"@[5] == 'F' && "exif:GPSLatitude"@[5] == 'G');
    assert("exif:Orientation"@[5] == 'O');
    if key == "exif:Make"@ || key == "exif:Model"@ || key == "exif:ISOSpeedRatings"@ || key
        == "exif:ISOSpeed"@ || key == "exif:ExposureTime"@ || key == "exif:FNumber"@ || key
        == "exif:FocalLength"@ || key == "exif:DateTimeOriginal"@ || key == "exif:DateTimeDigitized"@
        || key == "exif:GPSLatitude"@ || key == "exif:GPSLongitude"@ || key == "exif:Software"@
        || key == "exif:Orientation"@ {
        assert(key.subrange(0, 5) =~= "exif:"@);
    }
    if starts_with(key, "exif:"@) {
        reveal_strlit("Properties:");
        assert(t.subrange(0, key.len() as int) == key);
        assert(t[0] == key[0]);
        assert(t.subrange(0, 5) =~= key.subrange(0, 5));
        assert(starts_with(t, "exif:"@));
        assert(is_exif_property(t));
        assert(t != "Properties:"@) by {
            assert("Properties:"@[0] == 'P');
        }
        assert(exif_fold(ls.push(line), n + 1) == (true, crate::magick::exif_set(exif_of(ls), key, trim(value))));
    }
}

} // verus!
