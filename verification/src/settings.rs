//! The persisted settings: `key=value` lines (`theme=dark`, `lang=ru-RU`).
//! A missing file or key means "follow the system". The older format, a
//! bare `light` / `dark` word, still reads as the theme.

use vstd::prelude::*;
use crate::i18n::{lang_from_tag, law_tags_roundtrip, lemma_tag_is_plain, tag_text, Lang};
use crate::text::{
    chars_of, equals_str, first_index_of, lemma_first_index_of, lemma_first_index_of_concat,
    lemma_split_on_cons, push_str, slice_chars, split_chars, split_on, string_of, trim_chars,
    trimmed,
};

verus! {

/// A theme tone, as the UI toolkit knows them; `Neutral` has no specific
/// tone and is never a manual choice.
#[derive(Debug, Clone, Copy, PartialEq, Eq, Structural)]
pub enum ThemeMode {
    Neutral,
    Light,
    Dark,
}

/// The saved manual choices; `None` follows the system.
#[derive(Debug, Clone, Copy, PartialEq, Eq, Structural)]
pub struct Settings {
    pub theme: Option<ThemeMode>,
    pub lang: Option<Lang>,
}

impl Default for Settings {
    fn default() -> (s: Self)
        ensures
            s.theme is None,
            s.lang is None,
    {
        Settings { theme: None, lang: None }
    }
}

/// The settings that follow the system in everything.
pub open spec fn system_settings() -> Settings {
    Settings { theme: None, lang: None }
}

/// The key and the value of a settings line, before trimming: the text
/// around its first `=`; a line without one is a bare theme word.
pub open spec fn line_key_value(line: Seq<char>) -> (Seq<char>, Seq<char>) {
    let i = first_index_of(line, '=');
    if i < line.len() {
        (line.take(i), line.skip(i + 1))
    } else {
        ("theme"@, line)
    }
}

/// The settings after reading one line: `theme=light` and `theme=dark` set
/// the theme, `lang=` with a known tag sets the language; anything else,
/// an unknown tag too, keeps what earlier lines set.
pub open spec fn apply_line(s: Settings, line: Seq<char>) -> Settings {
    let kv = line_key_value(line);
    let key = trimmed(kv.0);
    let value = trimmed(kv.1);
    if key == "theme"@ && value == "light"@ {
        Settings { theme: Some(ThemeMode::Light), lang: s.lang }
    } else if key == "theme"@ && value == "dark"@ {
        Settings { theme: Some(ThemeMode::Dark), lang: s.lang }
    } else if key == "lang"@ {
        match lang_from_tag(value) {
            Some(lang) => Settings { theme: s.theme, lang: Some(lang) },
            None => s,
        }
    } else {
        s
    }
}

/// The settings after reading `lines` in order from the system default.
pub open spec fn settings_from_lines(lines: Seq<Seq<char>>) -> Settings
    decreases lines.len(),
{
    if lines.len() == 0 {
        system_settings()
    } else {
        apply_line(settings_from_lines(lines.drop_last()), lines.last())
    }
}

/// The settings a saved text holds. Splitting at `\n` alone is enough: a
/// `\r` before it is white space that trimming removes, and an empty last
/// piece changes nothing.
pub open spec fn settings_from_text(text: Seq<char>) -> Settings {
    settings_from_lines(split_on(text, '\n'))
}

/// The word a theme is saved as; `Neutral` is never a manual choice and is
/// saved as `light`.
pub open spec fn theme_word(mode: ThemeMode) -> Seq<char> {
    match mode {
        ThemeMode::Dark => "dark"@,
        _ => "light"@,
    }
}

/// The text the settings are saved as: a `theme=` line and a `lang=` line,
/// each only when that choice is manual.
pub open spec fn settings_text(s: Settings) -> Seq<char> {
    let theme_part = match s.theme {
        Some(mode) => "theme"@ + seq!['='] + theme_word(mode) + seq!['\n'],
        None => Seq::empty(),
    };
    let lang_part = match s.lang {
        Some(lang) => "lang"@ + seq!['='] + tag_text(lang) + seq!['\n'],
        None => Seq::empty(),
    };
    theme_part + lang_part
}

/// Reads the saved choices out of the text of the settings file. An
/// unknown key or an unrecognized value leaves that choice to the system.
pub fn parse_settings(text: &str) -> (s: Settings)
    ensures
        s == settings_from_text(text@),
{
    let chars = chars_of(text);
    let lines = split_chars(chars.as_slice(), '\n');
    let ghost views = split_on(text@, '\n');
    proof {
        assert(lines@.map_values(|p: Vec<char>| p@) =~= views);
        assert(views.take(0) =~= Seq::<Seq<char>>::empty());
    }
    let mut settings = Settings::default();
    let mut k: usize = 0;
    while k < lines.len()
        invariant
            k <= lines@.len(),
            lines@.map_values(|p: Vec<char>| p@) == views,
            settings == settings_from_lines(views.take(k as int)),
        decreases lines@.len() - k,
    {
        let line = lines[k].as_slice();
        proof {
            assert(views.take(k + 1).drop_last() =~= views.take(k as int));
            assert(views.take(k + 1).last() == line@);
            lemma_first_index_of(line@, '=');
        }
        let mut eq: usize = 0;
        while eq < line.len() && line[eq] != '='
            invariant
                eq <= line@.len(),
                forall|q: int| 0 <= q < eq ==> line@[q] != '=',
            decreases line@.len() - eq,
        {
            eq += 1;
        }
        proof {
            assert(eq == first_index_of(line@, '=')) by {
                let f = first_index_of(line@, '=');
                if f < eq {
                    assert(line@[f] == '=');
                }
                if eq < f {
                    assert(line@[eq as int] == '=');
                }
            }
        }
        let (key, value) = if eq < line.len() {
            (trim_chars(slice_chars(line, 0, eq).as_slice()), trim_chars(
                slice_chars(line, eq + 1, line.len()).as_slice(),
            ))
        } else {
            (chars_of("theme"), trim_chars(line))
        };
        proof {
            if eq < line@.len() {
                assert(line@.subrange(0, eq as int) =~= line@.take(eq as int));
                assert(line@.subrange(eq + 1, line@.len() as int) =~= line@.skip(eq + 1));
            } else {
                let theme: Seq<char> = "theme"@;
                lemma_trimmed_theme();
                assert(key@ == trimmed(theme));
            }
        }
        if equals_str(key.as_slice(), "theme") && equals_str(value.as_slice(), "light") {
            settings = Settings { theme: Some(ThemeMode::Light), lang: settings.lang };
        } else if equals_str(key.as_slice(), "theme") && equals_str(value.as_slice(), "dark") {
            settings = Settings { theme: Some(ThemeMode::Dark), lang: settings.lang };
        } else if equals_str(key.as_slice(), "lang") {
            // Like the theme, keep a previously read language when a later
            // `lang=` line carries an unrecognized tag.
            let tag = string_of(value.as_slice());
            if let Some(lang) = Lang::from_tag(tag.as_str()) {
                settings = Settings { theme: settings.theme, lang: Some(lang) };
            }
        }
        k += 1;
    }
    proof {
        assert(views.take(k as int) =~= views);
    }
    settings
}

proof fn lemma_trimmed_theme()
    ensures
        trimmed("theme"@) == "theme"@,
{
    reveal_strlit("theme");
    let t: Seq<char> = "theme"@;
    assert(crate::text::trim_start(t) == t);
    assert(crate::text::trim_end(t) == t);
}

/// The text the settings are saved as: `theme=` and `lang=` lines, a `None`
/// choice left out so that it keeps following the system.
pub fn settings_to_text(s: Settings) -> (text: String)
    ensures
        text@ == settings_text(s),
{
    let mut out: Vec<char> = Vec::new();
    if let Some(mode) = s.theme {
        let word = match mode {
            ThemeMode::Dark => "dark",
            ThemeMode::Light | ThemeMode::Neutral => "light",
        };
        push_str(&mut out, "theme");
        out.push('=');
        push_str(&mut out, word);
        out.push('\n');
    }
    let ghost theme_part = out@;
    if let Some(lang) = s.lang {
        push_str(&mut out, "lang");
        out.push('=');
        push_str(&mut out, lang.tag());
        out.push('\n');
        proof {
            assert(out@ =~= theme_part + ("lang"@ + seq!['='] + tag_text(lang) + seq!['\n']));
        }
    }
    proof {
        assert(out@ =~= settings_text(s));
    }
    string_of(out.as_slice())
}


proof fn lemma_words()
    ensures
        "theme"@ =~= seq!['t', 'h', 'e', 'm', 'e'],
        "lang"@ =~= seq!['l', 'a', 'n', 'g'],
        "light"@ =~= seq!['l', 'i', 'g', 'h', 't'],
        "dark"@ =~= seq!['d', 'a', 'r', 'k'],
        trimmed("theme"@) == "theme"@,
        trimmed("lang"@) == "lang"@,
        trimmed("light"@) == "light"@,
        trimmed("dark"@) == "dark"@,
{
    reveal_strlit("theme");
    reveal_strlit("lang");
    reveal_strlit("light");
    reveal_strlit("dark");
    let w: Seq<Seq<char>> = seq!["theme"@, "lang"@, "light"@, "dark"@];
    assert forall|i: int| 0 <= i < 4 implies trimmed(#[trigger] w[i]) == w[i] by {
        let x = w[i];
        assert(crate::text::trim_start(x) == x);
        assert(crate::text::trim_end(x) == x);
    }
    assert(trimmed(w[0]) == w[0]);
    assert(trimmed(w[1]) == w[1]);
    assert(trimmed(w[2]) == w[2]);
    assert(trimmed(w[3]) == w[3]);
}

/// Reading a `key=value` line whose key holds no `=`.
proof fn lemma_key_value(key: Seq<char>, value: Seq<char>)
    requires
        !key.contains('='),
    ensures
        line_key_value(key + seq!['='] + value) == (key, value),
{
    let line = key + seq!['='] + value;
    lemma_first_index_of_concat(key, seq!['='] + value, '=');
    assert(line =~= key + (seq!['='] + value));
    lemma_first_index_of(line, '=');
    assert(line.take(key.len() as int) =~= key);
    assert(line.skip(key.len() as int + 1) =~= value);
}

/// Saving settings and loading them back gives the same settings, for
/// every choice that can be made by hand (the neutral tone is saved as
/// `light`).
pub proof fn law_settings_text_roundtrip(s: Settings)
    requires
        s.theme != Some(ThemeMode::Neutral),
    ensures
        settings_from_text(settings_text(s)) == s,
{
    lemma_words();
    let e: Seq<char> = Seq::empty();
    let theme_key: Seq<char> = "theme"@;
    let lang_key: Seq<char> = "lang"@;
    assert(!theme_key.contains('=') && !theme_key.contains('\n'));
    assert(!lang_key.contains('=') && !lang_key.contains('\n'));
    crate::text::lemma_first_index_of(e, '\n');
    assert(split_on(e, '\n') =~= seq![e]);
    let lang_part = match s.lang {
        Some(lang) => lang_key + seq!['='] + tag_text(lang) + seq!['\n'],
        None => e,
    };
    let lang_lines = match s.lang {
        Some(lang) => seq![lang_key + seq!['='] + tag_text(lang), e],
        None => seq![e],
    };
    if let Some(lang) = s.lang {
        lemma_tag_is_plain(lang);
        let line = lang_key + seq!['='] + tag_text(lang);
        assert(!line.contains('\n')) by {
            if line.contains('\n') {
                let k = choose|k: int| 0 <= k < line.len() && line[k] == '\n';
                if k < lang_key.len() {
                    assert(lang_key[k] == '\n');
                } else if k > lang_key.len() {
                    assert(tag_text(lang)[k - lang_key.len() - 1] == '\n');
                }
            }
        }
        lemma_split_on_cons(line, e, '\n');
        assert(lang_part =~= line + seq!['\n'] + e);
        lemma_key_value(lang_key, tag_text(lang));
        law_tags_roundtrip(lang);
    }
    assert(split_on(lang_part, '\n') == lang_lines);
    let lines = match s.theme {
        Some(mode) => seq![theme_key + seq!['='] + theme_word(mode)] + lang_lines,
        None => lang_lines,
    };
    if let Some(mode) = s.theme {
        let word = theme_word(mode);
        let line = theme_key + seq!['='] + word;
        assert(!line.contains('\n')) by {
            if line.contains('\n') {
                let k = choose|k: int| 0 <= k < line.len() && line[k] == '\n';
                if k < theme_key.len() {
                    assert(theme_key[k] == '\n');
                } else if k > theme_key.len() {
                    assert(word[k - theme_key.len() - 1] == '\n');
                }
            }
        }
        lemma_split_on_cons(line, lang_part, '\n');
        assert(settings_text(s) =~= line + seq!['\n'] + lang_part);
        lemma_key_value(theme_key, word);
    } else {
        assert(settings_text(s) =~= lang_part);
    }
    assert(split_on(settings_text(s), '\n') == lines);
    assert(line_key_value(e) == (theme_key, e));
    assert(trimmed(e) =~= e);
    reveal_with_fuel(settings_from_lines, 4);
    let d = system_settings();
    match (s.theme, s.lang) {
        (Some(mode), Some(lang)) => {
            assert(lines.len() == 3);
            assert(lines.drop_last().drop_last().drop_last() =~= Seq::<Seq<char>>::empty());
            assert(lines.drop_last().drop_last().last() == lines[0]);
            assert(lines.drop_last().last() == lines[1]);
        },
        (Some(mode), None) => {
            assert(lines.len() == 2);
            assert(lines.drop_last().drop_last() =~= Seq::<Seq<char>>::empty());
            assert(lines.drop_last().last() == lines[0]);
        },
        (None, Some(lang)) => {
            assert(lines.len() == 2);
            assert(lines.drop_last().drop_last() =~= Seq::<Seq<char>>::empty());
            assert(lines.drop_last().last() == lines[0]);
        },
        (None, None) => {
            assert(lines.len() == 1);
            assert(lines.drop_last() =~= Seq::<Seq<char>>::empty());
        },
    }
}

} // verus!
