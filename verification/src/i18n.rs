//! UI languages: their identifiers, menu names and the mapping from a
//! system locale onto the closest one.

use vstd::prelude::*;
use crate::text::{chars_of, equals_str, first_index_of, split_chars, split_on, trim_end, trim_start, trimmed};

verus! {

/// A UI language offered by the footer menu. `tag()` / `from_tag` round-trip
/// the BCP-47-style identifiers for persistence; `from_locale` maps an
/// arbitrary system locale onto the closest entry.
#[derive(Debug, Clone, Copy, PartialEq, Eq, Structural)]
pub enum Lang {
    EnUs,
    ZhCn,
    EsEs,
    HiIn,
    Ar,
    PtPt,
    JaJp,
    RuRu,
    FrFr,
    DeDe,
    Es419,
    Id,
    ItIt,
    Ko,
    PtBr,
    Th,
    Tr,
    Fa,
    Nl,
    Pl,
    Vi,
    Cs,
    El,
    Sv,
    Uk,
    Hu,
    Ro,
    Da,
    Fi,
    No,
    Sk,
    Bg,
    Hr,
    Lt,
    Sr,
    Lv,
    Sl,
    Et,
    He,
    Ms,
    Fil,
}

/// Regions whose Spanish reads as Latin American (plus the UN macro-region
/// code `419` itself); anything else falls back to European Spanish.
pub const LATIN_AMERICA: [&'static str; 21] = [
    "419", "ar", "bo", "cl", "co", "cr", "cu", "do", "ec", "gt", "hn", "mx", "ni", "pa", "pe", "pr", "py", "sv", "us", "uy", "ve",
];

/// The short menu: the most spoken languages, shown until the "…" entry
/// expands the list to [`ALL`].
pub const PRIMARY: [Lang; 17] = [
    Lang::EnUs,
    Lang::ZhCn,
    Lang::EsEs,
    Lang::HiIn,
    Lang::Ar,
    Lang::PtPt,
    Lang::JaJp,
    Lang::RuRu,
    Lang::FrFr,
    Lang::DeDe,
    Lang::Es419,
    Lang::Id,
    Lang::ItIt,
    Lang::Ko,
    Lang::PtBr,
    Lang::Th,
    Lang::Tr,
];

/// Every language, ordered by the share of web content (the regional
/// variants of Spanish and Portuguese sit together).
pub const ALL: [Lang; 41] = [
    Lang::EnUs,
    Lang::EsEs,
    Lang::Es419,
    Lang::DeDe,
    Lang::JaJp,
    Lang::RuRu,
    Lang::FrFr,
    Lang::ZhCn,
    Lang::PtPt,
    Lang::PtBr,
    Lang::ItIt,
    Lang::Tr,
    Lang::HiIn,
    Lang::Fa,
    Lang::Nl,
    Lang::Pl,
    Lang::Id,
    Lang::Ar,
    Lang::Ko,
    Lang::Vi,
    Lang::Cs,
    Lang::El,
    Lang::Sv,
    Lang::Th,
    Lang::Uk,
    Lang::Hu,
    Lang::Ro,
    Lang::Da,
    Lang::Fi,
    Lang::No,
    Lang::Sk,
    Lang::Bg,
    Lang::Hr,
    Lang::Lt,
    Lang::Sr,
    Lang::Lv,
    Lang::Sl,
    Lang::Et,
    Lang::He,
    Lang::Ms,
    Lang::Fil,
];

/// The identifier the settings file stores for `lang`.
pub open spec fn tag_text(lang: Lang) -> Seq<char> {
    match lang {
        Lang::EnUs => "en-US"@,
        Lang::ZhCn => "zh-CN"@,
        Lang::EsEs => "es-ES"@,
        Lang::HiIn => "hi-IN"@,
        Lang::Ar => "ar"@,
        Lang::PtPt => "pt-PT"@,
        Lang::JaJp => "ja-JP"@,
        Lang::RuRu => "ru-RU"@,
        Lang::FrFr => "fr-FR"@,
        Lang::DeDe => "de-DE"@,
        Lang::Es419 => "es-419"@,
        Lang::Id => "id"@,
        Lang::ItIt => "it-IT"@,
        Lang::Ko => "ko"@,
        Lang::PtBr => "pt-BR"@,
        Lang::Th => "th"@,
        Lang::Tr => "tr"@,
        Lang::Fa => "fa"@,
        Lang::Nl => "nl"@,
        Lang::Pl => "pl"@,
        Lang::Vi => "vi"@,
        Lang::Cs => "cs"@,
        Lang::El => "el"@,
        Lang::Sv => "sv"@,
        Lang::Uk => "uk"@,
        Lang::Hu => "hu"@,
        Lang::Ro => "ro"@,
        Lang::Da => "da"@,
        Lang::Fi => "fi"@,
        Lang::No => "no"@,
        Lang::Sk => "sk"@,
        Lang::Bg => "bg"@,
        Lang::Hr => "hr"@,
        Lang::Lt => "lt"@,
        Lang::Sr => "sr"@,
        Lang::Lv => "lv"@,
        Lang::Sl => "sl"@,
        Lang::Et => "et"@,
        Lang::He => "he"@,
        Lang::Ms => "ms"@,
        Lang::Fil => "fil"@,
    }
}

/// The menu label of `lang`: the language in its own writing.
pub open spec fn native_name_text(lang: Lang) -> Seq<char> {
    match lang {
        Lang::EnUs => "English (US)"@,
        Lang::ZhCn => "中文（简体）"@,
        Lang::EsEs => "Español (España)"@,
        Lang::HiIn => "हिन्दी"@,
        Lang::Ar => "العربية"@,
        Lang::PtPt => "Português (Portugal)"@,
        Lang::JaJp => "日本語"@,
        Lang::RuRu => "Русский"@,
        Lang::FrFr => "Français"@,
        Lang::DeDe => "Deutsch"@,
        Lang::Es419 => "Español (Latinoamérica)"@,
        Lang::Id => "Bahasa Indonesia"@,
        Lang::ItIt => "Italiano"@,
        Lang::Ko => "한국어"@,
        Lang::PtBr => "Português (Brasil)"@,
        Lang::Th => "ไทย"@,
        Lang::Tr => "Türkçe"@,
        Lang::Fa => "فارسی"@,
        Lang::Nl => "Nederlands"@,
        Lang::Pl => "Polski"@,
        Lang::Vi => "Tiếng Việt"@,
        Lang::Cs => "Čeština"@,
        Lang::El => "Ελληνικά"@,
        Lang::Sv => "Svenska"@,
        Lang::Uk => "Українська"@,
        Lang::Hu => "Magyar"@,
        Lang::Ro => "Română"@,
        Lang::Da => "Dansk"@,
        Lang::Fi => "Suomi"@,
        Lang::No => "Norsk"@,
        Lang::Sk => "Slovenčina"@,
        Lang::Bg => "Български"@,
        Lang::Hr => "Hrvatski"@,
        Lang::Lt => "Lietuvių"@,
        Lang::Sr => "Српски"@,
        Lang::Lv => "Latviešu"@,
        Lang::Sl => "Slovenščina"@,
        Lang::Et => "Eesti"@,
        Lang::He => "עברית"@,
        Lang::Ms => "Bahasa Melayu"@,
        Lang::Fil => "Filipino"@,
    }
}

/// The language whose identifier is exactly `tag`, if there is one.
pub open spec fn lang_from_tag(tag: Seq<char>) -> Option<Lang> {
    if exists|lang: Lang| tag_text(lang) == tag {
        Some(choose|lang: Lang| tag_text(lang) == tag)
    } else {
        None
    }
}

/// A locale character as the matching reads it: every separator (`-`, `_`,
/// `.`, `@`) becomes `-`, ASCII capitals become small letters.
pub open spec fn locale_char(c: char) -> char {
    if c == '_' || c == '.' || c == '@' {
        '-'
    } else if 'A' <= c && c <= 'Z' {
        ((c as u32) + 32) as char
    } else {
        c
    }
}

/// `c` in upper case, for ASCII letters; any other character as it is.
pub open spec fn ascii_upper(c: char) -> char {
    if 'a' <= c && c <= 'z' {
        ((c as u32) - 32) as char
    } else {
        c
    }
}

/// Locale matching ignores ASCII case: a locale and its upper-case
/// spelling select the same entry.
pub proof fn law_locale_matching_ignores_case(locale: Seq<char>)
    ensures
        locale_lang(locale.map_values(|c: char| ascii_upper(c))) == locale_lang(locale),
{
    let upper = locale.map_values(|c: char| ascii_upper(c));
    assert(upper.map_values(|c: char| locale_char(c)) =~= locale.map_values(
        |c: char| locale_char(c),
    )) by {
        assert forall|i: int| 0 <= i < locale.len() implies locale_char(ascii_upper(locale[i]))
            == locale_char(locale[i]) by {
            let c = locale[i];
            if 'a' <= c && c <= 'z' {
                assert(((((c as u32) - 32) as char) as u32) + 32 == c as u32);
            }
        }
    }
}

/// The subtags of a locale: the pieces between separators, lower-cased.
pub open spec fn locale_parts(locale: Seq<char>) -> Seq<Seq<char>> {
    split_on(locale.map_values(|c: char| locale_char(c)), '-')
}

pub open spec fn is_ascii_letter(c: char) -> bool {
    ('a' <= c && c <= 'z') || ('A' <= c && c <= 'Z')
}

/// A region subtag: two ASCII letters, or the macro-region `419`. Scripts
/// (`hans`) and encodings (`utf`) are longer and do not count.
pub open spec fn is_region_subtag(part: Seq<char>) -> bool {
    part == "419"@ || (part.len() == 2 && is_ascii_letter(part[0]) && is_ascii_letter(part[1]))
}

/// The first region subtag among `parts`.
pub open spec fn first_region(parts: Seq<Seq<char>>) -> Option<Seq<char>>
    decreases parts.len(),
{
    if parts.len() == 0 {
        None
    } else if is_region_subtag(parts[0]) {
        Some(parts[0])
    } else {
        first_region(parts.drop_first())
    }
}

pub open spec fn is_latin_american(region: Seq<char>) -> bool {
    exists|i: int| 0 <= i < LATIN_AMERICA@.len() && (#[trigger] LATIN_AMERICA@[i])@ == region
}

/// The menu entry for a language subtag and the locale's region.
pub open spec fn lang_for(language: Seq<char>, region: Option<Seq<char>>) -> Lang {
    if language == "en"@ {
        Lang::EnUs
    } else if language == "zh"@ {
        Lang::ZhCn
    } else if language == "es"@ {
        if region matches Some(r) && is_latin_american(r) {
            Lang::Es419
        } else {
            Lang::EsEs
        }
    } else if language == "hi"@ {
        Lang::HiIn
    } else if language == "ar"@ {
        Lang::Ar
    } else if language == "pt"@ {
        if region == Some("br"@) {
            Lang::PtBr
        } else {
            Lang::PtPt
        }
    } else if language == "ja"@ {
        Lang::JaJp
    } else if language == "ru"@ {
        Lang::RuRu
    } else if language == "fr"@ {
        Lang::FrFr
    } else if language == "de"@ {
        Lang::DeDe
    } else if language == "id"@ {
        Lang::Id
    } else if language == "in"@ {
        Lang::Id
    } else if language == "it"@ {
        Lang::ItIt
    } else if language == "ko"@ {
        Lang::Ko
    } else if language == "th"@ {
        Lang::Th
    } else if language == "tr"@ {
        Lang::Tr
    } else if language == "fa"@ {
        Lang::Fa
    } else if language == "nl"@ {
        Lang::Nl
    } else if language == "pl"@ {
        Lang::Pl
    } else if language == "vi"@ {
        Lang::Vi
    } else if language == "cs"@ {
        Lang::Cs
    } else if language == "el"@ {
        Lang::El
    } else if language == "sv"@ {
        Lang::Sv
    } else if language == "uk"@ {
        Lang::Uk
    } else if language == "hu"@ {
        Lang::Hu
    } else if language == "ro"@ {
        Lang::Ro
    } else if language == "da"@ {
        Lang::Da
    } else if language == "fi"@ {
        Lang::Fi
    } else if language == "no"@ {
        Lang::No
    } else if language == "nb"@ {
        Lang::No
    } else if language == "nn"@ {
        Lang::No
    } else if language == "sk"@ {
        Lang::Sk
    } else if language == "bg"@ {
        Lang::Bg
    } else if language == "hr"@ {
        Lang::Hr
    } else if language == "lt"@ {
        Lang::Lt
    } else if language == "sr"@ {
        Lang::Sr
    } else if language == "lv"@ {
        Lang::Lv
    } else if language == "sl"@ {
        Lang::Sl
    } else if language == "et"@ {
        Lang::Et
    } else if language == "he"@ {
        Lang::He
    } else if language == "iw"@ {
        Lang::He
    } else if language == "ms"@ {
        Lang::Ms
    } else if language == "fil"@ {
        Lang::Fil
    } else if language == "tl"@ {
        Lang::Fil
    } else {
        Lang::EnUs
    }
}

/// The menu entry a system locale maps onto: by its language subtag, with
/// the first region subtag deciding between the Spanish and the Portuguese
/// variants; unknown languages read as English.
pub open spec fn locale_lang(locale: Seq<char>) -> Lang {
    let parts = locale_parts(locale);
    lang_for(parts[0], first_region(parts.drop_first()))
}

fn locale_chars(locale: &str) -> (v: Vec<char>)
    ensures
        v@ == locale@.map_values(|c: char| locale_char(c)),
{
    let chars = chars_of(locale);
    let mut v: Vec<char> = Vec::new();
    let mut i: usize = 0;
    while i < chars.len()
        invariant
            i <= chars@.len(),
            chars@ == locale@,
            v@ == chars@.take(i as int).map_values(|c: char| locale_char(c)),
        decreases chars@.len() - i,
    {
        let c = chars[i];
        let d = if c == '_' || c == '.' || c == '@' {
            '-'
        } else if 'A' <= c && c <= 'Z' {
            ((c as u8) + 32) as char
        } else {
            c
        };
        v.push(d);
        proof {
            assert(chars@.take(i + 1) =~= chars@.take(i as int).push(c));
            assert(v@ =~= chars@.take(i + 1).map_values(|c: char| locale_char(c)));
        }
        i += 1;
    }
    proof {
        assert(chars@.take(i as int) =~= chars@);
    }
    v
}

fn ascii_letter(c: char) -> (r: bool)
    ensures
        r == is_ascii_letter(c),
{
    ('a' <= c && c <= 'z') || ('A' <= c && c <= 'Z')
}

fn region_subtag(part: &[char]) -> (r: bool)
    ensures
        r == is_region_subtag(part@),
{
    equals_str(part, "419") || (part.len() == 2 && ascii_letter(part[0]) && ascii_letter(part[1]))
}

fn latin_american(region: &[char]) -> (r: bool)
    ensures
        r == is_latin_american(region@),
{
    let table = LATIN_AMERICA;
    let mut i: usize = 0;
    while i < table.len()
        invariant
            i <= table@.len(),
            table@ == LATIN_AMERICA@,
            forall|j: int| 0 <= j < i ==> (#[trigger] table@[j])@ != region@,
        decreases table@.len() - i,
    {
        if equals_str(region, table[i]) {
            return true;
        }
        i += 1;
    }
    false
}

/// Whether every language of `ALL` and of nothing else is listed, once.
pub open spec fn lists_every_language_once(list: Seq<Lang>) -> bool {
    &&& list.no_duplicates()
    &&& forall|lang: Lang| #[trigger] list.contains(lang)
}

/// `ALL` offers every language exactly once.
pub proof fn law_all_lists_every_language_once()
    ensures
        lists_every_language_once(ALL@),
{
    let a = ALL@;
    assert(a[0] == Lang::EnUs);
    assert(a[1] == Lang::EsEs);
    assert(a[2] == Lang::Es419);
    assert(a[3] == Lang::DeDe);
    assert(a[4] == Lang::JaJp);
    assert(a[5] == Lang::RuRu);
    assert(a[6] == Lang::FrFr);
    assert(a[7] == Lang::ZhCn);
    assert(a[8] == Lang::PtPt);
    assert(a[9] == Lang::PtBr);
    assert(a[10] == Lang::ItIt);
    assert(a[11] == Lang::Tr);
    assert(a[12] == Lang::HiIn);
    assert(a[13] == Lang::Fa);
    assert(a[14] == Lang::Nl);
    assert(a[15] == Lang::Pl);
    assert(a[16] == Lang::Id);
    assert(a[17] == Lang::Ar);
    assert(a[18] == Lang::Ko);
    assert(a[19] == Lang::Vi);
    assert(a[20] == Lang::Cs);
    assert(a[21] == Lang::El);
    assert(a[22] == Lang::Sv);
    assert(a[23] == Lang::Th);
    assert(a[24] == Lang::Uk);
    assert(a[25] == Lang::Hu);
    assert(a[26] == Lang::Ro);
    assert(a[27] == Lang::Da);
    assert(a[28] == Lang::Fi);
    assert(a[29] == Lang::No);
    assert(a[30] == Lang::Sk);
    assert(a[31] == Lang::Bg);
    assert(a[32] == Lang::Hr);
    assert(a[33] == Lang::Lt);
    assert(a[34] == Lang::Sr);
    assert(a[35] == Lang::Lv);
    assert(a[36] == Lang::Sl);
    assert(a[37] == Lang::Et);
    assert(a[38] == Lang::He);
    assert(a[39] == Lang::Ms);
    assert(a[40] == Lang::Fil);
    assert forall|lang: Lang| #[trigger] a.contains(lang) by {
        match lang {
            Lang::EnUs => assert(a[0] == lang),
            Lang::ZhCn => assert(a[7] == lang),
            Lang::EsEs => assert(a[1] == lang),
            Lang::HiIn => assert(a[12] == lang),
            Lang::Ar => assert(a[17] == lang),
            Lang::PtPt => assert(a[8] == lang),
            Lang::JaJp => assert(a[4] == lang),
            Lang::RuRu => assert(a[5] == lang),
            Lang::FrFr => assert(a[6] == lang),
            Lang::DeDe => assert(a[3] == lang),
            Lang::Es419 => assert(a[2] == lang),
            Lang::Id => assert(a[16] == lang),
            Lang::ItIt => assert(a[10] == lang),
            Lang::Ko => assert(a[18] == lang),
            Lang::PtBr => assert(a[9] == lang),
            Lang::Th => assert(a[23] == lang),
            Lang::Tr => assert(a[11] == lang),
            Lang::Fa => assert(a[13] == lang),
            Lang::Nl => assert(a[14] == lang),
            Lang::Pl => assert(a[15] == lang),
            Lang::Vi => assert(a[19] == lang),
            Lang::Cs => assert(a[20] == lang),
            Lang::El => assert(a[21] == lang),
            Lang::Sv => assert(a[22] == lang),
            Lang::Uk => assert(a[24] == lang),
            Lang::Hu => assert(a[25] == lang),
            Lang::Ro => assert(a[26] == lang),
            Lang::Da => assert(a[27] == lang),
            Lang::Fi => assert(a[28] == lang),
            Lang::No => assert(a[29] == lang),
            Lang::Sk => assert(a[30] == lang),
            Lang::Bg => assert(a[31] == lang),
            Lang::Hr => assert(a[32] == lang),
            Lang::Lt => assert(a[33] == lang),
            Lang::Sr => assert(a[34] == lang),
            Lang::Lv => assert(a[35] == lang),
            Lang::Sl => assert(a[36] == lang),
            Lang::Et => assert(a[37] == lang),
            Lang::He => assert(a[38] == lang),
            Lang::Ms => assert(a[39] == lang),
            Lang::Fil => assert(a[40] == lang),
        }
    }
}

/// The short menu only offers languages of the full one.
pub proof fn law_primary_languages_are_a_subset_of_all()
    ensures
        forall|i: int| 0 <= i < PRIMARY@.len() ==> ALL@.contains(#[trigger] PRIMARY@[i]),
{
    law_all_lists_every_language_once();
}

/// What tells the identifiers apart: length, first two characters and,
/// for the longer ones, the first character of the region.
spec fn tag_fingerprint(s: Seq<char>) -> (int, char, char, char) {
    (s.len() as int, s[0], s[1], if s.len() > 3 { s[3] } else { ' ' })
}

spec fn lang_of_fingerprint(f: (int, char, char, char)) -> Lang {
    if f == (5int, 'e', 'n', 'U') {
        Lang::EnUs
    } else if f == (5int, 'z', 'h', 'C') {
        Lang::ZhCn
    } else if f == (5int, 'e', 's', 'E') {
        Lang::EsEs
    } else if f == (5int, 'h', 'i', 'I') {
        Lang::HiIn
    } else if f == (2int, 'a', 'r', ' ') {
        Lang::Ar
    } else if f == (5int, 'p', 't', 'P') {
        Lang::PtPt
    } else if f == (5int, 'j', 'a', 'J') {
        Lang::JaJp
    } else if f == (5int, 'r', 'u', 'R') {
        Lang::RuRu
    } else if f == (5int, 'f', 'r', 'F') {
        Lang::FrFr
    } else if f == (5int, 'd', 'e', 'D') {
        Lang::DeDe
    } else if f == (6int, 'e', 's', '4') {
        Lang::Es419
    } else if f == (2int, 'i', 'd', ' ') {
        Lang::Id
    } else if f == (5int, 'i', 't', 'I') {
        Lang::ItIt
    } else if f == (2int, 'k', 'o', ' ') {
        Lang::Ko
    } else if f == (5int, 'p', 't', 'B') {
        Lang::PtBr
    } else if f == (2int, 't', 'h', ' ') {
        Lang::Th
    } else if f == (2int, 't', 'r', ' ') {
        Lang::Tr
    } else if f == (2int, 'f', 'a', ' ') {
        Lang::Fa
    } else if f == (2int, 'n', 'l', ' ') {
        Lang::Nl
    } else if f == (2int, 'p', 'l', ' ') {
        Lang::Pl
    } else if f == (2int, 'v', 'i', ' ') {
        Lang::Vi
    } else if f == (2int, 'c', 's', ' ') {
        Lang::Cs
    } else if f == (2int, 'e', 'l', ' ') {
        Lang::El
    } else if f == (2int, 's', 'v', ' ') {
        Lang::Sv
    } else if f == (2int, 'u', 'k', ' ') {
        Lang::Uk
    } else if f == (2int, 'h', 'u', ' ') {
        Lang::Hu
    } else if f == (2int, 'r', 'o', ' ') {
        Lang::Ro
    } else if f == (2int, 'd', 'a', ' ') {
        Lang::Da
    } else if f == (2int, 'f', 'i', ' ') {
        Lang::Fi
    } else if f == (2int, 'n', 'o', ' ') {
        Lang::No
    } else if f == (2int, 's', 'k', ' ') {
        Lang::Sk
    } else if f == (2int, 'b', 'g', ' ') {
        Lang::Bg
    } else if f == (2int, 'h', 'r', ' ') {
        Lang::Hr
    } else if f == (2int, 'l', 't', ' ') {
        Lang::Lt
    } else if f == (2int, 's', 'r', ' ') {
        Lang::Sr
    } else if f == (2int, 'l', 'v', ' ') {
        Lang::Lv
    } else if f == (2int, 's', 'l', ' ') {
        Lang::Sl
    } else if f == (2int, 'e', 't', ' ') {
        Lang::Et
    } else if f == (2int, 'h', 'e', ' ') {
        Lang::He
    } else if f == (2int, 'm', 's', ' ') {
        Lang::Ms
    } else if f == (3int, 'f', 'i', ' ') {
        Lang::Fil
    } else {
        Lang::EnUs
    }
}

proof fn lemma_tag_fingerprint(lang: Lang)
    ensures
        lang_of_fingerprint(tag_fingerprint(tag_text(lang))) == lang,
{
    match lang {
        Lang::EnUs => {
            reveal_strlit("en-US");
            assert(tag_fingerprint(tag_text(lang)) == (5int, 'e', 'n', 'U'));
        },
        Lang::ZhCn => {
            reveal_strlit("zh-CN");
            assert(tag_fingerprint(tag_text(lang)) == (5int, 'z', 'h', 'C'));
        },
        Lang::EsEs => {
            reveal_strlit("es-ES");
            assert(tag_fingerprint(tag_text(lang)) == (5int, 'e', 's', 'E'));
        },
        Lang::HiIn => {
            reveal_strlit("hi-IN");
            assert(tag_fingerprint(tag_text(lang)) == (5int, 'h', 'i', 'I'));
        },
        Lang::Ar => {
            reveal_strlit("ar");
            assert(tag_fingerprint(tag_text(lang)) == (2int, 'a', 'r', ' '));
        },
        Lang::PtPt => {
            reveal_strlit("pt-PT");
            assert(tag_fingerprint(tag_text(lang)) == (5int, 'p', 't', 'P'));
        },
        Lang::JaJp => {
            reveal_strlit("ja-JP");
            assert(tag_fingerprint(tag_text(lang)) == (5int, 'j', 'a', 'J'));
        },
        Lang::RuRu => {
            reveal_strlit("ru-RU");
            assert(tag_fingerprint(tag_text(lang)) == (5int, 'r', 'u', 'R'));
        },
        Lang::FrFr => {
            reveal_strlit("fr-FR");
            assert(tag_fingerprint(tag_text(lang)) == (5int, 'f', 'r', 'F'));
        },
        Lang::DeDe => {
            reveal_strlit("de-DE");
            assert(tag_fingerprint(tag_text(lang)) == (5int, 'd', 'e', 'D'));
        },
        Lang::Es419 => {
            reveal_strlit("es-419");
            assert(tag_fingerprint(tag_text(lang)) == (6int, 'e', 's', '4'));
        },
        Lang::Id => {
            reveal_strlit("id");
            assert(tag_fingerprint(tag_text(lang)) == (2int, 'i', 'd', ' '));
        },
        Lang::ItIt => {
            reveal_strlit("it-IT");
            assert(tag_fingerprint(tag_text(lang)) == (5int, 'i', 't', 'I'));
        },
        Lang::Ko => {
            reveal_strlit("ko");
            assert(tag_fingerprint(tag_text(lang)) == (2int, 'k', 'o', ' '));
        },
        Lang::PtBr => {
            reveal_strlit("pt-BR");
            assert(tag_fingerprint(tag_text(lang)) == (5int, 'p', 't', 'B'));
        },
        Lang::Th => {
            reveal_strlit("th");
            assert(tag_fingerprint(tag_text(lang)) == (2int, 't', 'h', ' '));
        },
        Lang::Tr => {
            reveal_strlit("tr");
            assert(tag_fingerprint(tag_text(lang)) == (2int, 't', 'r', ' '));
        },
        Lang::Fa => {
            reveal_strlit("fa");
            assert(tag_fingerprint(tag_text(lang)) == (2int, 'f', 'a', ' '));
        },
        Lang::Nl => {
            reveal_strlit("nl");
            assert(tag_fingerprint(tag_text(lang)) == (2int, 'n', 'l', ' '));
        },
        Lang::Pl => {
            reveal_strlit("pl");
            assert(tag_fingerprint(tag_text(lang)) == (2int, 'p', 'l', ' '));
        },
        Lang::Vi => {
            reveal_strlit("vi");
            assert(tag_fingerprint(tag_text(lang)) == (2int, 'v', 'i', ' '));
        },
        Lang::Cs => {
            reveal_strlit("cs");
            assert(tag_fingerprint(tag_text(lang)) == (2int, 'c', 's', ' '));
        },
        Lang::El => {
            reveal_strlit("el");
            assert(tag_fingerprint(tag_text(lang)) == (2int, 'e', 'l', ' '));
        },
        Lang::Sv => {
            reveal_strlit("sv");
            assert(tag_fingerprint(tag_text(lang)) == (2int, 's', 'v', ' '));
        },
        Lang::Uk => {
            reveal_strlit("uk");
            assert(tag_fingerprint(tag_text(lang)) == (2int, 'u', 'k', ' '));
        },
        Lang::Hu => {
            reveal_strlit("hu");
            assert(tag_fingerprint(tag_text(lang)) == (2int, 'h', 'u', ' '));
        },
        Lang::Ro => {
            reveal_strlit("ro");
            assert(tag_fingerprint(tag_text(lang)) == (2int, 'r', 'o', ' '));
        },
        Lang::Da => {
            reveal_strlit("da");
            assert(tag_fingerprint(tag_text(lang)) == (2int, 'd', 'a', ' '));
        },
        Lang::Fi => {
            reveal_strlit("fi");
            assert(tag_fingerprint(tag_text(lang)) == (2int, 'f', 'i', ' '));
        },
        Lang::No => {
            reveal_strlit("no");
            assert(tag_fingerprint(tag_text(lang)) == (2int, 'n', 'o', ' '));
        },
        Lang::Sk => {
            reveal_strlit("sk");
            assert(tag_fingerprint(tag_text(lang)) == (2int, 's', 'k', ' '));
        },
        Lang::Bg => {
            reveal_strlit("bg");
            assert(tag_fingerprint(tag_text(lang)) == (2int, 'b', 'g', ' '));
        },
        Lang::Hr => {
            reveal_strlit("hr");
            assert(tag_fingerprint(tag_text(lang)) == (2int, 'h', 'r', ' '));
        },
        Lang::Lt => {
            reveal_strlit("lt");
            assert(tag_fingerprint(tag_text(lang)) == (2int, 'l', 't', ' '));
        },
        Lang::Sr => {
            reveal_strlit("sr");
            assert(tag_fingerprint(tag_text(lang)) == (2int, 's', 'r', ' '));
        },
        Lang::Lv => {
            reveal_strlit("lv");
            assert(tag_fingerprint(tag_text(lang)) == (2int, 'l', 'v', ' '));
        },
        Lang::Sl => {
            reveal_strlit("sl");
            assert(tag_fingerprint(tag_text(lang)) == (2int, 's', 'l', ' '));
        },
        Lang::Et => {
            reveal_strlit("et");
            assert(tag_fingerprint(tag_text(lang)) == (2int, 'e', 't', ' '));
        },
        Lang::He => {
            reveal_strlit("he");
            assert(tag_fingerprint(tag_text(lang)) == (2int, 'h', 'e', ' '));
        },
        Lang::Ms => {
            reveal_strlit("ms");
            assert(tag_fingerprint(tag_text(lang)) == (2int, 'm', 's', ' '));
        },
        Lang::Fil => {
            reveal_strlit("fil");
            assert(tag_fingerprint(tag_text(lang)) == (3int, 'f', 'i', ' '));
        },
    }
}

/// No two languages share an identifier.
pub proof fn law_tags_are_unique(a: Lang, b: Lang)
    ensures
        tag_text(a) == tag_text(b) ==> a == b,
{
    lemma_tag_fingerprint(a);
    lemma_tag_fingerprint(b);
}


/// Whether `s` is a non-empty run of small ASCII letters.
spec fn small_word(s: Seq<char>) -> bool {
    s.len() > 0 && forall|i: int| 0 <= i < s.len() ==> 'a' <= #[trigger] s[i] && s[i] <= 'z'
}

/// Whether every character of `s` is a capital ASCII letter or a digit.
spec fn region_word(s: Seq<char>) -> bool {
    forall|i: int| 0 <= i < s.len() ==> ('A' <= #[trigger] s[i] && s[i] <= 'Z') || ('0' <= s[i]
        && s[i] <= '9')
}

/// An identifier `language` or `language-REGION` splits into its language
/// and its region, lower-cased.
proof fn lemma_locale_of_tag(language: Seq<char>, region: Seq<char>)
    requires
        small_word(language),
        region_word(region),
    ensures
        ({
            let tag = if region.len() == 0 {
                language
            } else {
                language + seq!['-'] + region
            };
            let lower = region.map_values(|c: char| locale_char(c));
            &&& locale_parts(tag)[0] == language
            &&& first_region(locale_parts(tag).drop_first()) == if region.len() > 0
                && is_region_subtag(lower) {
                Some(lower)
            } else {
                None
            }
        }),
{
    let lower = region.map_values(|c: char| locale_char(c));
    assert(language.map_values(|c: char| locale_char(c)) =~= language);
    assert(!language.contains('-'));
    crate::text::lemma_first_index_of(language, '-');
    assert(!lower.contains('-')) by {
        if lower.contains('-') {
            let k = choose|k: int| 0 <= k < lower.len() && lower[k] == '-';
            assert(region_word(region));
            assert(lower[k] == locale_char(region[k]));
        }
    }
    crate::text::lemma_first_index_of(lower, '-');
    if region.len() == 0 {
        assert(first_index_of(language, '-') == language.len());
        assert(split_on(language, '-') == seq![language]);
        assert(locale_parts(language) == seq![language]);
        assert(locale_parts(language)[0] == language);
        assert(locale_parts(language).drop_first() =~= Seq::<Seq<char>>::empty());
        assert(first_region(Seq::<Seq<char>>::empty()) is None);
    } else {
        let tag = language + seq!['-'] + region;
        let mapped = tag.map_values(|c: char| locale_char(c));
        assert(mapped =~= language + seq!['-'] + lower);
        crate::text::lemma_first_index_of(mapped, '-');
        assert forall|k: int| 0 <= k < language.len() implies mapped[k] != '-' by {
            assert(mapped[k] == language[k]);
        }
        assert(mapped[language.len() as int] == '-');
        assert(first_index_of(mapped, '-') == language.len()) by {
            if first_index_of(mapped, '-') < language.len() {
                assert(mapped[first_index_of(mapped, '-')] == '-');
            }
        }
        assert(mapped.take(language.len() as int) =~= language);
        assert(mapped.skip(language.len() as int + 1) =~= lower);
        assert(split_on(lower, '-') == seq![lower]);
        assert(locale_parts(tag) =~= seq![language, lower]);
        assert(locale_parts(tag).drop_first() =~= seq![lower]);
        assert(seq![lower].drop_first() =~= Seq::<Seq<char>>::empty());
    }
}

/// `419` and the Latin American regions are read as Latin American Spanish,
/// Spain's `es` is not.
proof fn lemma_latin_america()
    ensures
        is_latin_american(seq!['4', '1', '9']),
        !is_latin_american(seq!['e', 's']),
{
    reveal_strlit("419");
    reveal_strlit("ar");
    reveal_strlit("bo");
    reveal_strlit("cl");
    reveal_strlit("co");
    reveal_strlit("cr");
    reveal_strlit("cu");
    reveal_strlit("do");
    reveal_strlit("ec");
    reveal_strlit("gt");
    reveal_strlit("hn");
    reveal_strlit("mx");
    reveal_strlit("ni");
    reveal_strlit("pa");
    reveal_strlit("pe");
    reveal_strlit("pr");
    reveal_strlit("py");
    reveal_strlit("sv");
    reveal_strlit("us");
    reveal_strlit("uy");
    reveal_strlit("ve");
    assert(LATIN_AMERICA@[0]@ =~= seq!['4', '1', '9']);
    assert forall|i: int| 0 <= i < LATIN_AMERICA@.len() implies (#[trigger] LATIN_AMERICA@[i])@
        != seq!['e', 's'] by {
        assert(LATIN_AMERICA@[i]@.len() < 2 || LATIN_AMERICA@[i]@[0] != 'e' || LATIN_AMERICA@[i]@[1] != 's');
    }
}

/// A menu entry's own identifier, read as a system locale, selects that
/// entry.
pub proof fn law_tag_read_as_locale_selects_its_language(lang: Lang)
    ensures
        locale_lang(tag_text(lang)) == lang,
{
    reveal_strlit("en");
    reveal_strlit("zh");
    reveal_strlit("es");
    reveal_strlit("hi");
    reveal_strlit("ar");
    reveal_strlit("pt");
    reveal_strlit("br");
    reveal_strlit("ja");
    reveal_strlit("ru");
    reveal_strlit("fr");
    reveal_strlit("de");
    reveal_strlit("id");
    reveal_strlit("in");
    reveal_strlit("it");
    reveal_strlit("ko");
    reveal_strlit("th");
    reveal_strlit("tr");
    reveal_strlit("fa");
    reveal_strlit("nl");
    reveal_strlit("pl");
    reveal_strlit("vi");
    reveal_strlit("cs");
    reveal_strlit("el");
    reveal_strlit("sv");
    reveal_strlit("uk");
    reveal_strlit("hu");
    reveal_strlit("ro");
    reveal_strlit("da");
    reveal_strlit("fi");
    reveal_strlit("no");
    reveal_strlit("nb");
    reveal_strlit("nn");
    reveal_strlit("sk");
    reveal_strlit("bg");
    reveal_strlit("hr");
    reveal_strlit("lt");
    reveal_strlit("sr");
    reveal_strlit("lv");
    reveal_strlit("sl");
    reveal_strlit("et");
    reveal_strlit("he");
    reveal_strlit("iw");
    reveal_strlit("ms");
    reveal_strlit("fil");
    reveal_strlit("tl");
    match lang {
        Lang::EnUs => {
            reveal_strlit("en-US");
            assert(tag_text(lang) =~= seq!['e', 'n', '-', 'U', 'S']);
            assert(seq!['e', 'n'] + seq!['-'] + seq!['U', 'S'] =~= seq!['e', 'n', '-', 'U', 'S']) by {}
            lemma_locale_of_tag(seq!['e', 'n'], seq!['U', 'S']);
            assert(seq!['e', 'n'] =~= "en"@);
            assert(locale_lang(tag_text(lang)) == Lang::EnUs);
        },
        Lang::ZhCn => {
            reveal_strlit("zh-CN");
            assert(tag_text(lang) =~= seq!['z', 'h', '-', 'C', 'N']);
            assert(seq!['z', 'h'] + seq!['-'] + seq!['C', 'N'] =~= seq!['z', 'h', '-', 'C', 'N']) by {}
            lemma_locale_of_tag(seq!['z', 'h'], seq!['C', 'N']);
            assert(seq!['z', 'h'] =~= "zh"@);
            assert(locale_lang(tag_text(lang)) == Lang::ZhCn);
        },
        Lang::EsEs => {
            reveal_strlit("es-ES");
            assert(tag_text(lang) =~= seq!['e', 's', '-', 'E', 'S']);
            assert(seq!['e', 's'] + seq!['-'] + seq!['E', 'S'] =~= seq!['e', 's', '-', 'E', 'S']) by {}
            lemma_locale_of_tag(seq!['e', 's'], seq!['E', 'S']);
            assert(seq!['E', 'S'].map_values(|c: char| locale_char(c)) =~= seq!['e', 's']);
            assert(seq!['e', 's'] =~= "es"@);
            lemma_latin_america();
            assert(locale_lang(tag_text(lang)) == Lang::EsEs);
        },
        Lang::HiIn => {
            reveal_strlit("hi-IN");
            assert(tag_text(lang) =~= seq!['h', 'i', '-', 'I', 'N']);
            assert(seq!['h', 'i'] + seq!['-'] + seq!['I', 'N'] =~= seq!['h', 'i', '-', 'I', 'N']) by {}
            lemma_locale_of_tag(seq!['h', 'i'], seq!['I', 'N']);
            assert(seq!['h', 'i'] =~= "hi"@);
            assert(locale_lang(tag_text(lang)) == Lang::HiIn);
        },
        Lang::Ar => {
            reveal_strlit("ar");
            assert(tag_text(lang) =~= seq!['a', 'r']);
            lemma_locale_of_tag(seq!['a', 'r'], Seq::empty());
            assert(seq!['a', 'r'] =~= "ar"@);
            assert(locale_lang(tag_text(lang)) == Lang::Ar);
        },
        Lang::PtPt => {
            reveal_strlit("pt-PT");
            assert(tag_text(lang) =~= seq!['p', 't', '-', 'P', 'T']);
            assert(seq!['p', 't'] + seq!['-'] + seq!['P', 'T'] =~= seq!['p', 't', '-', 'P', 'T']) by {}
            lemma_locale_of_tag(seq!['p', 't'], seq!['P', 'T']);
            assert(seq!['P', 'T'].map_values(|c: char| locale_char(c)) =~= seq!['p', 't']);
            assert(seq!['p', 't'] =~= "pt"@);
            assert(locale_lang(tag_text(lang)) == Lang::PtPt);
        },
        Lang::JaJp => {
            reveal_strlit("ja-JP");
            assert(tag_text(lang) =~= seq!['j', 'a', '-', 'J', 'P']);
            assert(seq!['j', 'a'] + seq!['-'] + seq!['J', 'P'] =~= seq!['j', 'a', '-', 'J', 'P']) by {}
            lemma_locale_of_tag(seq!['j', 'a'], seq!['J', 'P']);
            assert(seq!['j', 'a'] =~= "ja"@);
            assert(locale_lang(tag_text(lang)) == Lang::JaJp);
        },
        Lang::RuRu => {
            reveal_strlit("ru-RU");
            assert(tag_text(lang) =~= seq!['r', 'u', '-', 'R', 'U']);
            assert(seq!['r', 'u'] + seq!['-'] + seq!['R', 'U'] =~= seq!['r', 'u', '-', 'R', 'U']) by {}
            lemma_locale_of_tag(seq!['r', 'u'], seq!['R', 'U']);
            assert(seq!['r', 'u'] =~= "ru"@);
            assert(locale_lang(tag_text(lang)) == Lang::RuRu);
        },
        Lang::FrFr => {
            reveal_strlit("fr-FR");
            assert(tag_text(lang) =~= seq!['f', 'r', '-', 'F', 'R']);
            assert(seq!['f', 'r'] + seq!['-'] + seq!['F', 'R'] =~= seq!['f', 'r', '-', 'F', 'R']) by {}
            lemma_locale_of_tag(seq!['f', 'r'], seq!['F', 'R']);
            assert(seq!['f', 'r'] =~= "fr"@);
            assert(locale_lang(tag_text(lang)) == Lang::FrFr);
        },
        Lang::DeDe => {
            reveal_strlit("de-DE");
            assert(tag_text(lang) =~= seq!['d', 'e', '-', 'D', 'E']);
            assert(seq!['d', 'e'] + seq!['-'] + seq!['D', 'E'] =~= seq!['d', 'e', '-', 'D', 'E']) by {}
            lemma_locale_of_tag(seq!['d', 'e'], seq!['D', 'E']);
            assert(seq!['d', 'e'] =~= "de"@);
            assert(locale_lang(tag_text(lang)) == Lang::DeDe);
        },
        Lang::Es419 => {
            reveal_strlit("es-419");
            assert(tag_text(lang) =~= seq!['e', 's', '-', '4', '1', '9']);
            assert(seq!['e', 's'] + seq!['-'] + seq!['4', '1', '9'] =~= seq!['e', 's', '-', '4', '1', '9']) by {}
            lemma_locale_of_tag(seq!['e', 's'], seq!['4', '1', '9']);
            reveal_strlit("419");
            assert(seq!['4', '1', '9'].map_values(|c: char| locale_char(c)) =~= seq!['4', '1', '9']);
            assert(seq!['4', '1', '9'] =~= "419"@);
            assert(seq!['e', 's'] =~= "es"@);
            lemma_latin_america();
            assert(locale_lang(tag_text(lang)) == Lang::Es419);
        },
        Lang::Id => {
            reveal_strlit("id");
            assert(tag_text(lang) =~= seq!['i', 'd']);
            lemma_locale_of_tag(seq!['i', 'd'], Seq::empty());
            assert(seq!['i', 'd'] =~= "id"@);
            assert(locale_lang(tag_text(lang)) == Lang::Id);
        },
        Lang::ItIt => {
            reveal_strlit("it-IT");
            assert(tag_text(lang) =~= seq!['i', 't', '-', 'I', 'T']);
            assert(seq!['i', 't'] + seq!['-'] + seq!['I', 'T'] =~= seq!['i', 't', '-', 'I', 'T']) by {}
            lemma_locale_of_tag(seq!['i', 't'], seq!['I', 'T']);
            assert(seq!['i', 't'] =~= "it"@);
            assert(locale_lang(tag_text(lang)) == Lang::ItIt);
        },
        Lang::Ko => {
            reveal_strlit("ko");
            assert(tag_text(lang) =~= seq!['k', 'o']);
            lemma_locale_of_tag(seq!['k', 'o'], Seq::empty());
            assert(seq!['k', 'o'] =~= "ko"@);
            assert(locale_lang(tag_text(lang)) == Lang::Ko);
        },
        Lang::PtBr => {
            reveal_strlit("pt-BR");
            assert(seq!['b', 'r'] =~= "br"@);
            assert(seq!['B', 'R'].map_values(|c: char| locale_char(c)) =~= seq!['b', 'r']);
            assert(tag_text(lang) =~= seq!['p', 't', '-', 'B', 'R']);
            assert(seq!['p', 't'] + seq!['-'] + seq!['B', 'R'] =~= seq!['p', 't', '-', 'B', 'R']) by {}
            lemma_locale_of_tag(seq!['p', 't'], seq!['B', 'R']);
            assert(seq!['p', 't'] =~= "pt"@);
            assert(locale_lang(tag_text(lang)) == Lang::PtBr);
        },
        Lang::Th => {
            reveal_strlit("th");
            assert(tag_text(lang) =~= seq!['t', 'h']);
            lemma_locale_of_tag(seq!['t', 'h'], Seq::empty());
            assert(seq!['t', 'h'] =~= "th"@);
            assert(locale_lang(tag_text(lang)) == Lang::Th);
        },
        Lang::Tr => {
            reveal_strlit("tr");
            assert(tag_text(lang) =~= seq!['t', 'r']);
            lemma_locale_of_tag(seq!['t', 'r'], Seq::empty());
            assert(seq!['t', 'r'] =~= "tr"@);
            assert(locale_lang(tag_text(lang)) == Lang::Tr);
        },
        Lang::Fa => {
            reveal_strlit("fa");
            assert(tag_text(lang) =~= seq!['f', 'a']);
            lemma_locale_of_tag(seq!['f', 'a'], Seq::empty());
            assert(seq!['f', 'a'] =~= "fa"@);
            assert(locale_lang(tag_text(lang)) == Lang::Fa);
        },
        Lang::Nl => {
            reveal_strlit("nl");
            assert(tag_text(lang) =~= seq!['n', 'l']);
            lemma_locale_of_tag(seq!['n', 'l'], Seq::empty());
            assert(seq!['n', 'l'] =~= "nl"@);
            assert(locale_lang(tag_text(lang)) == Lang::Nl);
        },
        Lang::Pl => {
            reveal_strlit("pl");
            assert(tag_text(lang) =~= seq!['p', 'l']);
            lemma_locale_of_tag(seq!['p', 'l'], Seq::empty());
            assert(seq!['p', 'l'] =~= "pl"@);
            assert(locale_lang(tag_text(lang)) == Lang::Pl);
        },
        Lang::Vi => {
            reveal_strlit("vi");
            assert(tag_text(lang) =~= seq!['v', 'i']);
            lemma_locale_of_tag(seq!['v', 'i'], Seq::empty());
            assert(seq!['v', 'i'] =~= "vi"@);
            assert(locale_lang(tag_text(lang)) == Lang::Vi);
        },
        Lang::Cs => {
            reveal_strlit("cs");
            assert(tag_text(lang) =~= seq!['c', 's']);
            lemma_locale_of_tag(seq!['c', 's'], Seq::empty());
            assert(seq!['c', 's'] =~= "cs"@);
            assert(locale_lang(tag_text(lang)) == Lang::Cs);
        },
        Lang::El => {
            reveal_strlit("el");
            assert(tag_text(lang) =~= seq!['e', 'l']);
            lemma_locale_of_tag(seq!['e', 'l'], Seq::empty());
            assert(seq!['e', 'l'] =~= "el"@);
            assert(locale_lang(tag_text(lang)) == Lang::El);
        },
        Lang::Sv => {
            reveal_strlit("sv");
            assert(tag_text(lang) =~= seq!['s', 'v']);
            lemma_locale_of_tag(seq!['s', 'v'], Seq::empty());
            assert(seq!['s', 'v'] =~= "sv"@);
            assert(locale_lang(tag_text(lang)) == Lang::Sv);
        },
        Lang::Uk => {
            reveal_strlit("uk");
            assert(tag_text(lang) =~= seq!['u', 'k']);
            lemma_locale_of_tag(seq!['u', 'k'], Seq::empty());
            assert(seq!['u', 'k'] =~= "uk"@);
            assert(locale_lang(tag_text(lang)) == Lang::Uk);
        },
        Lang::Hu => {
            reveal_strlit("hu");
            assert(tag_text(lang) =~= seq!['h', 'u']);
            lemma_locale_of_tag(seq!['h', 'u'], Seq::empty());
            assert(seq!['h', 'u'] =~= "hu"@);
            assert(locale_lang(tag_text(lang)) == Lang::Hu);
        },
        Lang::Ro => {
            reveal_strlit("ro");
            assert(tag_text(lang) =~= seq!['r', 'o']);
            lemma_locale_of_tag(seq!['r', 'o'], Seq::empty());
            assert(seq!['r', 'o'] =~= "ro"@);
            assert(locale_lang(tag_text(lang)) == Lang::Ro);
        },
        Lang::Da => {
            reveal_strlit("da");
            assert(tag_text(lang) =~= seq!['d', 'a']);
            lemma_locale_of_tag(seq!['d', 'a'], Seq::empty());
            assert(seq!['d', 'a'] =~= "da"@);
            assert(locale_lang(tag_text(lang)) == Lang::Da);
        },
        Lang::Fi => {
            reveal_strlit("fi");
            assert(tag_text(lang) =~= seq!['f', 'i']);
            lemma_locale_of_tag(seq!['f', 'i'], Seq::empty());
            assert(seq!['f', 'i'] =~= "fi"@);
            assert(locale_lang(tag_text(lang)) == Lang::Fi);
        },
        Lang::No => {
            reveal_strlit("no");
            assert(tag_text(lang) =~= seq!['n', 'o']);
            lemma_locale_of_tag(seq!['n', 'o'], Seq::empty());
            assert(seq!['n', 'o'] =~= "no"@);
            assert(locale_lang(tag_text(lang)) == Lang::No);
        },
        Lang::Sk => {
            reveal_strlit("sk");
            assert(tag_text(lang) =~= seq!['s', 'k']);
            lemma_locale_of_tag(seq!['s', 'k'], Seq::empty());
            assert(seq!['s', 'k'] =~= "sk"@);
            assert(locale_lang(tag_text(lang)) == Lang::Sk);
        },
        Lang::Bg => {
            reveal_strlit("bg");
            assert(tag_text(lang) =~= seq!['b', 'g']);
            lemma_locale_of_tag(seq!['b', 'g'], Seq::empty());
            assert(seq!['b', 'g'] =~= "bg"@);
            assert(locale_lang(tag_text(lang)) == Lang::Bg);
        },
        Lang::Hr => {
            reveal_strlit("hr");
            assert(tag_text(lang) =~= seq!['h', 'r']);
            lemma_locale_of_tag(seq!['h', 'r'], Seq::empty());
            assert(seq!['h', 'r'] =~= "hr"@);
            assert(locale_lang(tag_text(lang)) == Lang::Hr);
        },
        Lang::Lt => {
            reveal_strlit("lt");
            assert(tag_text(lang) =~= seq!['l', 't']);
            lemma_locale_of_tag(seq!['l', 't'], Seq::empty());
            assert(seq!['l', 't'] =~= "lt"@);
            assert(locale_lang(tag_text(lang)) == Lang::Lt);
        },
        Lang::Sr => {
            reveal_strlit("sr");
            assert(tag_text(lang) =~= seq!['s', 'r']);
            lemma_locale_of_tag(seq!['s', 'r'], Seq::empty());
            assert(seq!['s', 'r'] =~= "sr"@);
            assert(locale_lang(tag_text(lang)) == Lang::Sr);
        },
        Lang::Lv => {
            reveal_strlit("lv");
            assert(tag_text(lang) =~= seq!['l', 'v']);
            lemma_locale_of_tag(seq!['l', 'v'], Seq::empty());
            assert(seq!['l', 'v'] =~= "lv"@);
            assert(locale_lang(tag_text(lang)) == Lang::Lv);
        },
        Lang::Sl => {
            reveal_strlit("sl");
            assert(tag_text(lang) =~= seq!['s', 'l']);
            lemma_locale_of_tag(seq!['s', 'l'], Seq::empty());
            assert(seq!['s', 'l'] =~= "sl"@);
            assert(locale_lang(tag_text(lang)) == Lang::Sl);
        },
        Lang::Et => {
            reveal_strlit("et");
            assert(tag_text(lang) =~= seq!['e', 't']);
            lemma_locale_of_tag(seq!['e', 't'], Seq::empty());
            assert(seq!['e', 't'] =~= "et"@);
            assert(locale_lang(tag_text(lang)) == Lang::Et);
        },
        Lang::He => {
            reveal_strlit("he");
            assert(tag_text(lang) =~= seq!['h', 'e']);
            lemma_locale_of_tag(seq!['h', 'e'], Seq::empty());
            assert(seq!['h', 'e'] =~= "he"@);
            assert(locale_lang(tag_text(lang)) == Lang::He);
        },
        Lang::Ms => {
            reveal_strlit("ms");
            assert(tag_text(lang) =~= seq!['m', 's']);
            lemma_locale_of_tag(seq!['m', 's'], Seq::empty());
            assert(seq!['m', 's'] =~= "ms"@);
            assert(locale_lang(tag_text(lang)) == Lang::Ms);
        },
        Lang::Fil => {
            reveal_strlit("fil");
            assert(tag_text(lang) =~= seq!['f', 'i', 'l']);
            lemma_locale_of_tag(seq!['f', 'i', 'l'], Seq::empty());
            assert(seq!['f', 'i', 'l'] =~= "fil"@);
            assert(locale_lang(tag_text(lang)) == Lang::Fil);
        },
    }
}

/// A character an identifier is made of: an ASCII letter or digit, or `-`.
pub open spec fn is_tag_char(c: char) -> bool {
    ('a' <= c && c <= 'z') || ('A' <= c && c <= 'Z') || ('0' <= c && c <= '9') || c == '-'
}

proof fn lemma_plain_word(s: Seq<char>)
    requires
        s.len() > 0,
        forall|i: int| 0 <= i < s.len() ==> is_tag_char(#[trigger] s[i]),
    ensures
        !s.contains('\n'),
        !s.contains('='),
        trimmed(s) == s,
{
    assert(is_tag_char(s[0]));
    assert(is_tag_char(s.last()));
    assert(trim_start(s) == s);
    assert(trim_end(s) == s);
}

/// Every identifier is a plain word: no line break, no `=`, no white space
/// at its ends.
pub proof fn lemma_tag_is_plain(lang: Lang)
    ensures
        !tag_text(lang).contains('\n'),
        !tag_text(lang).contains('='),
        trimmed(tag_text(lang)) == tag_text(lang),
{
    let t = tag_text(lang);
    match lang {
        Lang::EnUs => {
            reveal_strlit("en-US");
            assert(t =~= seq!['e', 'n', '-', 'U', 'S']);
        },
        Lang::ZhCn => {
            reveal_strlit("zh-CN");
            assert(t =~= seq!['z', 'h', '-', 'C', 'N']);
        },
        Lang::EsEs => {
            reveal_strlit("es-ES");
            assert(t =~= seq!['e', 's', '-', 'E', 'S']);
        },
        Lang::HiIn => {
            reveal_strlit("hi-IN");
            assert(t =~= seq!['h', 'i', '-', 'I', 'N']);
        },
        Lang::Ar => {
            reveal_strlit("ar");
            assert(t =~= seq!['a', 'r']);
        },
        Lang::PtPt => {
            reveal_strlit("pt-PT");
            assert(t =~= seq!['p', 't', '-', 'P', 'T']);
        },
        Lang::JaJp => {
            reveal_strlit("ja-JP");
            assert(t =~= seq!['j', 'a', '-', 'J', 'P']);
        },
        Lang::RuRu => {
            reveal_strlit("ru-RU");
            assert(t =~= seq!['r', 'u', '-', 'R', 'U']);
        },
        Lang::FrFr => {
            reveal_strlit("fr-FR");
            assert(t =~= seq!['f', 'r', '-', 'F', 'R']);
        },
        Lang::DeDe => {
            reveal_strlit("de-DE");
            assert(t =~= seq!['d', 'e', '-', 'D', 'E']);
        },
        Lang::Es419 => {
            reveal_strlit("es-419");
            assert(t =~= seq!['e', 's', '-', '4', '1', '9']);
        },
        Lang::Id => {
            reveal_strlit("id");
            assert(t =~= seq!['i', 'd']);
        },
        Lang::ItIt => {
            reveal_strlit("it-IT");
            assert(t =~= seq!['i', 't', '-', 'I', 'T']);
        },
        Lang::Ko => {
            reveal_strlit("ko");
            assert(t =~= seq!['k', 'o']);
        },
        Lang::PtBr => {
            reveal_strlit("pt-BR");
            assert(t =~= seq!['p', 't', '-', 'B', 'R']);
        },
        Lang::Th => {
            reveal_strlit("th");
            assert(t =~= seq!['t', 'h']);
        },
        Lang::Tr => {
            reveal_strlit("tr");
            assert(t =~= seq!['t', 'r']);
        },
        Lang::Fa => {
            reveal_strlit("fa");
            assert(t =~= seq!['f', 'a']);
        },
        Lang::Nl => {
            reveal_strlit("nl");
            assert(t =~= seq!['n', 'l']);
        },
        Lang::Pl => {
            reveal_strlit("pl");
            assert(t =~= seq!['p', 'l']);
        },
        Lang::Vi => {
            reveal_strlit("vi");
            assert(t =~= seq!['v', 'i']);
        },
        Lang::Cs => {
            reveal_strlit("cs");
            assert(t =~= seq!['c', 's']);
        },
        Lang::El => {
            reveal_strlit("el");
            assert(t =~= seq!['e', 'l']);
        },
        Lang::Sv => {
            reveal_strlit("sv");
            assert(t =~= seq!['s', 'v']);
        },
        Lang::Uk => {
            reveal_strlit("uk");
            assert(t =~= seq!['u', 'k']);
        },
        Lang::Hu => {
            reveal_strlit("hu");
            assert(t =~= seq!['h', 'u']);
        },
        Lang::Ro => {
            reveal_strlit("ro");
            assert(t =~= seq!['r', 'o']);
        },
        Lang::Da => {
            reveal_strlit("da");
            assert(t =~= seq!['d', 'a']);
        },
        Lang::Fi => {
            reveal_strlit("fi");
            assert(t =~= seq!['f', 'i']);
        },
        Lang::No => {
            reveal_strlit("no");
            assert(t =~= seq!['n', 'o']);
        },
        Lang::Sk => {
            reveal_strlit("sk");
            assert(t =~= seq!['s', 'k']);
        },
        Lang::Bg => {
            reveal_strlit("bg");
            assert(t =~= seq!['b', 'g']);
        },
        Lang::Hr => {
            reveal_strlit("hr");
            assert(t =~= seq!['h', 'r']);
        },
        Lang::Lt => {
            reveal_strlit("lt");
            assert(t =~= seq!['l', 't']);
        },
        Lang::Sr => {
            reveal_strlit("sr");
            assert(t =~= seq!['s', 'r']);
        },
        Lang::Lv => {
            reveal_strlit("lv");
            assert(t =~= seq!['l', 'v']);
        },
        Lang::Sl => {
            reveal_strlit("sl");
            assert(t =~= seq!['s', 'l']);
        },
        Lang::Et => {
            reveal_strlit("et");
            assert(t =~= seq!['e', 't']);
        },
        Lang::He => {
            reveal_strlit("he");
            assert(t =~= seq!['h', 'e']);
        },
        Lang::Ms => {
            reveal_strlit("ms");
            assert(t =~= seq!['m', 's']);
        },
        Lang::Fil => {
            reveal_strlit("fil");
            assert(t =~= seq!['f', 'i', 'l']);
        },
    }
    lemma_plain_word(t);
}

/// Every language reads back from its own identifier.
pub proof fn law_tags_roundtrip(lang: Lang)
    ensures
        lang_from_tag(tag_text(lang)) == Some(lang),
{
    let t = tag_text(lang);
    assert(exists|l: Lang| tag_text(l) == t);
    let c = choose|l: Lang| tag_text(l) == t;
    law_tags_are_unique(c, lang);
}

/// Every user-visible string of the chrome. The brand name "Filegram" and
/// the version label stay untranslated by design.
pub struct Strings {
    pub app_title: &'static str,
    pub path_placeholder: &'static str,
    pub scan: &'static str,
    pub recent_scans: &'static str,
    pub disks: &'static str,
    pub home: &'static str,
    pub downloads: &'static str,
    pub desktop: &'static str,
    pub documents: &'static str,
    /// The scan progress prefix; the file counter is appended directly,
    /// so each language includes whatever trailing spacing or
    /// punctuation its script needs before the number.
    pub scanning_files: &'static str,
    pub cancel: &'static str,
    pub new_scan: &'static str,
    pub trash_question: &'static str,
    pub folder: &'static str,
    pub file: &'static str,
    pub trash_button: &'static str,
    pub open_in_file_manager: &'static str,
    pub trash_tip: &'static str,
    pub light_theme: &'static str,
    pub dark_theme: &'static str,
    pub language: &'static str,
    pub hint_select: &'static str,
    pub hint_back: &'static str,
    /// The disk-usage bar connector: `{free} {disk_free} {total}`, e.g.
    /// "182.4 GB free of 494.4 GB".
    pub disk_free: &'static str,
}

/// The table of `lang`: every chrome string in that language.
pub open spec fn strings_of(lang: Lang) -> Strings {
    match lang {
        Lang::EnUs => Strings {
            app_title: "Filegram — disk map",
            path_placeholder: "Directory path…",
            scan: "Scan",
            recent_scans: "Recent scans",
            disks: "Disks",
            home: "Home",
            downloads: "Downloads",
            desktop: "Desktop",
            documents: "Documents",
            scanning_files: "Scanning… files: ",
            cancel: "Cancel",
            new_scan: "New scan",
            trash_question: "Move to trash?",
            folder: "Folder",
            file: "File",
            trash_button: "Move to Trash",
            open_in_file_manager: "Open in file manager",
            trash_tip: "Move to trash",
            light_theme: "Light theme",
            dark_theme: "Dark theme",
            language: "Language",
            hint_select: "select",
            hint_back: "back",
            disk_free: "free of",
        },
        Lang::ZhCn => Strings {
            app_title: "Filegram — 磁盘地图",
            path_placeholder: "目录路径…",
            scan: "扫描",
            recent_scans: "最近扫描",
            disks: "磁盘",
            home: "主目录",
            downloads: "下载",
            desktop: "桌面",
            documents: "文档",
            scanning_files: "正在扫描… 文件数：",
            cancel: "取消",
            new_scan: "新建扫描",
            trash_question: "移到回收站？",
            folder: "文件夹",
            file: "文件",
            trash_button: "移到回收站",
            open_in_file_manager: "在文件管理器中显示",
            trash_tip: "移到回收站",
            light_theme: "浅色主题",
            dark_theme: "深色主题",
            language: "语言",
            hint_select: "选择",
            hint_back: "返回",
            disk_free: "可用，共",
        },
        Lang::EsEs => Strings {
            app_title: "Filegram — mapa del disco",
            path_placeholder: "Ruta del directorio…",
            scan: "Escanear",
            recent_scans: "Escaneos recientes",
            disks: "Discos",
            home: "Inicio",
            downloads: "Descargas",
            desktop: "Escritorio",
            documents: "Documentos",
            scanning_files: "Escaneando… archivos: ",
            cancel: "Cancelar",
            new_scan: "Nuevo escaneo",
            trash_question: "¿Mover a la papelera?",
            folder: "Carpeta",
            file: "Archivo",
            trash_button: "Mover a la papelera",
            open_in_file_manager: "Mostrar en el gestor de archivos",
            trash_tip: "Mover a la papelera",
            light_theme: "Tema claro",
            dark_theme: "Tema oscuro",
            language: "Idioma",
            hint_select: "seleccionar",
            hint_back: "atrás",
            disk_free: "libres de",
        },
        Lang::HiIn => Strings {
            app_title: "Filegram — डिस्क मैप",
            path_placeholder: "डायरेक्टरी पथ…",
            scan: "स्कैन करें",
            recent_scans: "हाल के स्कैन",
            disks: "डिस्क",
            home: "होम",
            downloads: "डाउनलोड",
            desktop: "डेस्कटॉप",
            documents: "दस्तावेज़",
            scanning_files: "स्कैन हो रहा है… फ़ाइलें: ",
            cancel: "रद्द करें",
            new_scan: "नया स्कैन",
            trash_question: "ट्रैश में ले जाएँ?",
            folder: "फ़ोल्डर",
            file: "फ़ाइल",
            trash_button: "ट्रैश में ले जाएँ",
            open_in_file_manager: "फ़ाइल मैनेजर में दिखाएँ",
            trash_tip: "ट्रैश में ले जाएँ",
            light_theme: "हल्की थीम",
            dark_theme: "गहरी थीम",
            language: "भाषा",
            hint_select: "चुनें",
            hint_back: "वापस",
            disk_free: "मुक्त /",
        },
        Lang::Ar => Strings {
            app_title: "Filegram — خريطة القرص",
            path_placeholder: "مسار المجلد…",
            scan: "فحص",
            recent_scans: "عمليات الفحص الأخيرة",
            disks: "الأقراص",
            home: "المنزل",
            downloads: "التنزيلات",
            desktop: "سطح المكتب",
            documents: "المستندات",
            scanning_files: "جارٍ الفحص… الملفات: ",
            cancel: "إلغاء",
            new_scan: "فحص جديد",
            trash_question: "نقل إلى سلة المهملات؟",
            folder: "مجلد",
            file: "ملف",
            trash_button: "نقل إلى سلة المهملات",
            open_in_file_manager: "إظهار في مدير الملفات",
            trash_tip: "نقل إلى سلة المهملات",
            light_theme: "سمة فاتحة",
            dark_theme: "سمة داكنة",
            language: "اللغة",
            hint_select: "تحديد",
            hint_back: "رجوع",
            disk_free: "حر من",
        },
        Lang::PtPt => Strings {
            app_title: "Filegram — mapa do disco",
            path_placeholder: "Caminho do diretório…",
            scan: "Analisar",
            recent_scans: "Análises recentes",
            disks: "Discos",
            home: "Pasta pessoal",
            downloads: "Transferências",
            desktop: "Ambiente de trabalho",
            documents: "Documentos",
            scanning_files: "A analisar… ficheiros: ",
            cancel: "Cancelar",
            new_scan: "Nova análise",
            trash_question: "Mover para o lixo?",
            folder: "Pasta",
            file: "Ficheiro",
            trash_button: "Mover para o lixo",
            open_in_file_manager: "Mostrar no gestor de ficheiros",
            trash_tip: "Mover para o lixo",
            light_theme: "Tema claro",
            dark_theme: "Tema escuro",
            language: "Idioma",
            hint_select: "selecionar",
            hint_back: "voltar",
            disk_free: "livres de",
        },
        Lang::JaJp => Strings {
            app_title: "Filegram — ディスクマップ",
            path_placeholder: "ディレクトリのパス…",
            scan: "スキャン",
            recent_scans: "最近のスキャン",
            disks: "ディスク",
            home: "ホーム",
            downloads: "ダウンロード",
            desktop: "デスクトップ",
            documents: "書類",
            scanning_files: "スキャン中… ファイル数：",
            cancel: "キャンセル",
            new_scan: "新規スキャン",
            trash_question: "ゴミ箱に移動しますか？",
            folder: "フォルダ",
            file: "ファイル",
            trash_button: "ゴミ箱に移動",
            open_in_file_manager: "ファイルマネージャーで表示",
            trash_tip: "ゴミ箱に移動",
            light_theme: "ライトテーマ",
            dark_theme: "ダークテーマ",
            language: "言語",
            hint_select: "選択",
            hint_back: "戻る",
            disk_free: "空き /",
        },
        Lang::RuRu => Strings {
            app_title: "Filegram — карта диска",
            path_placeholder: "Путь к папке…",
            scan: "Сканировать",
            recent_scans: "Недавние сканирования",
            disks: "Диски",
            home: "Домашняя",
            downloads: "Загрузки",
            desktop: "Рабочий стол",
            documents: "Документы",
            scanning_files: "Сканирование… файлов: ",
            cancel: "Отмена",
            new_scan: "Новый скан",
            trash_question: "Переместить в корзину?",
            folder: "Папка",
            file: "Файл",
            trash_button: "В корзину",
            open_in_file_manager: "Показать в файловом менеджере",
            trash_tip: "Переместить в корзину",
            light_theme: "Светлая тема",
            dark_theme: "Тёмная тема",
            language: "Язык",
            hint_select: "выбрать",
            hint_back: "назад",
            disk_free: "свободно из",
        },
        Lang::FrFr => Strings {
            app_title: "Filegram — carte du disque",
            path_placeholder: "Chemin du dossier…",
            scan: "Analyser",
            recent_scans: "Analyses récentes",
            disks: "Disques",
            home: "Dossier personnel",
            downloads: "Téléchargements",
            desktop: "Bureau",
            documents: "Documents",
            scanning_files: "Analyse… fichiers : ",
            cancel: "Annuler",
            new_scan: "Nouvelle analyse",
            trash_question: "Déplacer vers la corbeille ?",
            folder: "Dossier",
            file: "Fichier",
            trash_button: "Déplacer vers la corbeille",
            open_in_file_manager: "Afficher dans le gestionnaire de fichiers",
            trash_tip: "Déplacer vers la corbeille",
            light_theme: "Thème clair",
            dark_theme: "Thème sombre",
            language: "Langue",
            hint_select: "sélectionner",
            hint_back: "retour",
            disk_free: "libres sur",
        },
        Lang::DeDe => Strings {
            app_title: "Filegram — Festplattenkarte",
            path_placeholder: "Verzeichnispfad…",
            scan: "Scannen",
            recent_scans: "Letzte Scans",
            disks: "Laufwerke",
            home: "Persönlicher Ordner",
            downloads: "Downloads",
            desktop: "Desktop",
            documents: "Dokumente",
            scanning_files: "Scanne… Dateien: ",
            cancel: "Abbrechen",
            new_scan: "Neuer Scan",
            trash_question: "In den Papierkorb verschieben?",
            folder: "Ordner",
            file: "Datei",
            trash_button: "In den Papierkorb",
            open_in_file_manager: "Im Dateimanager anzeigen",
            trash_tip: "In den Papierkorb verschieben",
            light_theme: "Helles Design",
            dark_theme: "Dunkles Design",
            language: "Sprache",
            hint_select: "auswählen",
            hint_back: "zurück",
            disk_free: "frei von",
        },
        Lang::Es419 => Strings {
            app_title: "Filegram — mapa del disco",
            path_placeholder: "Ruta del directorio…",
            scan: "Escanear",
            recent_scans: "Escaneos recientes",
            disks: "Discos",
            home: "Inicio",
            downloads: "Descargas",
            desktop: "Escritorio",
            documents: "Documentos",
            scanning_files: "Escaneando… archivos: ",
            cancel: "Cancelar",
            new_scan: "Nuevo escaneo",
            trash_question: "¿Mover a la papelera?",
            folder: "Carpeta",
            file: "Archivo",
            trash_button: "Mover a la papelera",
            open_in_file_manager: "Mostrar en el administrador de archivos",
            trash_tip: "Mover a la papelera",
            light_theme: "Tema claro",
            dark_theme: "Tema oscuro",
            language: "Idioma",
            hint_select: "seleccionar",
            hint_back: "atrás",
            disk_free: "libres de",
        },
        Lang::Id => Strings {
            app_title: "Filegram — peta disk",
            path_placeholder: "Jalur direktori…",
            scan: "Pindai",
            recent_scans: "Pemindaian terbaru",
            disks: "Disk",
            home: "Beranda",
            downloads: "Unduhan",
            desktop: "Desktop",
            documents: "Dokumen",
            scanning_files: "Memindai… berkas: ",
            cancel: "Batal",
            new_scan: "Pemindaian baru",
            trash_question: "Pindahkan ke tempat sampah?",
            folder: "Folder",
            file: "Berkas",
            trash_button: "Pindahkan ke Tempat Sampah",
            open_in_file_manager: "Tampilkan di pengelola berkas",
            trash_tip: "Pindahkan ke tempat sampah",
            light_theme: "Tema terang",
            dark_theme: "Tema gelap",
            language: "Bahasa",
            hint_select: "pilih",
            hint_back: "kembali",
            disk_free: "tersedia dari",
        },
        Lang::ItIt => Strings {
            app_title: "Filegram — mappa del disco",
            path_placeholder: "Percorso della directory…",
            scan: "Scansiona",
            recent_scans: "Scansioni recenti",
            disks: "Dischi",
            home: "Home",
            downloads: "Scaricati",
            desktop: "Scrivania",
            documents: "Documenti",
            scanning_files: "Scansione… file: ",
            cancel: "Annulla",
            new_scan: "Nuova scansione",
            trash_question: "Spostare nel cestino?",
            folder: "Cartella",
            file: "File",
            trash_button: "Sposta nel cestino",
            open_in_file_manager: "Mostra nel gestore file",
            trash_tip: "Sposta nel cestino",
            light_theme: "Tema chiaro",
            dark_theme: "Tema scuro",
            language: "Lingua",
            hint_select: "seleziona",
            hint_back: "indietro",
            disk_free: "liberi di",
        },
        Lang::Ko => Strings {
            app_title: "Filegram — 디스크 맵",
            path_placeholder: "디렉터리 경로…",
            scan: "스캔",
            recent_scans: "최근 스캔",
            disks: "디스크",
            home: "홈",
            downloads: "다운로드",
            desktop: "바탕 화면",
            documents: "문서",
            scanning_files: "스캔 중… 파일: ",
            cancel: "취소",
            new_scan: "새 스캔",
            trash_question: "휴지통으로 이동할까요?",
            folder: "폴더",
            file: "파일",
            trash_button: "휴지통으로 이동",
            open_in_file_manager: "파일 관리자에서 보기",
            trash_tip: "휴지통으로 이동",
            light_theme: "라이트 테마",
            dark_theme: "다크 테마",
            language: "언어",
            hint_select: "선택",
            hint_back: "뒤로",
            disk_free: "사용 가능 /",
        },
        Lang::PtBr => Strings {
            app_title: "Filegram — mapa do disco",
            path_placeholder: "Caminho do diretório…",
            scan: "Escanear",
            recent_scans: "Escaneamentos recentes",
            disks: "Discos",
            home: "Início",
            downloads: "Downloads",
            desktop: "Área de trabalho",
            documents: "Documentos",
            scanning_files: "Escaneando… arquivos: ",
            cancel: "Cancelar",
            new_scan: "Novo escaneamento",
            trash_question: "Mover para a lixeira?",
            folder: "Pasta",
            file: "Arquivo",
            trash_button: "Mover para a Lixeira",
            open_in_file_manager: "Mostrar no gerenciador de arquivos",
            trash_tip: "Mover para a lixeira",
            light_theme: "Tema claro",
            dark_theme: "Tema escuro",
            language: "Idioma",
            hint_select: "selecionar",
            hint_back: "voltar",
            disk_free: "livres de",
        },
        Lang::Th => Strings {
            app_title: "Filegram — แผนที่ดิสก์",
            path_placeholder: "เส้นทางโฟลเดอร์…",
            scan: "สแกน",
            recent_scans: "การสแกนล่าสุด",
            disks: "ดิสก์",
            home: "โฮม",
            downloads: "ดาวน์โหลด",
            desktop: "เดสก์ท็อป",
            documents: "เอกสาร",
            scanning_files: "กำลังสแกน… ไฟล์: ",
            cancel: "ยกเลิก",
            new_scan: "สแกนใหม่",
            trash_question: "ย้ายไปถังขยะ?",
            folder: "โฟลเดอร์",
            file: "ไฟล์",
            trash_button: "ย้ายไปถังขยะ",
            open_in_file_manager: "แสดงในตัวจัดการไฟล์",
            trash_tip: "ย้ายไปถังขยะ",
            light_theme: "ธีมสว่าง",
            dark_theme: "ธีมมืด",
            language: "ภาษา",
            hint_select: "เลือก",
            hint_back: "กลับ",
            disk_free: "ว่างจาก",
        },
        Lang::Tr => Strings {
            app_title: "Filegram — disk haritası",
            path_placeholder: "Dizin yolu…",
            scan: "Tara",
            recent_scans: "Son taramalar",
            disks: "Diskler",
            home: "Ev",
            downloads: "İndirilenler",
            desktop: "Masaüstü",
            documents: "Belgeler",
            scanning_files: "Taranıyor… dosya: ",
            cancel: "İptal",
            new_scan: "Yeni tarama",
            trash_question: "Çöp kutusuna taşınsın mı?",
            folder: "Klasör",
            file: "Dosya",
            trash_button: "Çöp Kutusuna Taşı",
            open_in_file_manager: "Dosya yöneticisinde göster",
            trash_tip: "Çöp kutusuna taşı",
            light_theme: "Açık tema",
            dark_theme: "Koyu tema",
            language: "Dil",
            hint_select: "seç",
            hint_back: "geri",
            disk_free: "boş /",
        },
        Lang::Fa => Strings {
            app_title: "Filegram — نقشه دیسک",
            path_placeholder: "مسیر پوشه…",
            scan: "اسکن",
            recent_scans: "اسکن‌های اخیر",
            disks: "دیسک‌ها",
            home: "خانه",
            downloads: "دانلودها",
            desktop: "دسکتاپ",
            documents: "اسناد",
            scanning_files: "در حال اسکن… فایل‌ها: ",
            cancel: "لغو",
            new_scan: "اسکن جدید",
            trash_question: "به سطل زباله منتقل شود؟",
            folder: "پوشه",
            file: "فایل",
            trash_button: "انتقال به سطل زباله",
            open_in_file_manager: "نمایش در مدیر فایل",
            trash_tip: "انتقال به سطل زباله",
            light_theme: "تم روشن",
            dark_theme: "تم تیره",
            language: "زبان",
            hint_select: "انتخاب",
            hint_back: "بازگشت",
            disk_free: "آزاد از",
        },
        Lang::Nl => Strings {
            app_title: "Filegram — schijfkaart",
            path_placeholder: "Mappad…",
            scan: "Scannen",
            recent_scans: "Recente scans",
            disks: "Schijven",
            home: "Thuismap",
            downloads: "Downloads",
            desktop: "Bureaublad",
            documents: "Documenten",
            scanning_files: "Scannen… bestanden: ",
            cancel: "Annuleren",
            new_scan: "Nieuwe scan",
            trash_question: "Naar de prullenbak verplaatsen?",
            folder: "Map",
            file: "Bestand",
            trash_button: "Naar prullenbak",
            open_in_file_manager: "Tonen in bestandsbeheer",
            trash_tip: "Naar de prullenbak verplaatsen",
            light_theme: "Licht thema",
            dark_theme: "Donker thema",
            language: "Taal",
            hint_select: "selecteren",
            hint_back: "terug",
            disk_free: "vrij van",
        },
        Lang::Pl => Strings {
            app_title: "Filegram — mapa dysku",
            path_placeholder: "Ścieżka katalogu…",
            scan: "Skanuj",
            recent_scans: "Ostatnie skanowania",
            disks: "Dyski",
            home: "Katalog domowy",
            downloads: "Pobrane",
            desktop: "Pulpit",
            documents: "Dokumenty",
            scanning_files: "Skanowanie… pliki: ",
            cancel: "Anuluj",
            new_scan: "Nowy skan",
            trash_question: "Przenieść do kosza?",
            folder: "Folder",
            file: "Plik",
            trash_button: "Przenieś do kosza",
            open_in_file_manager: "Pokaż w menedżerze plików",
            trash_tip: "Przenieś do kosza",
            light_theme: "Jasny motyw",
            dark_theme: "Ciemny motyw",
            language: "Język",
            hint_select: "wybierz",
            hint_back: "wstecz",
            disk_free: "wolne z",
        },
        Lang::Vi => Strings {
            app_title: "Filegram — bản đồ ổ đĩa",
            path_placeholder: "Đường dẫn thư mục…",
            scan: "Quét",
            recent_scans: "Quét gần đây",
            disks: "Ổ đĩa",
            home: "Thư mục cá nhân",
            downloads: "Tải về",
            desktop: "Màn hình nền",
            documents: "Tài liệu",
            scanning_files: "Đang quét… tệp: ",
            cancel: "Hủy",
            new_scan: "Quét mới",
            trash_question: "Chuyển vào thùng rác?",
            folder: "Thư mục",
            file: "Tệp",
            trash_button: "Chuyển vào thùng rác",
            open_in_file_manager: "Hiện trong trình quản lý tệp",
            trash_tip: "Chuyển vào thùng rác",
            light_theme: "Giao diện sáng",
            dark_theme: "Giao diện tối",
            language: "Ngôn ngữ",
            hint_select: "chọn",
            hint_back: "quay lại",
            disk_free: "trống trên",
        },
        Lang::Cs => Strings {
            app_title: "Filegram — mapa disku",
            path_placeholder: "Cesta k adresáři…",
            scan: "Skenovat",
            recent_scans: "Nedávná skenování",
            disks: "Disky",
            home: "Domů",
            downloads: "Stažené",
            desktop: "Plocha",
            documents: "Dokumenty",
            scanning_files: "Skenování… souborů: ",
            cancel: "Zrušit",
            new_scan: "Nový sken",
            trash_question: "Přesunout do koše?",
            folder: "Složka",
            file: "Soubor",
            trash_button: "Přesunout do koše",
            open_in_file_manager: "Zobrazit ve správci souborů",
            trash_tip: "Přesunout do koše",
            light_theme: "Světlý motiv",
            dark_theme: "Tmavý motiv",
            language: "Jazyk",
            hint_select: "vybrat",
            hint_back: "zpět",
            disk_free: "volných z",
        },
        Lang::El => Strings {
            app_title: "Filegram — χάρτης δίσκου",
            path_placeholder: "Διαδρομή καταλόγου…",
            scan: "Σάρωση",
            recent_scans: "Πρόσφατες σαρώσεις",
            disks: "Δίσκοι",
            home: "Προσωπικός φάκελος",
            downloads: "Λήψεις",
            desktop: "Επιφάνεια εργασίας",
            documents: "Έγγραφα",
            scanning_files: "Σάρωση… αρχεία: ",
            cancel: "Άκυρο",
            new_scan: "Νέα σάρωση",
            trash_question: "Μετακίνηση στα απορρίμματα;",
            folder: "Φάκελος",
            file: "Αρχείο",
            trash_button: "Στα απορρίμματα",
            open_in_file_manager: "Εμφάνιση στον διαχειριστή αρχείων",
            trash_tip: "Μετακίνηση στα απορρίμματα",
            light_theme: "Φωτεινό θέμα",
            dark_theme: "Σκούρο θέμα",
            language: "Γλώσσα",
            hint_select: "επιλογή",
            hint_back: "πίσω",
            disk_free: "ελεύθερα από",
        },
        Lang::Sv => Strings {
            app_title: "Filegram — diskkarta",
            path_placeholder: "Sökväg till katalog…",
            scan: "Skanna",
            recent_scans: "Senaste skanningar",
            disks: "Diskar",
            home: "Hem",
            downloads: "Hämtningar",
            desktop: "Skrivbord",
            documents: "Dokument",
            scanning_files: "Skannar… filer: ",
            cancel: "Avbryt",
            new_scan: "Ny skanning",
            trash_question: "Flytta till papperskorgen?",
            folder: "Mapp",
            file: "Fil",
            trash_button: "Flytta till papperskorgen",
            open_in_file_manager: "Visa i filhanteraren",
            trash_tip: "Flytta till papperskorgen",
            light_theme: "Ljust tema",
            dark_theme: "Mörkt tema",
            language: "Språk",
            hint_select: "välj",
            hint_back: "tillbaka",
            disk_free: "ledigt av",
        },
        Lang::Uk => Strings {
            app_title: "Filegram — карта диска",
            path_placeholder: "Шлях до теки…",
            scan: "Сканувати",
            recent_scans: "Останні сканування",
            disks: "Диски",
            home: "Домівка",
            downloads: "Завантаження",
            desktop: "Стільниця",
            documents: "Документи",
            scanning_files: "Сканування… файлів: ",
            cancel: "Скасувати",
            new_scan: "Новий скан",
            trash_question: "Перемістити в смітник?",
            folder: "Тека",
            file: "Файл",
            trash_button: "У смітник",
            open_in_file_manager: "Показати у файловому менеджері",
            trash_tip: "Перемістити в смітник",
            light_theme: "Світла тема",
            dark_theme: "Темна тема",
            language: "Мова",
            hint_select: "вибрати",
            hint_back: "назад",
            disk_free: "вільно з",
        },
        Lang::Hu => Strings {
            app_title: "Filegram — lemeztérkép",
            path_placeholder: "Könyvtár elérési útja…",
            scan: "Vizsgálat",
            recent_scans: "Legutóbbi vizsgálatok",
            disks: "Lemezek",
            home: "Saját mappa",
            downloads: "Letöltések",
            desktop: "Asztal",
            documents: "Dokumentumok",
            scanning_files: "Vizsgálat… fájlok: ",
            cancel: "Mégse",
            new_scan: "Új vizsgálat",
            trash_question: "Áthelyezi a kukába?",
            folder: "Mappa",
            file: "Fájl",
            trash_button: "Áthelyezés a kukába",
            open_in_file_manager: "Megjelenítés a fájlkezelőben",
            trash_tip: "Áthelyezés a kukába",
            light_theme: "Világos téma",
            dark_theme: "Sötét téma",
            language: "Nyelv",
            hint_select: "kijelölés",
            hint_back: "vissza",
            disk_free: "szabad ebből",
        },
        Lang::Ro => Strings {
            app_title: "Filegram — harta discului",
            path_placeholder: "Calea directorului…",
            scan: "Scanează",
            recent_scans: "Scanări recente",
            disks: "Discuri",
            home: "Acasă",
            downloads: "Descărcări",
            desktop: "Desktop",
            documents: "Documente",
            scanning_files: "Se scanează… fișiere: ",
            cancel: "Anulează",
            new_scan: "Scanare nouă",
            trash_question: "Mutați la coșul de gunoi?",
            folder: "Dosar",
            file: "Fișier",
            trash_button: "Mută la coș",
            open_in_file_manager: "Afișează în managerul de fișiere",
            trash_tip: "Mută la coșul de gunoi",
            light_theme: "Temă luminoasă",
            dark_theme: "Temă întunecată",
            language: "Limbă",
            hint_select: "selectează",
            hint_back: "înapoi",
            disk_free: "liberi din",
        },
        Lang::Da => Strings {
            app_title: "Filegram — diskkort",
            path_placeholder: "Sti til mappe…",
            scan: "Scan",
            recent_scans: "Seneste scanninger",
            disks: "Diske",
            home: "Hjem",
            downloads: "Overførsler",
            desktop: "Skrivebord",
            documents: "Dokumenter",
            scanning_files: "Scanner… filer: ",
            cancel: "Annuller",
            new_scan: "Ny scanning",
            trash_question: "Flyt til papirkurven?",
            folder: "Mappe",
            file: "Fil",
            trash_button: "Flyt til papirkurven",
            open_in_file_manager: "Vis i filhåndtering",
            trash_tip: "Flyt til papirkurven",
            light_theme: "Lyst tema",
            dark_theme: "Mørkt tema",
            language: "Sprog",
            hint_select: "vælg",
            hint_back: "tilbage",
            disk_free: "ledig af",
        },
        Lang::Fi => Strings {
            app_title: "Filegram — levykartta",
            path_placeholder: "Hakemiston polku…",
            scan: "Skannaa",
            recent_scans: "Viimeisimmät skannaukset",
            disks: "Levyt",
            home: "Koti",
            downloads: "Lataukset",
            desktop: "Työpöytä",
            documents: "Asiakirjat",
            scanning_files: "Skannataan… tiedostoja: ",
            cancel: "Peruuta",
            new_scan: "Uusi skannaus",
            trash_question: "Siirretäänkö roskakoriin?",
            folder: "Kansio",
            file: "Tiedosto",
            trash_button: "Siirrä roskakoriin",
            open_in_file_manager: "Näytä tiedostonhallinnassa",
            trash_tip: "Siirrä roskakoriin",
            light_theme: "Vaalea teema",
            dark_theme: "Tumma teema",
            language: "Kieli",
            hint_select: "valitse",
            hint_back: "takaisin",
            disk_free: "vapaana /",
        },
        Lang::No => Strings {
            app_title: "Filegram — diskkart",
            path_placeholder: "Sti til mappe…",
            scan: "Skann",
            recent_scans: "Nylige skanninger",
            disks: "Disker",
            home: "Hjem",
            downloads: "Nedlastinger",
            desktop: "Skrivebord",
            documents: "Dokumenter",
            scanning_files: "Skanner… filer: ",
            cancel: "Avbryt",
            new_scan: "Ny skanning",
            trash_question: "Flytte til papirkurven?",
            folder: "Mappe",
            file: "Fil",
            trash_button: "Flytt til papirkurven",
            open_in_file_manager: "Vis i filbehandler",
            trash_tip: "Flytt til papirkurven",
            light_theme: "Lyst tema",
            dark_theme: "Mørkt tema",
            language: "Språk",
            hint_select: "velg",
            hint_back: "tilbake",
            disk_free: "ledig av",
        },
        Lang::Sk => Strings {
            app_title: "Filegram — mapa disku",
            path_placeholder: "Cesta k adresáru…",
            scan: "Skenovať",
            recent_scans: "Nedávne skenovania",
            disks: "Disky",
            home: "Domov",
            downloads: "Stiahnuté",
            desktop: "Plocha",
            documents: "Dokumenty",
            scanning_files: "Skenovanie… súborov: ",
            cancel: "Zrušiť",
            new_scan: "Nový sken",
            trash_question: "Presunúť do koša?",
            folder: "Priečinok",
            file: "Súbor",
            trash_button: "Presunúť do koša",
            open_in_file_manager: "Zobraziť v správcovi súborov",
            trash_tip: "Presunúť do koša",
            light_theme: "Svetlý motív",
            dark_theme: "Tmavý motív",
            language: "Jazyk",
            hint_select: "vybrať",
            hint_back: "späť",
            disk_free: "voľných z",
        },
        Lang::Bg => Strings {
            app_title: "Filegram — карта на диска",
            path_placeholder: "Път до директория…",
            scan: "Сканиране",
            recent_scans: "Последни сканирания",
            disks: "Дискове",
            home: "Домашна папка",
            downloads: "Изтегляния",
            desktop: "Работен плот",
            documents: "Документи",
            scanning_files: "Сканиране… файлове: ",
            cancel: "Отказ",
            new_scan: "Ново сканиране",
            trash_question: "Преместване в кошчето?",
            folder: "Папка",
            file: "Файл",
            trash_button: "В кошчето",
            open_in_file_manager: "Покажи във файловия мениджър",
            trash_tip: "Преместване в кошчето",
            light_theme: "Светла тема",
            dark_theme: "Тъмна тема",
            language: "Език",
            hint_select: "избор",
            hint_back: "назад",
            disk_free: "свободни от",
        },
        Lang::Hr => Strings {
            app_title: "Filegram — karta diska",
            path_placeholder: "Putanja do mape…",
            scan: "Skeniraj",
            recent_scans: "Nedavna skeniranja",
            disks: "Diskovi",
            home: "Osobna mapa",
            downloads: "Preuzimanja",
            desktop: "Radna površina",
            documents: "Dokumenti",
            scanning_files: "Skeniranje… datoteke: ",
            cancel: "Odustani",
            new_scan: "Novo skeniranje",
            trash_question: "Premjestiti u smeće?",
            folder: "Mapa",
            file: "Datoteka",
            trash_button: "Premjesti u smeće",
            open_in_file_manager: "Prikaži u upravitelju datoteka",
            trash_tip: "Premjesti u smeće",
            light_theme: "Svijetla tema",
            dark_theme: "Tamna tema",
            language: "Jezik",
            hint_select: "odaberi",
            hint_back: "natrag",
            disk_free: "slobodno od",
        },
        Lang::Lt => Strings {
            app_title: "Filegram — disko žemėlapis",
            path_placeholder: "Katalogo kelias…",
            scan: "Skenuoti",
            recent_scans: "Paskutiniai skenavimai",
            disks: "Diskai",
            home: "Namai",
            downloads: "Atsisiuntimai",
            desktop: "Darbalaukis",
            documents: "Dokumentai",
            scanning_files: "Skenuojama… failai: ",
            cancel: "Atšaukti",
            new_scan: "Naujas skenavimas",
            trash_question: "Perkelti į šiukšlinę?",
            folder: "Aplankas",
            file: "Failas",
            trash_button: "Į šiukšlinę",
            open_in_file_manager: "Rodyti failų tvarkytuvėje",
            trash_tip: "Perkelti į šiukšlinę",
            light_theme: "Šviesi tema",
            dark_theme: "Tamsi tema",
            language: "Kalba",
            hint_select: "pasirinkti",
            hint_back: "atgal",
            disk_free: "laisva iš",
        },
        Lang::Sr => Strings {
            app_title: "Filegram — мапа диска",
            path_placeholder: "Путања директоријума…",
            scan: "Скенирај",
            recent_scans: "Недавна скенирања",
            disks: "Дискови",
            home: "Лична фасцикла",
            downloads: "Преузимања",
            desktop: "Радна површина",
            documents: "Документи",
            scanning_files: "Скенирање… датотеке: ",
            cancel: "Откажи",
            new_scan: "Ново скенирање",
            trash_question: "Преместити у смеће?",
            folder: "Фасцикла",
            file: "Датотека",
            trash_button: "Премести у смеће",
            open_in_file_manager: "Прикажи у управљачу датотека",
            trash_tip: "Премести у смеће",
            light_theme: "Светла тема",
            dark_theme: "Тамна тема",
            language: "Језик",
            hint_select: "изабери",
            hint_back: "назад",
            disk_free: "слободно од",
        },
        Lang::Lv => Strings {
            app_title: "Filegram — diska karte",
            path_placeholder: "Direktorijas ceļš…",
            scan: "Skenēt",
            recent_scans: "Nesenās skenēšanas",
            disks: "Diski",
            home: "Mājas",
            downloads: "Lejupielādes",
            desktop: "Darbvirsma",
            documents: "Dokumenti",
            scanning_files: "Skenē… faili: ",
            cancel: "Atcelt",
            new_scan: "Jauna skenēšana",
            trash_question: "Pārvietot uz atkritni?",
            folder: "Mape",
            file: "Fails",
            trash_button: "Uz atkritni",
            open_in_file_manager: "Rādīt failu pārvaldniekā",
            trash_tip: "Pārvietot uz atkritni",
            light_theme: "Gaišs motīvs",
            dark_theme: "Tumšs motīvs",
            language: "Valoda",
            hint_select: "izvēlēties",
            hint_back: "atpakaļ",
            disk_free: "brīvs no",
        },
        Lang::Sl => Strings {
            app_title: "Filegram — zemljevid diska",
            path_placeholder: "Pot do mape…",
            scan: "Preglej",
            recent_scans: "Nedavni pregledi",
            disks: "Diski",
            home: "Domov",
            downloads: "Prenosi",
            desktop: "Namizje",
            documents: "Dokumenti",
            scanning_files: "Pregledovanje… datoteke: ",
            cancel: "Prekliči",
            new_scan: "Nov pregled",
            trash_question: "Premakniti v smeti?",
            folder: "Mapa",
            file: "Datoteka",
            trash_button: "Premakni v smeti",
            open_in_file_manager: "Pokaži v upravitelju datotek",
            trash_tip: "Premakni v smeti",
            light_theme: "Svetla tema",
            dark_theme: "Temna tema",
            language: "Jezik",
            hint_select: "izberi",
            hint_back: "nazaj",
            disk_free: "prosto od",
        },
        Lang::Et => Strings {
            app_title: "Filegram — kettakaart",
            path_placeholder: "Kataloogi tee…",
            scan: "Skanni",
            recent_scans: "Hiljutised skannimised",
            disks: "Kettad",
            home: "Kodu",
            downloads: "Allalaadimised",
            desktop: "Töölaud",
            documents: "Dokumendid",
            scanning_files: "Skannimine… faile: ",
            cancel: "Loobu",
            new_scan: "Uus skannimine",
            trash_question: "Kas viia prügikasti?",
            folder: "Kaust",
            file: "Fail",
            trash_button: "Vii prügikasti",
            open_in_file_manager: "Näita failihalduris",
            trash_tip: "Vii prügikasti",
            light_theme: "Hele teema",
            dark_theme: "Tume teema",
            language: "Keel",
            hint_select: "vali",
            hint_back: "tagasi",
            disk_free: "vaba /",
        },
        Lang::He => Strings {
            app_title: "Filegram — מפת דיסק",
            path_placeholder: "נתיב תיקייה…",
            scan: "סריקה",
            recent_scans: "סריקות אחרונות",
            disks: "דיסקים",
            home: "בית",
            downloads: "הורדות",
            desktop: "שולחן עבודה",
            documents: "מסמכים",
            scanning_files: "סורק… קבצים: ",
            cancel: "ביטול",
            new_scan: "סריקה חדשה",
            trash_question: "להעביר לאשפה?",
            folder: "תיקייה",
            file: "קובץ",
            trash_button: "העבר לאשפה",
            open_in_file_manager: "הצג במנהל הקבצים",
            trash_tip: "העבר לאשפה",
            light_theme: "ערכת נושא בהירה",
            dark_theme: "ערכת נושא כהה",
            language: "שפה",
            hint_select: "בחירה",
            hint_back: "חזרה",
            disk_free: "פנוי מתוך",
        },
        Lang::Ms => Strings {
            app_title: "Filegram — peta cakera",
            path_placeholder: "Laluan direktori…",
            scan: "Imbas",
            recent_scans: "Imbasan terkini",
            disks: "Cakera",
            home: "Rumah",
            downloads: "Muat turun",
            desktop: "Desktop",
            documents: "Dokumen",
            scanning_files: "Mengimbas… fail: ",
            cancel: "Batal",
            new_scan: "Imbasan baharu",
            trash_question: "Alih ke tong sampah?",
            folder: "Folder",
            file: "Fail",
            trash_button: "Alih ke Tong Sampah",
            open_in_file_manager: "Tunjuk dalam pengurus fail",
            trash_tip: "Alih ke tong sampah",
            light_theme: "Tema cerah",
            dark_theme: "Tema gelap",
            language: "Bahasa",
            hint_select: "pilih",
            hint_back: "kembali",
            disk_free: "bebas daripada",
        },
        Lang::Fil => Strings {
            app_title: "Filegram — mapa ng disk",
            path_placeholder: "Path ng direktoryo…",
            scan: "I-scan",
            recent_scans: "Mga kamakailang scan",
            disks: "Mga disk",
            home: "Home",
            downloads: "Mga download",
            desktop: "Desktop",
            documents: "Mga dokumento",
            scanning_files: "Nag-i-scan… mga file: ",
            cancel: "Kanselahin",
            new_scan: "Bagong scan",
            trash_question: "Ilipat sa basurahan?",
            folder: "Folder",
            file: "File",
            trash_button: "Ilipat sa Basurahan",
            open_in_file_manager: "Ipakita sa file manager",
            trash_tip: "Ilipat sa basurahan",
            light_theme: "Maliwanag na tema",
            dark_theme: "Madilim na tema",
            language: "Wika",
            hint_select: "pumili",
            hint_back: "bumalik",
            disk_free: "libre sa",
        },
    }
}

/// The locale the operating system reports for its user interface
/// (`sys_locale::get_locale`). It depends on the environment, so nothing is
/// stated of it.
#[verifier::external_body]
fn system_locale() -> (r: Option<String>) {
    sys_locale::get_locale()
}

impl Lang {
    /// The identifier the settings file stores.
    pub fn tag(self) -> (r: &'static str)
        ensures
            r@ == tag_text(self),
    {
        match self {
            Lang::EnUs => "en-US",
            Lang::ZhCn => "zh-CN",
            Lang::EsEs => "es-ES",
            Lang::HiIn => "hi-IN",
            Lang::Ar => "ar",
            Lang::PtPt => "pt-PT",
            Lang::JaJp => "ja-JP",
            Lang::RuRu => "ru-RU",
            Lang::FrFr => "fr-FR",
            Lang::DeDe => "de-DE",
            Lang::Es419 => "es-419",
            Lang::Id => "id",
            Lang::ItIt => "it-IT",
            Lang::Ko => "ko",
            Lang::PtBr => "pt-BR",
            Lang::Th => "th",
            Lang::Tr => "tr",
            Lang::Fa => "fa",
            Lang::Nl => "nl",
            Lang::Pl => "pl",
            Lang::Vi => "vi",
            Lang::Cs => "cs",
            Lang::El => "el",
            Lang::Sv => "sv",
            Lang::Uk => "uk",
            Lang::Hu => "hu",
            Lang::Ro => "ro",
            Lang::Da => "da",
            Lang::Fi => "fi",
            Lang::No => "no",
            Lang::Sk => "sk",
            Lang::Bg => "bg",
            Lang::Hr => "hr",
            Lang::Lt => "lt",
            Lang::Sr => "sr",
            Lang::Lv => "lv",
            Lang::Sl => "sl",
            Lang::Et => "et",
            Lang::He => "he",
            Lang::Ms => "ms",
            Lang::Fil => "fil",
        }
    }

    /// The exact inverse of [`Lang::tag`]; `None` for anything else, so an
    /// edited settings file falls back to the system locale.
    pub fn from_tag(tag: &str) -> (r: Option<Lang>)
        ensures
            r == lang_from_tag(tag@),
    {
        proof {
            law_all_lists_every_language_once();
        }
        let all = ALL;
        let mut i: usize = 0;
        while i < all.len()
            invariant
                i <= all@.len(),
                all@ == ALL@,
                forall|j: int| 0 <= j < i ==> tag_text(#[trigger] all@[j]) != tag@,
            decreases all@.len() - i,
        {
            let lang = all[i];
            let own = chars_of(lang.tag());
            if equals_str(own.as_slice(), tag) {
                proof {
                    assert(exists|l: Lang| tag_text(l) == tag@);
                    let c = choose|l: Lang| tag_text(l) == tag@;
                    law_tags_are_unique(c, lang);
                }
                return Some(lang);
            }
            i += 1;
        }
        proof {
            assert forall|l: Lang| tag_text(l) != tag@ by {
                assert(all@.contains(l));
                let j = choose|j: int| 0 <= j < all@.len() && all@[j] == l;
                assert(tag_text(all@[j]) != tag@);
            }
        }
        None
    }

    /// The menu label: the language in its own writing, with a region where
    /// the menu offers two variants of the same language.
    pub fn native_name(self) -> (r: &'static str)
        ensures
            r@ == native_name_text(self),
    {
        match self {
            Lang::EnUs => "English (US)",
            Lang::ZhCn => "中文（简体）",
            Lang::EsEs => "Español (España)",
            Lang::HiIn => "हिन्दी",
            Lang::Ar => "العربية",
            Lang::PtPt => "Português (Portugal)",
            Lang::JaJp => "日本語",
            Lang::RuRu => "Русский",
            Lang::FrFr => "Français",
            Lang::DeDe => "Deutsch",
            Lang::Es419 => "Español (Latinoamérica)",
            Lang::Id => "Bahasa Indonesia",
            Lang::ItIt => "Italiano",
            Lang::Ko => "한국어",
            Lang::PtBr => "Português (Brasil)",
            Lang::Th => "ไทย",
            Lang::Tr => "Türkçe",
            Lang::Fa => "فارسی",
            Lang::Nl => "Nederlands",
            Lang::Pl => "Polski",
            Lang::Vi => "Tiếng Việt",
            Lang::Cs => "Čeština",
            Lang::El => "Ελληνικά",
            Lang::Sv => "Svenska",
            Lang::Uk => "Українська",
            Lang::Hu => "Magyar",
            Lang::Ro => "Română",
            Lang::Da => "Dansk",
            Lang::Fi => "Suomi",
            Lang::No => "Norsk",
            Lang::Sk => "Slovenčina",
            Lang::Bg => "Български",
            Lang::Hr => "Hrvatski",
            Lang::Lt => "Lietuvių",
            Lang::Sr => "Српски",
            Lang::Lv => "Latviešu",
            Lang::Sl => "Slovenščina",
            Lang::Et => "Eesti",
            Lang::He => "עברית",
            Lang::Ms => "Bahasa Melayu",
            Lang::Fil => "Filipino",
        }
    }

    /// Best-effort match of a system locale (`en-US`, `de_DE.UTF-8`,
    /// `zh-Hans-CN`) onto a menu entry; unknown languages read as English.
    pub fn from_locale(locale: &str) -> (r: Lang)
        ensures
            r == locale_lang(locale@),
    {
        let normal = locale_chars(locale);
        let parts = split_chars(normal.as_slice(), '-');
        let ghost views = locale_parts(locale@);
        proof {
            assert(parts@.map_values(|p: Vec<char>| p@) =~= views);
            assert(views[0] == parts@[0]@);
        }
        // The first two-letter (or `419`) subtag is the region; scripts
        // (`hans`) and encodings (`utf`) are longer and skipped.
        let mut found: Option<usize> = None;
        let mut j: usize = 1;
        proof {
            assert(views.drop_first() =~= views.skip(1));
        }
        while j < parts.len() && found.is_none()
            invariant
                1 <= j <= parts@.len(),
                parts@.map_values(|p: Vec<char>| p@) == views,
                match found {
                    None => first_region(views.drop_first()) == first_region(views.skip(j as int)),
                    Some(k) => 1 <= k < parts@.len() && first_region(views.drop_first()) == Some(
                        views[k as int],
                    ),
                },
            decreases parts@.len() - j,
        {
            proof {
                assert(views.skip(j as int)[0] == parts@[j as int]@);
                assert(views.skip(j as int).drop_first() =~= views.skip(j + 1));
            }
            if region_subtag(parts[j].as_slice()) {
                found = Some(j);
            }
            j += 1;
        }
        proof {
            if found.is_none() {
                assert(views.skip(j as int).len() == 0);
            }
        }
        let region: Option<&Vec<char>> = match found {
            Some(k) => Some(&parts[k]),
            None => None,
        };
        let ghost region_view = match region {
            Some(r) => Some(r@),
            None => None,
        };
        assert(region_view == first_region(views.drop_first()));
        let language = parts[0].as_slice();
        if equals_str(language, "en") {
            Lang::EnUs
        } else if equals_str(language, "zh") {
            Lang::ZhCn
        } else if equals_str(language, "es") {
            match region {
                Some(r) if latin_american(r.as_slice()) => Lang::Es419,
                _ => Lang::EsEs,
            }
        } else if equals_str(language, "hi") {
            Lang::HiIn
        } else if equals_str(language, "ar") {
            Lang::Ar
        } else if equals_str(language, "pt") {
            match region {
                Some(r) if equals_str(r.as_slice(), "br") => Lang::PtBr,
                _ => Lang::PtPt,
            }
        } else if equals_str(language, "ja") {
            Lang::JaJp
        } else if equals_str(language, "ru") {
            Lang::RuRu
        } else if equals_str(language, "fr") {
            Lang::FrFr
        } else if equals_str(language, "de") {
            Lang::DeDe
            // `in` is the legacy ISO code Java-era systems report for Indonesian.
        } else if equals_str(language, "id") {
            Lang::Id
        } else if equals_str(language, "in") {
            Lang::Id
        } else if equals_str(language, "it") {
            Lang::ItIt
        } else if equals_str(language, "ko") {
            Lang::Ko
        } else if equals_str(language, "th") {
            Lang::Th
        } else if equals_str(language, "tr") {
            Lang::Tr
        } else if equals_str(language, "fa") {
            Lang::Fa
        } else if equals_str(language, "nl") {
            Lang::Nl
        } else if equals_str(language, "pl") {
            Lang::Pl
        } else if equals_str(language, "vi") {
            Lang::Vi
        } else if equals_str(language, "cs") {
            Lang::Cs
        } else if equals_str(language, "el") {
            Lang::El
        } else if equals_str(language, "sv") {
            Lang::Sv
        } else if equals_str(language, "uk") {
            Lang::Uk
        } else if equals_str(language, "hu") {
            Lang::Hu
        } else if equals_str(language, "ro") {
            Lang::Ro
        } else if equals_str(language, "da") {
            Lang::Da
        } else if equals_str(language, "fi") {
            Lang::Fi
            // Bokmål, Nynorsk and the macrolanguage code all read as Norwegian.
        } else if equals_str(language, "no") {
            Lang::No
        } else if equals_str(language, "nb") {
            Lang::No
        } else if equals_str(language, "nn") {
            Lang::No
        } else if equals_str(language, "sk") {
            Lang::Sk
        } else if equals_str(language, "bg") {
            Lang::Bg
        } else if equals_str(language, "hr") {
            Lang::Hr
        } else if equals_str(language, "lt") {
            Lang::Lt
        } else if equals_str(language, "sr") {
            Lang::Sr
        } else if equals_str(language, "lv") {
            Lang::Lv
        } else if equals_str(language, "sl") {
            Lang::Sl
        } else if equals_str(language, "et") {
            Lang::Et
            // `iw` is the legacy ISO code Java-era systems report for Hebrew.
        } else if equals_str(language, "he") {
            Lang::He
        } else if equals_str(language, "iw") {
            Lang::He
        } else if equals_str(language, "ms") {
            Lang::Ms
            // `tl` (Tagalog) is what most systems report for Filipino.
        } else if equals_str(language, "fil") {
            Lang::Fil
        } else if equals_str(language, "tl") {
            Lang::Fil
        } else {
            Lang::EnUs
        }
    }

    /// The menu entry for what the system reports as its locale; English
    /// when it reports none.
    pub fn from_system_locale(locale: Option<&str>) -> (r: Lang)
        ensures
            r == match locale {
                Some(l) => locale_lang(l@),
                None => Lang::EnUs,
            },
    {
        match locale {
            Some(l) => Lang::from_locale(l),
            None => Lang::EnUs,
        }
    }

    /// The language of the OS user interface; English when the OS reports
    /// nothing.
    pub fn system() -> (r: Lang)
        ensures
            r == Lang::EnUs || exists|locale: Seq<char>| r == locale_lang(locale),
    {
        let reported = system_locale();
        match reported {
            Some(l) => Lang::from_system_locale(Some(l.as_str())),
            None => Lang::from_system_locale(None),
        }
    }

    /// The chrome strings in this language.
    pub fn strings(self) -> (r: &'static Strings)
        ensures
            *r == strings_of(self),
    {
        match self {
            Lang::EnUs => &Strings {
                app_title: "Filegram — disk map",
                path_placeholder: "Directory path…",
                scan: "Scan",
                recent_scans: "Recent scans",
                disks: "Disks",
                home: "Home",
                downloads: "Downloads",
                desktop: "Desktop",
                documents: "Documents",
                scanning_files: "Scanning… files: ",
                cancel: "Cancel",
                new_scan: "New scan",
                trash_question: "Move to trash?",
                folder: "Folder",
                file: "File",
                trash_button: "Move to Trash",
                open_in_file_manager: "Open in file manager",
                trash_tip: "Move to trash",
                light_theme: "Light theme",
                dark_theme: "Dark theme",
                language: "Language",
                hint_select: "select",
                hint_back: "back",
                disk_free: "free of",
            },
            Lang::ZhCn => &Strings {
                app_title: "Filegram — 磁盘地图",
                path_placeholder: "目录路径…",
                scan: "扫描",
                recent_scans: "最近扫描",
                disks: "磁盘",
                home: "主目录",
                downloads: "下载",
                desktop: "桌面",
                documents: "文档",
                scanning_files: "正在扫描… 文件数：",
                cancel: "取消",
                new_scan: "新建扫描",
                trash_question: "移到回收站？",
                folder: "文件夹",
                file: "文件",
                trash_button: "移到回收站",
                open_in_file_manager: "在文件管理器中显示",
                trash_tip: "移到回收站",
                light_theme: "浅色主题",
                dark_theme: "深色主题",
                language: "语言",
                hint_select: "选择",
                hint_back: "返回",
                disk_free: "可用，共",
            },
            Lang::EsEs => &Strings {
                app_title: "Filegram — mapa del disco",
                path_placeholder: "Ruta del directorio…",
                scan: "Escanear",
                recent_scans: "Escaneos recientes",
                disks: "Discos",
                home: "Inicio",
                downloads: "Descargas",
                desktop: "Escritorio",
                documents: "Documentos",
                scanning_files: "Escaneando… archivos: ",
                cancel: "Cancelar",
                new_scan: "Nuevo escaneo",
                trash_question: "¿Mover a la papelera?",
                folder: "Carpeta",
                file: "Archivo",
                trash_button: "Mover a la papelera",
                open_in_file_manager: "Mostrar en el gestor de archivos",
                trash_tip: "Mover a la papelera",
                light_theme: "Tema claro",
                dark_theme: "Tema oscuro",
                language: "Idioma",
                hint_select: "seleccionar",
                hint_back: "atrás",
                disk_free: "libres de",
            },
            Lang::HiIn => &Strings {
                app_title: "Filegram — डिस्क मैप",
                path_placeholder: "डायरेक्टरी पथ…",
                scan: "स्कैन करें",
                recent_scans: "हाल के स्कैन",
                disks: "डिस्क",
                home: "होम",
                downloads: "डाउनलोड",
                desktop: "डेस्कटॉप",
                documents: "दस्तावेज़",
                scanning_files: "स्कैन हो रहा है… फ़ाइलें: ",
                cancel: "रद्द करें",
                new_scan: "नया स्कैन",
                trash_question: "ट्रैश में ले जाएँ?",
                folder: "फ़ोल्डर",
                file: "फ़ाइल",
                trash_button: "ट्रैश में ले जाएँ",
                open_in_file_manager: "फ़ाइल मैनेजर में दिखाएँ",
                trash_tip: "ट्रैश में ले जाएँ",
                light_theme: "हल्की थीम",
                dark_theme: "गहरी थीम",
                language: "भाषा",
                hint_select: "चुनें",
                hint_back: "वापस",
                disk_free: "मुक्त /",
            },
            Lang::Ar => &Strings {
                app_title: "Filegram — خريطة القرص",
                path_placeholder: "مسار المجلد…",
                scan: "فحص",
                recent_scans: "عمليات الفحص الأخيرة",
                disks: "الأقراص",
                home: "المنزل",
                downloads: "التنزيلات",
                desktop: "سطح المكتب",
                documents: "المستندات",
                scanning_files: "جارٍ الفحص… الملفات: ",
                cancel: "إلغاء",
                new_scan: "فحص جديد",
                trash_question: "نقل إلى سلة المهملات؟",
                folder: "مجلد",
                file: "ملف",
                trash_button: "نقل إلى سلة المهملات",
                open_in_file_manager: "إظهار في مدير الملفات",
                trash_tip: "نقل إلى سلة المهملات",
                light_theme: "سمة فاتحة",
                dark_theme: "سمة داكنة",
                language: "اللغة",
                hint_select: "تحديد",
                hint_back: "رجوع",
                disk_free: "حر من",
            },
            Lang::PtPt => &Strings {
                app_title: "Filegram — mapa do disco",
                path_placeholder: "Caminho do diretório…",
                scan: "Analisar",
                recent_scans: "Análises recentes",
                disks: "Discos",
                home: "Pasta pessoal",
                downloads: "Transferências",
                desktop: "Ambiente de trabalho",
                documents: "Documentos",
                scanning_files: "A analisar… ficheiros: ",
                cancel: "Cancelar",
                new_scan: "Nova análise",
                trash_question: "Mover para o lixo?",
                folder: "Pasta",
                file: "Ficheiro",
                trash_button: "Mover para o lixo",
                open_in_file_manager: "Mostrar no gestor de ficheiros",
                trash_tip: "Mover para o lixo",
                light_theme: "Tema claro",
                dark_theme: "Tema escuro",
                language: "Idioma",
                hint_select: "selecionar",
                hint_back: "voltar",
                disk_free: "livres de",
            },
            Lang::JaJp => &Strings {
                app_title: "Filegram — ディスクマップ",
                path_placeholder: "ディレクトリのパス…",
                scan: "スキャン",
                recent_scans: "最近のスキャン",
                disks: "ディスク",
                home: "ホーム",
                downloads: "ダウンロード",
                desktop: "デスクトップ",
                documents: "書類",
                scanning_files: "スキャン中… ファイル数：",
                cancel: "キャンセル",
                new_scan: "新規スキャン",
                trash_question: "ゴミ箱に移動しますか？",
                folder: "フォルダ",
                file: "ファイル",
                trash_button: "ゴミ箱に移動",
                open_in_file_manager: "ファイルマネージャーで表示",
                trash_tip: "ゴミ箱に移動",
                light_theme: "ライトテーマ",
                dark_theme: "ダークテーマ",
                language: "言語",
                hint_select: "選択",
                hint_back: "戻る",
                disk_free: "空き /",
            },
            Lang::RuRu => &Strings {
                app_title: "Filegram — карта диска",
                path_placeholder: "Путь к папке…",
                scan: "Сканировать",
                recent_scans: "Недавние сканирования",
                disks: "Диски",
                home: "Домашняя",
                downloads: "Загрузки",
                desktop: "Рабочий стол",
                documents: "Документы",
                scanning_files: "Сканирование… файлов: ",
                cancel: "Отмена",
                new_scan: "Новый скан",
                trash_question: "Переместить в корзину?",
                folder: "Папка",
                file: "Файл",
                trash_button: "В корзину",
                open_in_file_manager: "Показать в файловом менеджере",
                trash_tip: "Переместить в корзину",
                light_theme: "Светлая тема",
                dark_theme: "Тёмная тема",
                language: "Язык",
                hint_select: "выбрать",
                hint_back: "назад",
                disk_free: "свободно из",
            },
            Lang::FrFr => &Strings {
                app_title: "Filegram — carte du disque",
                path_placeholder: "Chemin du dossier…",
                scan: "Analyser",
                recent_scans: "Analyses récentes",
                disks: "Disques",
                home: "Dossier personnel",
                downloads: "Téléchargements",
                desktop: "Bureau",
                documents: "Documents",
                scanning_files: "Analyse… fichiers : ",
                cancel: "Annuler",
                new_scan: "Nouvelle analyse",
                trash_question: "Déplacer vers la corbeille ?",
                folder: "Dossier",
                file: "Fichier",
                trash_button: "Déplacer vers la corbeille",
                open_in_file_manager: "Afficher dans le gestionnaire de fichiers",
                trash_tip: "Déplacer vers la corbeille",
                light_theme: "Thème clair",
                dark_theme: "Thème sombre",
                language: "Langue",
                hint_select: "sélectionner",
                hint_back: "retour",
                disk_free: "libres sur",
            },
            Lang::DeDe => &Strings {
                app_title: "Filegram — Festplattenkarte",
                path_placeholder: "Verzeichnispfad…",
                scan: "Scannen",
                recent_scans: "Letzte Scans",
                disks: "Laufwerke",
                home: "Persönlicher Ordner",
                downloads: "Downloads",
                desktop: "Desktop",
                documents: "Dokumente",
                scanning_files: "Scanne… Dateien: ",
                cancel: "Abbrechen",
                new_scan: "Neuer Scan",
                trash_question: "In den Papierkorb verschieben?",
                folder: "Ordner",
                file: "Datei",
                trash_button: "In den Papierkorb",
                open_in_file_manager: "Im Dateimanager anzeigen",
                trash_tip: "In den Papierkorb verschieben",
                light_theme: "Helles Design",
                dark_theme: "Dunkles Design",
                language: "Sprache",
                hint_select: "auswählen",
                hint_back: "zurück",
                disk_free: "frei von",
            },
            Lang::Es419 => &Strings {
                app_title: "Filegram — mapa del disco",
                path_placeholder: "Ruta del directorio…",
                scan: "Escanear",
                recent_scans: "Escaneos recientes",
                disks: "Discos",
                home: "Inicio",
                downloads: "Descargas",
                desktop: "Escritorio",
                documents: "Documentos",
                scanning_files: "Escaneando… archivos: ",
                cancel: "Cancelar",
                new_scan: "Nuevo escaneo",
                trash_question: "¿Mover a la papelera?",
                folder: "Carpeta",
                file: "Archivo",
                trash_button: "Mover a la papelera",
                open_in_file_manager: "Mostrar en el administrador de archivos",
                trash_tip: "Mover a la papelera",
                light_theme: "Tema claro",
                dark_theme: "Tema oscuro",
                language: "Idioma",
                hint_select: "seleccionar",
                hint_back: "atrás",
                disk_free: "libres de",
            },
            Lang::Id => &Strings {
                app_title: "Filegram — peta disk",
                path_placeholder: "Jalur direktori…",
                scan: "Pindai",
                recent_scans: "Pemindaian terbaru",
                disks: "Disk",
                home: "Beranda",
                downloads: "Unduhan",
                desktop: "Desktop",
                documents: "Dokumen",
                scanning_files: "Memindai… berkas: ",
                cancel: "Batal",
                new_scan: "Pemindaian baru",
                trash_question: "Pindahkan ke tempat sampah?",
                folder: "Folder",
                file: "Berkas",
                trash_button: "Pindahkan ke Tempat Sampah",
                open_in_file_manager: "Tampilkan di pengelola berkas",
                trash_tip: "Pindahkan ke tempat sampah",
                light_theme: "Tema terang",
                dark_theme: "Tema gelap",
                language: "Bahasa",
                hint_select: "pilih",
                hint_back: "kembali",
                disk_free: "tersedia dari",
            },
            Lang::ItIt => &Strings {
                app_title: "Filegram — mappa del disco",
                path_placeholder: "Percorso della directory…",
                scan: "Scansiona",
                recent_scans: "Scansioni recenti",
                disks: "Dischi",
                home: "Home",
                downloads: "Scaricati",
                desktop: "Scrivania",
                documents: "Documenti",
                scanning_files: "Scansione… file: ",
                cancel: "Annulla",
                new_scan: "Nuova scansione",
                trash_question: "Spostare nel cestino?",
                folder: "Cartella",
                file: "File",
                trash_button: "Sposta nel cestino",
                open_in_file_manager: "Mostra nel gestore file",
                trash_tip: "Sposta nel cestino",
                light_theme: "Tema chiaro",
                dark_theme: "Tema scuro",
                language: "Lingua",
                hint_select: "seleziona",
                hint_back: "indietro",
                disk_free: "liberi di",
            },
            Lang::Ko => &Strings {
                app_title: "Filegram — 디스크 맵",
                path_placeholder: "디렉터리 경로…",
                scan: "스캔",
                recent_scans: "최근 스캔",
                disks: "디스크",
                home: "홈",
                downloads: "다운로드",
                desktop: "바탕 화면",
                documents: "문서",
                scanning_files: "스캔 중… 파일: ",
                cancel: "취소",
                new_scan: "새 스캔",
                trash_question: "휴지통으로 이동할까요?",
                folder: "폴더",
                file: "파일",
                trash_button: "휴지통으로 이동",
                open_in_file_manager: "파일 관리자에서 보기",
                trash_tip: "휴지통으로 이동",
                light_theme: "라이트 테마",
                dark_theme: "다크 테마",
                language: "언어",
                hint_select: "선택",
                hint_back: "뒤로",
                disk_free: "사용 가능 /",
            },
            Lang::PtBr => &Strings {
                app_title: "Filegram — mapa do disco",
                path_placeholder: "Caminho do diretório…",
                scan: "Escanear",
                recent_scans: "Escaneamentos recentes",
                disks: "Discos",
                home: "Início",
                downloads: "Downloads",
                desktop: "Área de trabalho",
                documents: "Documentos",
                scanning_files: "Escaneando… arquivos: ",
                cancel: "Cancelar",
                new_scan: "Novo escaneamento",
                trash_question: "Mover para a lixeira?",
                folder: "Pasta",
                file: "Arquivo",
                trash_button: "Mover para a Lixeira",
                open_in_file_manager: "Mostrar no gerenciador de arquivos",
                trash_tip: "Mover para a lixeira",
                light_theme: "Tema claro",
                dark_theme: "Tema escuro",
                language: "Idioma",
                hint_select: "selecionar",
                hint_back: "voltar",
                disk_free: "livres de",
            },
            Lang::Th => &Strings {
                app_title: "Filegram — แผนที่ดิสก์",
                path_placeholder: "เส้นทางโฟลเดอร์…",
                scan: "สแกน",
                recent_scans: "การสแกนล่าสุด",
                disks: "ดิสก์",
                home: "โฮม",
                downloads: "ดาวน์โหลด",
                desktop: "เดสก์ท็อป",
                documents: "เอกสาร",
                scanning_files: "กำลังสแกน… ไฟล์: ",
                cancel: "ยกเลิก",
                new_scan: "สแกนใหม่",
                trash_question: "ย้ายไปถังขยะ?",
                folder: "โฟลเดอร์",
                file: "ไฟล์",
                trash_button: "ย้ายไปถังขยะ",
                open_in_file_manager: "แสดงในตัวจัดการไฟล์",
                trash_tip: "ย้ายไปถังขยะ",
                light_theme: "ธีมสว่าง",
                dark_theme: "ธีมมืด",
                language: "ภาษา",
                hint_select: "เลือก",
                hint_back: "กลับ",
                disk_free: "ว่างจาก",
            },
            Lang::Tr => &Strings {
                app_title: "Filegram — disk haritası",
                path_placeholder: "Dizin yolu…",
                scan: "Tara",
                recent_scans: "Son taramalar",
                disks: "Diskler",
                home: "Ev",
                downloads: "İndirilenler",
                desktop: "Masaüstü",
                documents: "Belgeler",
                scanning_files: "Taranıyor… dosya: ",
                cancel: "İptal",
                new_scan: "Yeni tarama",
                trash_question: "Çöp kutusuna taşınsın mı?",
                folder: "Klasör",
                file: "Dosya",
                trash_button: "Çöp Kutusuna Taşı",
                open_in_file_manager: "Dosya yöneticisinde göster",
                trash_tip: "Çöp kutusuna taşı",
                light_theme: "Açık tema",
                dark_theme: "Koyu tema",
                language: "Dil",
                hint_select: "seç",
                hint_back: "geri",
                disk_free: "boş /",
            },
            Lang::Fa => &Strings {
                app_title: "Filegram — نقشه دیسک",
                path_placeholder: "مسیر پوشه…",
                scan: "اسکن",
                recent_scans: "اسکن‌های اخیر",
                disks: "دیسک‌ها",
                home: "خانه",
                downloads: "دانلودها",
                desktop: "دسکتاپ",
                documents: "اسناد",
                scanning_files: "در حال اسکن… فایل‌ها: ",
                cancel: "لغو",
                new_scan: "اسکن جدید",
                trash_question: "به سطل زباله منتقل شود؟",
                folder: "پوشه",
                file: "فایل",
                trash_button: "انتقال به سطل زباله",
                open_in_file_manager: "نمایش در مدیر فایل",
                trash_tip: "انتقال به سطل زباله",
                light_theme: "تم روشن",
                dark_theme: "تم تیره",
                language: "زبان",
                hint_select: "انتخاب",
                hint_back: "بازگشت",
                disk_free: "آزاد از",
            },
            Lang::Nl => &Strings {
                app_title: "Filegram — schijfkaart",
                path_placeholder: "Mappad…",
                scan: "Scannen",
                recent_scans: "Recente scans",
                disks: "Schijven",
                home: "Thuismap",
                downloads: "Downloads",
                desktop: "Bureaublad",
                documents: "Documenten",
                scanning_files: "Scannen… bestanden: ",
                cancel: "Annuleren",
                new_scan: "Nieuwe scan",
                trash_question: "Naar de prullenbak verplaatsen?",
                folder: "Map",
                file: "Bestand",
                trash_button: "Naar prullenbak",
                open_in_file_manager: "Tonen in bestandsbeheer",
                trash_tip: "Naar de prullenbak verplaatsen",
                light_theme: "Licht thema",
                dark_theme: "Donker thema",
                language: "Taal",
                hint_select: "selecteren",
                hint_back: "terug",
                disk_free: "vrij van",
            },
            Lang::Pl => &Strings {
                app_title: "Filegram — mapa dysku",
                path_placeholder: "Ścieżka katalogu…",
                scan: "Skanuj",
                recent_scans: "Ostatnie skanowania",
                disks: "Dyski",
                home: "Katalog domowy",
                downloads: "Pobrane",
                desktop: "Pulpit",
                documents: "Dokumenty",
                scanning_files: "Skanowanie… pliki: ",
                cancel: "Anuluj",
                new_scan: "Nowy skan",
                trash_question: "Przenieść do kosza?",
                folder: "Folder",
                file: "Plik",
                trash_button: "Przenieś do kosza",
                open_in_file_manager: "Pokaż w menedżerze plików",
                trash_tip: "Przenieś do kosza",
                light_theme: "Jasny motyw",
                dark_theme: "Ciemny motyw",
                language: "Język",
                hint_select: "wybierz",
                hint_back: "wstecz",
                disk_free: "wolne z",
            },
            Lang::Vi => &Strings {
                app_title: "Filegram — bản đồ ổ đĩa",
                path_placeholder: "Đường dẫn thư mục…",
                scan: "Quét",
                recent_scans: "Quét gần đây",
                disks: "Ổ đĩa",
                home: "Thư mục cá nhân",
                downloads: "Tải về",
                desktop: "Màn hình nền",
                documents: "Tài liệu",
                scanning_files: "Đang quét… tệp: ",
                cancel: "Hủy",
                new_scan: "Quét mới",
                trash_question: "Chuyển vào thùng rác?",
                folder: "Thư mục",
                file: "Tệp",
                trash_button: "Chuyển vào thùng rác",
                open_in_file_manager: "Hiện trong trình quản lý tệp",
                trash_tip: "Chuyển vào thùng rác",
                light_theme: "Giao diện sáng",
                dark_theme: "Giao diện tối",
                language: "Ngôn ngữ",
                hint_select: "chọn",
                hint_back: "quay lại",
                disk_free: "trống trên",
            },
            Lang::Cs => &Strings {
                app_title: "Filegram — mapa disku",
                path_placeholder: "Cesta k adresáři…",
                scan: "Skenovat",
                recent_scans: "Nedávná skenování",
                disks: "Disky",
                home: "Domů",
                downloads: "Stažené",
                desktop: "Plocha",
                documents: "Dokumenty",
                scanning_files: "Skenování… souborů: ",
                cancel: "Zrušit",
                new_scan: "Nový sken",
                trash_question: "Přesunout do koše?",
                folder: "Složka",
                file: "Soubor",
                trash_button: "Přesunout do koše",
                open_in_file_manager: "Zobrazit ve správci souborů",
                trash_tip: "Přesunout do koše",
                light_theme: "Světlý motiv",
                dark_theme: "Tmavý motiv",
                language: "Jazyk",
                hint_select: "vybrat",
                hint_back: "zpět",
                disk_free: "volných z",
            },
            Lang::El => &Strings {
                app_title: "Filegram — χάρτης δίσκου",
                path_placeholder: "Διαδρομή καταλόγου…",
                scan: "Σάρωση",
                recent_scans: "Πρόσφατες σαρώσεις",
                disks: "Δίσκοι",
                home: "Προσωπικός φάκελος",
                downloads: "Λήψεις",
                desktop: "Επιφάνεια εργασίας",
                documents: "Έγγραφα",
                scanning_files: "Σάρωση… αρχεία: ",
                cancel: "Άκυρο",
                new_scan: "Νέα σάρωση",
                trash_question: "Μετακίνηση στα απορρίμματα;",
                folder: "Φάκελος",
                file: "Αρχείο",
                trash_button: "Στα απορρίμματα",
                open_in_file_manager: "Εμφάνιση στον διαχειριστή αρχείων",
                trash_tip: "Μετακίνηση στα απορρίμματα",
                light_theme: "Φωτεινό θέμα",
                dark_theme: "Σκούρο θέμα",
                language: "Γλώσσα",
                hint_select: "επιλογή",
                hint_back: "πίσω",
                disk_free: "ελεύθερα από",
            },
            Lang::Sv => &Strings {
                app_title: "Filegram — diskkarta",
                path_placeholder: "Sökväg till katalog…",
                scan: "Skanna",
                recent_scans: "Senaste skanningar",
                disks: "Diskar",
                home: "Hem",
                downloads: "Hämtningar",
                desktop: "Skrivbord",
                documents: "Dokument",
                scanning_files: "Skannar… filer: ",
                cancel: "Avbryt",
                new_scan: "Ny skanning",
                trash_question: "Flytta till papperskorgen?",
                folder: "Mapp",
                file: "Fil",
                trash_button: "Flytta till papperskorgen",
                open_in_file_manager: "Visa i filhanteraren",
                trash_tip: "Flytta till papperskorgen",
                light_theme: "Ljust tema",
                dark_theme: "Mörkt tema",
                language: "Språk",
                hint_select: "välj",
                hint_back: "tillbaka",
                disk_free: "ledigt av",
            },
            Lang::Uk => &Strings {
                app_title: "Filegram — карта диска",
                path_placeholder: "Шлях до теки…",
                scan: "Сканувати",
                recent_scans: "Останні сканування",
                disks: "Диски",
                home: "Домівка",
                downloads: "Завантаження",
                desktop: "Стільниця",
                documents: "Документи",
                scanning_files: "Сканування… файлів: ",
                cancel: "Скасувати",
                new_scan: "Новий скан",
                trash_question: "Перемістити в смітник?",
                folder: "Тека",
                file: "Файл",
                trash_button: "У смітник",
                open_in_file_manager: "Показати у файловому менеджері",
                trash_tip: "Перемістити в смітник",
                light_theme: "Світла тема",
                dark_theme: "Темна тема",
                language: "Мова",
                hint_select: "вибрати",
                hint_back: "назад",
                disk_free: "вільно з",
            },
            Lang::Hu => &Strings {
                app_title: "Filegram — lemeztérkép",
                path_placeholder: "Könyvtár elérési útja…",
                scan: "Vizsgálat",
                recent_scans: "Legutóbbi vizsgálatok",
                disks: "Lemezek",
                home: "Saját mappa",
                downloads: "Letöltések",
                desktop: "Asztal",
                documents: "Dokumentumok",
                scanning_files: "Vizsgálat… fájlok: ",
                cancel: "Mégse",
                new_scan: "Új vizsgálat",
                trash_question: "Áthelyezi a kukába?",
                folder: "Mappa",
                file: "Fájl",
                trash_button: "Áthelyezés a kukába",
                open_in_file_manager: "Megjelenítés a fájlkezelőben",
                trash_tip: "Áthelyezés a kukába",
                light_theme: "Világos téma",
                dark_theme: "Sötét téma",
                language: "Nyelv",
                hint_select: "kijelölés",
                hint_back: "vissza",
                disk_free: "szabad ebből",
            },
            Lang::Ro => &Strings {
                app_title: "Filegram — harta discului",
                path_placeholder: "Calea directorului…",
                scan: "Scanează",
                recent_scans: "Scanări recente",
                disks: "Discuri",
                home: "Acasă",
                downloads: "Descărcări",
                desktop: "Desktop",
                documents: "Documente",
                scanning_files: "Se scanează… fișiere: ",
                cancel: "Anulează",
                new_scan: "Scanare nouă",
                trash_question: "Mutați la coșul de gunoi?",
                folder: "Dosar",
                file: "Fișier",
                trash_button: "Mută la coș",
                open_in_file_manager: "Afișează în managerul de fișiere",
                trash_tip: "Mută la coșul de gunoi",
                light_theme: "Temă luminoasă",
                dark_theme: "Temă întunecată",
                language: "Limbă",
                hint_select: "selectează",
                hint_back: "înapoi",
                disk_free: "liberi din",
            },
            Lang::Da => &Strings {
                app_title: "Filegram — diskkort",
                path_placeholder: "Sti til mappe…",
                scan: "Scan",
                recent_scans: "Seneste scanninger",
                disks: "Diske",
                home: "Hjem",
                downloads: "Overførsler",
                desktop: "Skrivebord",
                documents: "Dokumenter",
                scanning_files: "Scanner… filer: ",
                cancel: "Annuller",
                new_scan: "Ny scanning",
                trash_question: "Flyt til papirkurven?",
                folder: "Mappe",
                file: "Fil",
                trash_button: "Flyt til papirkurven",
                open_in_file_manager: "Vis i filhåndtering",
                trash_tip: "Flyt til papirkurven",
                light_theme: "Lyst tema",
                dark_theme: "Mørkt tema",
                language: "Sprog",
                hint_select: "vælg",
                hint_back: "tilbage",
                disk_free: "ledig af",
            },
            Lang::Fi => &Strings {
                app_title: "Filegram — levykartta",
                path_placeholder: "Hakemiston polku…",
                scan: "Skannaa",
                recent_scans: "Viimeisimmät skannaukset",
                disks: "Levyt",
                home: "Koti",
                downloads: "Lataukset",
                desktop: "Työpöytä",
                documents: "Asiakirjat",
                scanning_files: "Skannataan… tiedostoja: ",
                cancel: "Peruuta",
                new_scan: "Uusi skannaus",
                trash_question: "Siirretäänkö roskakoriin?",
                folder: "Kansio",
                file: "Tiedosto",
                trash_button: "Siirrä roskakoriin",
                open_in_file_manager: "Näytä tiedostonhallinnassa",
                trash_tip: "Siirrä roskakoriin",
                light_theme: "Vaalea teema",
                dark_theme: "Tumma teema",
                language: "Kieli",
                hint_select: "valitse",
                hint_back: "takaisin",
                disk_free: "vapaana /",
            },
            Lang::No => &Strings {
                app_title: "Filegram — diskkart",
                path_placeholder: "Sti til mappe…",
                scan: "Skann",
                recent_scans: "Nylige skanninger",
                disks: "Disker",
                home: "Hjem",
                downloads: "Nedlastinger",
                desktop: "Skrivebord",
                documents: "Dokumenter",
                scanning_files: "Skanner… filer: ",
                cancel: "Avbryt",
                new_scan: "Ny skanning",
                trash_question: "Flytte til papirkurven?",
                folder: "Mappe",
                file: "Fil",
                trash_button: "Flytt til papirkurven",
                open_in_file_manager: "Vis i filbehandler",
                trash_tip: "Flytt til papirkurven",
                light_theme: "Lyst tema",
                dark_theme: "Mørkt tema",
                language: "Språk",
                hint_select: "velg",
                hint_back: "tilbake",
                disk_free: "ledig av",
            },
            Lang::Sk => &Strings {
                app_title: "Filegram — mapa disku",
                path_placeholder: "Cesta k adresáru…",
                scan: "Skenovať",
                recent_scans: "Nedávne skenovania",
                disks: "Disky",
                home: "Domov",
                downloads: "Stiahnuté",
                desktop: "Plocha",
                documents: "Dokumenty",
                scanning_files: "Skenovanie… súborov: ",
                cancel: "Zrušiť",
                new_scan: "Nový sken",
                trash_question: "Presunúť do koša?",
                folder: "Priečinok",
                file: "Súbor",
                trash_button: "Presunúť do koša",
                open_in_file_manager: "Zobraziť v správcovi súborov",
                trash_tip: "Presunúť do koša",
                light_theme: "Svetlý motív",
                dark_theme: "Tmavý motív",
                language: "Jazyk",
                hint_select: "vybrať",
                hint_back: "späť",
                disk_free: "voľných z",
            },
            Lang::Bg => &Strings {
                app_title: "Filegram — карта на диска",
                path_placeholder: "Път до директория…",
                scan: "Сканиране",
                recent_scans: "Последни сканирания",
                disks: "Дискове",
                home: "Домашна папка",
                downloads: "Изтегляния",
                desktop: "Работен плот",
                documents: "Документи",
                scanning_files: "Сканиране… файлове: ",
                cancel: "Отказ",
                new_scan: "Ново сканиране",
                trash_question: "Преместване в кошчето?",
                folder: "Папка",
                file: "Файл",
                trash_button: "В кошчето",
                open_in_file_manager: "Покажи във файловия мениджър",
                trash_tip: "Преместване в кошчето",
                light_theme: "Светла тема",
                dark_theme: "Тъмна тема",
                language: "Език",
                hint_select: "избор",
                hint_back: "назад",
                disk_free: "свободни от",
            },
            Lang::Hr => &Strings {
                app_title: "Filegram — karta diska",
                path_placeholder: "Putanja do mape…",
                scan: "Skeniraj",
                recent_scans: "Nedavna skeniranja",
                disks: "Diskovi",
                home: "Osobna mapa",
                downloads: "Preuzimanja",
                desktop: "Radna površina",
                documents: "Dokumenti",
                scanning_files: "Skeniranje… datoteke: ",
                cancel: "Odustani",
                new_scan: "Novo skeniranje",
                trash_question: "Premjestiti u smeće?",
                folder: "Mapa",
                file: "Datoteka",
                trash_button: "Premjesti u smeće",
                open_in_file_manager: "Prikaži u upravitelju datoteka",
                trash_tip: "Premjesti u smeće",
                light_theme: "Svijetla tema",
                dark_theme: "Tamna tema",
                language: "Jezik",
                hint_select: "odaberi",
                hint_back: "natrag",
                disk_free: "slobodno od",
            },
            Lang::Lt => &Strings {
                app_title: "Filegram — disko žemėlapis",
                path_placeholder: "Katalogo kelias…",
                scan: "Skenuoti",
                recent_scans: "Paskutiniai skenavimai",
                disks: "Diskai",
                home: "Namai",
                downloads: "Atsisiuntimai",
                desktop: "Darbalaukis",
                documents: "Dokumentai",
                scanning_files: "Skenuojama… failai: ",
                cancel: "Atšaukti",
                new_scan: "Naujas skenavimas",
                trash_question: "Perkelti į šiukšlinę?",
                folder: "Aplankas",
                file: "Failas",
                trash_button: "Į šiukšlinę",
                open_in_file_manager: "Rodyti failų tvarkytuvėje",
                trash_tip: "Perkelti į šiukšlinę",
                light_theme: "Šviesi tema",
                dark_theme: "Tamsi tema",
                language: "Kalba",
                hint_select: "pasirinkti",
                hint_back: "atgal",
                disk_free: "laisva iš",
            },
            Lang::Sr => &Strings {
                app_title: "Filegram — мапа диска",
                path_placeholder: "Путања директоријума…",
                scan: "Скенирај",
                recent_scans: "Недавна скенирања",
                disks: "Дискови",
                home: "Лична фасцикла",
                downloads: "Преузимања",
                desktop: "Радна површина",
                documents: "Документи",
                scanning_files: "Скенирање… датотеке: ",
                cancel: "Откажи",
                new_scan: "Ново скенирање",
                trash_question: "Преместити у смеће?",
                folder: "Фасцикла",
                file: "Датотека",
                trash_button: "Премести у смеће",
                open_in_file_manager: "Прикажи у управљачу датотека",
                trash_tip: "Премести у смеће",
                light_theme: "Светла тема",
                dark_theme: "Тамна тема",
                language: "Језик",
                hint_select: "изабери",
                hint_back: "назад",
                disk_free: "слободно од",
            },
            Lang::Lv => &Strings {
                app_title: "Filegram — diska karte",
                path_placeholder: "Direktorijas ceļš…",
                scan: "Skenēt",
                recent_scans: "Nesenās skenēšanas",
                disks: "Diski",
                home: "Mājas",
                downloads: "Lejupielādes",
                desktop: "Darbvirsma",
                documents: "Dokumenti",
                scanning_files: "Skenē… faili: ",
                cancel: "Atcelt",
                new_scan: "Jauna skenēšana",
                trash_question: "Pārvietot uz atkritni?",
                folder: "Mape",
                file: "Fails",
                trash_button: "Uz atkritni",
                open_in_file_manager: "Rādīt failu pārvaldniekā",
                trash_tip: "Pārvietot uz atkritni",
                light_theme: "Gaišs motīvs",
                dark_theme: "Tumšs motīvs",
                language: "Valoda",
                hint_select: "izvēlēties",
                hint_back: "atpakaļ",
                disk_free: "brīvs no",
            },
            Lang::Sl => &Strings {
                app_title: "Filegram — zemljevid diska",
                path_placeholder: "Pot do mape…",
                scan: "Preglej",
                recent_scans: "Nedavni pregledi",
                disks: "Diski",
                home: "Domov",
                downloads: "Prenosi",
                desktop: "Namizje",
                documents: "Dokumenti",
                scanning_files: "Pregledovanje… datoteke: ",
                cancel: "Prekliči",
                new_scan: "Nov pregled",
                trash_question: "Premakniti v smeti?",
                folder: "Mapa",
                file: "Datoteka",
                trash_button: "Premakni v smeti",
                open_in_file_manager: "Pokaži v upravitelju datotek",
                trash_tip: "Premakni v smeti",
                light_theme: "Svetla tema",
                dark_theme: "Temna tema",
                language: "Jezik",
                hint_select: "izberi",
                hint_back: "nazaj",
                disk_free: "prosto od",
            },
            Lang::Et => &Strings {
                app_title: "Filegram — kettakaart",
                path_placeholder: "Kataloogi tee…",
                scan: "Skanni",
                recent_scans: "Hiljutised skannimised",
                disks: "Kettad",
                home: "Kodu",
                downloads: "Allalaadimised",
                desktop: "Töölaud",
                documents: "Dokumendid",
                scanning_files: "Skannimine… faile: ",
                cancel: "Loobu",
                new_scan: "Uus skannimine",
                trash_question: "Kas viia prügikasti?",
                folder: "Kaust",
                file: "Fail",
                trash_button: "Vii prügikasti",
                open_in_file_manager: "Näita failihalduris",
                trash_tip: "Vii prügikasti",
                light_theme: "Hele teema",
                dark_theme: "Tume teema",
                language: "Keel",
                hint_select: "vali",
                hint_back: "tagasi",
                disk_free: "vaba /",
            },
            Lang::He => &Strings {
                app_title: "Filegram — מפת דיסק",
                path_placeholder: "נתיב תיקייה…",
                scan: "סריקה",
                recent_scans: "סריקות אחרונות",
                disks: "דיסקים",
                home: "בית",
                downloads: "הורדות",
                desktop: "שולחן עבודה",
                documents: "מסמכים",
                scanning_files: "סורק… קבצים: ",
                cancel: "ביטול",
                new_scan: "סריקה חדשה",
                trash_question: "להעביר לאשפה?",
                folder: "תיקייה",
                file: "קובץ",
                trash_button: "העבר לאשפה",
                open_in_file_manager: "הצג במנהל הקבצים",
                trash_tip: "העבר לאשפה",
                light_theme: "ערכת נושא בהירה",
                dark_theme: "ערכת נושא כהה",
                language: "שפה",
                hint_select: "בחירה",
                hint_back: "חזרה",
                disk_free: "פנוי מתוך",
            },
            Lang::Ms => &Strings {
                app_title: "Filegram — peta cakera",
                path_placeholder: "Laluan direktori…",
                scan: "Imbas",
                recent_scans: "Imbasan terkini",
                disks: "Cakera",
                home: "Rumah",
                downloads: "Muat turun",
                desktop: "Desktop",
                documents: "Dokumen",
                scanning_files: "Mengimbas… fail: ",
                cancel: "Batal",
                new_scan: "Imbasan baharu",
                trash_question: "Alih ke tong sampah?",
                folder: "Folder",
                file: "Fail",
                trash_button: "Alih ke Tong Sampah",
                open_in_file_manager: "Tunjuk dalam pengurus fail",
                trash_tip: "Alih ke tong sampah",
                light_theme: "Tema cerah",
                dark_theme: "Tema gelap",
                language: "Bahasa",
                hint_select: "pilih",
                hint_back: "kembali",
                disk_free: "bebas daripada",
            },
            Lang::Fil => &Strings {
                app_title: "Filegram — mapa ng disk",
                path_placeholder: "Path ng direktoryo…",
                scan: "I-scan",
                recent_scans: "Mga kamakailang scan",
                disks: "Mga disk",
                home: "Home",
                downloads: "Mga download",
                desktop: "Desktop",
                documents: "Mga dokumento",
                scanning_files: "Nag-i-scan… mga file: ",
                cancel: "Kanselahin",
                new_scan: "Bagong scan",
                trash_question: "Ilipat sa basurahan?",
                folder: "Folder",
                file: "File",
                trash_button: "Ilipat sa Basurahan",
                open_in_file_manager: "Ipakita sa file manager",
                trash_tip: "Ilipat sa basurahan",
                light_theme: "Maliwanag na tema",
                dark_theme: "Madilim na tema",
                language: "Wika",
                hint_select: "pumili",
                hint_back: "bumalik",
                disk_free: "libre sa",
            },
        }
    }
}

/// Only the language subtag decides, except between the Spanish and the
/// Portuguese variants: two locales with the same language subtag, other
/// than `es` and `pt`, select the same entry whatever region, script or
/// encoding follows it; a Spanish or Portuguese locale selects one of the
/// variants of its language.
pub proof fn law_only_the_language_subtag_decides(a: Seq<char>, b: Seq<char>)
    ensures
        locale_parts(a)[0] == locale_parts(b)[0] && locale_parts(a)[0] != "es"@ && locale_parts(
            a,
        )[0] != "pt"@ ==> locale_lang(a) == locale_lang(b),
        locale_parts(a)[0] == "es"@ ==> locale_lang(a) == Lang::EsEs || locale_lang(a)
            == Lang::Es419,
        locale_parts(a)[0] == "pt"@ ==> locale_lang(a) == Lang::PtPt || locale_lang(a)
            == Lang::PtBr,
{
    reveal_strlit("en");
    reveal_strlit("zh");
    reveal_strlit("es");
    reveal_strlit("hi");
    reveal_strlit("ar");
    reveal_strlit("pt");
    let l = locale_parts(a)[0];
    let region = first_region(locale_parts(a).drop_first());
    if l == "es"@ {
        assert(l[1] == 's');
        assert(l != "en"@ && l != "zh"@) by {
            assert("en"@[1] == 'n' && "zh"@[0] == 'z');
        }
        assert(lang_for(l, region) == Lang::EsEs || lang_for(l, region) == Lang::Es419);
    }
    if l == "pt"@ {
        assert(l[0] == 'p');
        assert(l != "en"@ && l != "zh"@ && l != "es"@ && l != "hi"@ && l != "ar"@) by {
            assert("en"@[0] == 'e' && "zh"@[0] == 'z' && "es"@[0] == 'e' && "hi"@[0] == 'h'
                && "ar"@[0] == 'a');
        }
        assert(lang_for(l, region) == Lang::PtPt || lang_for(l, region) == Lang::PtBr);
    }
}

/// A locale selects a language when its language subtag is that of the
/// language's own tag, for every language but the Spanish and Portuguese
/// variants, which the region tells apart: `de_AT.UTF-8` selects German
/// just as `de-DE` does.
pub proof fn law_language_subtag_selects_its_language(lang: Lang, locale: Seq<char>)
    requires
        locale_parts(locale)[0] == locale_parts(tag_text(lang))[0],
        locale_parts(locale)[0] != "es"@,
        locale_parts(locale)[0] != "pt"@,
    ensures
        locale_lang(locale) == lang,
{
    law_tag_read_as_locale_selects_its_language(lang);
    law_only_the_language_subtag_decides(locale, tag_text(lang));
}

} // verus!
