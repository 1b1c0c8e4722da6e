use filegram::i18n::{Lang, ALL, PRIMARY};

#[test]
fn tags_roundtrip_for_every_language() {
    for lang in ALL {
        assert_eq!(Lang::from_tag(lang.tag()), Some(lang));
    }
}

#[test]
fn tags_are_unique() {
    let mut tags: Vec<&str> = ALL.iter().map(|lang| lang.tag()).collect();
    tags.sort_unstable();
    tags.dedup();
    assert_eq!(tags.len(), ALL.len());
}

#[test]
fn primary_languages_are_a_subset_of_all() {
    for lang in PRIMARY {
        assert!(ALL.contains(&lang), "{lang:?}");
    }
}

#[test]
fn extended_locales_map() {
    assert_eq!(Lang::from_locale("uk-UA"), Lang::Uk);
    assert_eq!(Lang::from_locale("vi-VN"), Lang::Vi);
    assert_eq!(Lang::from_locale("fil-PH"), Lang::Fil);
    for norwegian in ["no", "nb-NO", "nn-NO"] {
        assert_eq!(Lang::from_locale(norwegian), Lang::No, "{norwegian}");
    }
    assert_eq!(Lang::from_locale("iw-IL"), Lang::He);
    assert_eq!(Lang::from_locale("tl-PH"), Lang::Fil);
}

#[test]
fn unknown_tag_reads_as_none() {
    assert_eq!(Lang::from_tag("xx"), None);
    assert_eq!(Lang::from_tag(""), None);
    assert_eq!(Lang::from_tag("en"), None);
}

#[test]
fn locale_maps_language_subtag() {
    assert_eq!(Lang::from_locale("en-US"), Lang::EnUs);
    assert_eq!(Lang::from_locale("en-GB"), Lang::EnUs);
    assert_eq!(Lang::from_locale("RU-ru"), Lang::RuRu);
    assert_eq!(Lang::from_locale("zh-Hans-CN"), Lang::ZhCn);
    assert_eq!(Lang::from_locale("ja"), Lang::JaJp);
}

#[test]
fn locale_splits_spanish_by_region() {
    assert_eq!(Lang::from_locale("es-ES"), Lang::EsEs);
    assert_eq!(Lang::from_locale("es"), Lang::EsEs);
    for latam in ["es-419", "es-MX", "es-AR", "es-US"] {
        assert_eq!(Lang::from_locale(latam), Lang::Es419, "{latam}");
    }
}

#[test]
fn locale_splits_portuguese_by_region() {
    assert_eq!(Lang::from_locale("pt-BR"), Lang::PtBr);
    assert_eq!(Lang::from_locale("pt-PT"), Lang::PtPt);
    assert_eq!(Lang::from_locale("pt"), Lang::PtPt);
}

#[test]
fn unix_locale_with_encoding_suffix() {
    assert_eq!(Lang::from_locale("de_DE.UTF-8"), Lang::DeDe);
    assert_eq!(Lang::from_locale("es_MX.UTF-8"), Lang::Es419);
    assert_eq!(Lang::from_locale("th_TH.UTF-8@calendar=buddhist"), Lang::Th);
}

#[test]
fn unknown_locale_falls_back_to_english() {
    assert_eq!(Lang::from_locale("tlh-KL"), Lang::EnUs);
    assert_eq!(Lang::from_locale(""), Lang::EnUs);
}

#[test]
fn legacy_indonesian_code_maps() {
    assert_eq!(Lang::from_locale("in-ID"), Lang::Id);
    assert_eq!(Lang::from_locale("id-ID"), Lang::Id);
}

#[test]
fn a_script_subtag_is_no_region() {
    // `Hant` is a script, four letters long; the region is `BR`.
    assert_eq!(Lang::from_locale("pt_Latn_BR"), Lang::PtBr);
    assert_eq!(Lang::from_locale("es-Latn-MX"), Lang::Es419);
}

#[test]
fn only_the_first_region_counts() {
    assert_eq!(Lang::from_locale("es-ES-MX"), Lang::EsEs);
    assert_eq!(Lang::from_locale("pt-PT-BR"), Lang::PtPt);
}

#[test]
fn the_system_locale_maps_like_any_other() {
    assert_eq!(Lang::from_system_locale(None), Lang::EnUs);
    assert_eq!(Lang::from_system_locale(Some("fr_CA.UTF-8")), Lang::FrFr);
    let system = Lang::system();
    assert!(ALL.contains(&system));
}

#[test]
fn menu_names_are_in_their_own_writing() {
    assert_eq!(Lang::DeDe.native_name(), "Deutsch");
    assert_eq!(Lang::Es419.native_name(), "Español (Latinoamérica)");
    assert_eq!(Lang::JaJp.native_name(), "日本語");
}

#[test]
fn every_language_has_its_own_table() {
    assert_eq!(Lang::EnUs.strings().scan, "Scan");
    assert_eq!(Lang::RuRu.strings().scan, "Сканировать");
    assert_eq!(Lang::DeDe.strings().disk_free, "frei von");
    for lang in ALL {
        assert!(!lang.strings().app_title.is_empty());
        assert!(lang.strings().app_title.starts_with("Filegram"));
    }
}

#[test]
fn locale_matching_ignores_ascii_case() {
    for locale in ["pt-br", "es_mx.utf-8", "zh-hans-cn", "de_de", "fil-ph"] {
        assert_eq!(
            Lang::from_locale(locale),
            Lang::from_locale(&locale.to_ascii_uppercase()),
            "{locale}"
        );
    }
}

#[test]
fn every_tag_read_as_a_locale_selects_its_language() {
    for lang in ALL {
        assert_eq!(Lang::from_locale(lang.tag()), lang, "{}", lang.tag());
    }
}
