use filegram::i18n::Lang;
use filegram::settings::{parse_settings, settings_to_text, Settings, ThemeMode};

#[test]
fn settings_save_load_roundtrip() {
    let cases = [
        Settings {
            theme: Some(ThemeMode::Dark),
            lang: None,
        },
        Settings {
            theme: None,
            lang: Some(Lang::RuRu),
        },
        Settings {
            theme: Some(ThemeMode::Light),
            lang: Some(Lang::Es419),
        },
        Settings::default(),
    ];
    for settings in cases {
        let text = settings_to_text(settings);
        assert_eq!(parse_settings(&text), settings);
    }
}

#[test]
fn load_missing_file_follows_system() {
    assert_eq!(parse_settings(""), Settings::default());
}

#[test]
fn load_legacy_one_word_file_reads_as_theme() {
    assert_eq!(
        parse_settings("dark"),
        Settings {
            theme: Some(ThemeMode::Dark),
            lang: None,
        }
    );
}

#[test]
fn load_unrecognized_content_follows_system() {
    assert_eq!(
        parse_settings("solarized\nlang=tlh\ncolor=red\n"),
        Settings::default()
    );
}

#[test]
fn the_saved_text_is_key_value_lines() {
    let text = settings_to_text(Settings {
        theme: Some(ThemeMode::Light),
        lang: Some(Lang::PtBr),
    });
    assert_eq!(text, "theme=light\nlang=pt-BR\n");
    assert_eq!(settings_to_text(Settings::default()), "");
}

#[test]
fn the_neutral_tone_is_saved_as_light() {
    let text = settings_to_text(Settings {
        theme: Some(ThemeMode::Neutral),
        lang: None,
    });
    assert_eq!(text, "theme=light\n");
    assert_eq!(parse_settings(&text).theme, Some(ThemeMode::Light));
}

#[test]
fn an_unknown_language_keeps_the_one_read_before() {
    assert_eq!(
        parse_settings("lang=de-DE\nlang=xx\n").lang,
        Some(Lang::DeDe)
    );
}

#[test]
fn keys_and_values_are_trimmed_and_crlf_reads_fine() {
    assert_eq!(
        parse_settings(" theme = dark \r\nlang= fr-FR\r\n"),
        Settings {
            theme: Some(ThemeMode::Dark),
            lang: Some(Lang::FrFr),
        }
    );
}
