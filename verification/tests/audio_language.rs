use yakyak::domain::audio::manager::Language;

#[test]
fn test_language_from_code() {
    assert_eq!(Language::from_code("en"), Some(Language::En));
    assert_eq!(Language::from_code("EN"), Some(Language::En));
    assert_eq!(Language::from_code("english"), Some(Language::En));
    assert_eq!(Language::from_code("es"), Some(Language::Es));
    assert_eq!(Language::from_code("unknown"), None);
}

#[test]
fn test_language_code() {
    assert_eq!(Language::En.code(), "en");
    assert_eq!(Language::Es.code(), "es");
    assert_eq!(Language::Fr.code(), "fr");
}

#[test]
fn test_language_name() {
    assert_eq!(Language::En.name(), "English");
    assert_eq!(Language::Es.name(), "Spanish");
    assert_eq!(Language::Zh.name(), "Chinese");
}

#[test]
fn test_language_display() {
    assert_eq!(format!("{}", Language::En.to_string()), "English");
    assert_eq!(format!("{}", Language::Ja.to_string()), "Japanese");
}

#[test]
fn test_language_round_trip_all() {
    for l in [Language::En, Language::Es, Language::Fr, Language::De, Language::Zh, Language::Ja, Language::Ko, Language::Pt, Language::Ru, Language::Ar] {
        assert_eq!(Language::from_code(l.code()), Some(l));
        assert_eq!(Language::from_code(&l.name().to_uppercase()), Some(l));
    }
    assert_eq!(Language::default(), Language::En);
}

#[test]
fn language_names_read_back_in_any_case() {
    for l in [
        Language::En,
        Language::Es,
        Language::Fr,
        Language::De,
        Language::Zh,
        Language::Ja,
        Language::Ko,
        Language::Pt,
        Language::Ru,
        Language::Ar,
    ] {
        assert_eq!(Language::from_code(l.name()), Some(l));
        assert_eq!(Language::from_code(&l.name().to_uppercase()), Some(l));
        assert_eq!(l.to_string(), l.name());
    }
    assert_eq!(Language::from_code("EN"), Some(Language::En));
}
