use bettershot::i18n::{english, Catalog, Language, MISSING};

const KEYS_IN_USE: &[&str] = &[
    "tool.pointer",
    "tool.crop",
    "tool.line",
    "tool.arrow",
    "tool.rectangle",
    "tool.ellipse",
    "tool.text",
    "tool.marker",
    "tool.brush",
    "tool.highlight",
    "tool.blur",
    "action.undo",
    "action.redo",
    "action.copy",
    "action.save",
    "action.settings",
    "action.recent",
    "action.apply_crop",
    "action.fit",
    "action.actual_size",
    "action.fill",
    "status.copied",
    "status.undo",
    "status.redo",
    "status.cleared",
    "status.deleted",
    "status.nothing_selected",
    "status.nothing_saved",
    "status.nothing_to_crop",
    "overlay.hint",
    "settings.title",
    "settings.appearance",
    "settings.drawing",
    "settings.behaviour",
    "settings.capture",
    "settings.privacy",
    "settings.theme",
    "settings.save_to_file",
];

#[test]
fn every_key_exists_in_english() {
    let catalog = Catalog::new(Language::English, None);
    for key in KEYS_IN_USE {
        let value = catalog.get(key);
        assert_ne!(value, MISSING, "`{key}` has no English string");
        assert!(!value.is_empty(), "`{key}` is empty");
    }
}

#[test]
fn the_english_table_has_no_duplicate_keys() {
    let mut keys: Vec<&str> = english().iter().map(|(k, _)| *k).collect();
    keys.sort_unstable();
    let before = keys.len();
    keys.dedup();
    assert_eq!(before, keys.len(), "the English table has duplicate keys");
}

#[test]
fn a_translation_covers_known_keys_only() {
    let known: Vec<&str> = english().iter().map(|(k, _)| *k).collect();
    for key in &known {
        assert!(
            KEYS_IN_USE.contains(key),
            "`{key}` is in the catalogue but nothing uses it"
        );
    }
}

#[test]
fn an_unknown_key_is_visible_rather_than_blank() {
    let catalog = Catalog::new(Language::default(), None);
    assert_eq!(catalog.get("nonexistent.key"), MISSING);
}

#[test]
fn language_codes_round_trip() {
    for language in Language::all() {
        assert_eq!(language.code().parse::<Language>().unwrap(), language);
    }
    assert!("klingon".parse::<Language>().is_err());
}

#[test]
fn system_resolves_to_a_concrete_language() {
    for locale in [None, Some("en_GB.UTF-8"), Some("xx_YY"), Some("")] {
        assert_ne!(Language::System.resolve(locale), Language::System);
    }
    assert_eq!(Language::English.resolve(Some("xx_YY")), Language::English);
}

#[test]
fn an_explicit_language_is_not_overridden_by_the_environment() {
    let catalog = Catalog::new(Language::English, None);
    assert_eq!(catalog.language(), Language::English);
}

#[test]
fn a_locale_names_its_language_first() {
    assert_eq!(Language::from_environment(Some("en_GB.UTF-8")), Some(Language::English));
    assert_eq!(Language::from_environment(None), None);
    match Language::from_code("klingon") {
        Err(e) => assert!(e.message().contains("klingon"), "{}", e.message()),
        Ok(language) => panic!("unexpected: {language:?}"),
    }
}

#[test]
fn the_default_catalogue_follows_the_system() {
    assert_eq!(Catalog::default(), Catalog::new(Language::System, None));
    assert_eq!(Catalog::default().get("action.undo"), "Undo");
    assert_eq!(Language::System.resolve(Some("de_DE.UTF-8")), Language::English);
    assert_eq!(Language::from_environment(Some("de_DE.UTF-8")), None);
}
