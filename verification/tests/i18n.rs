use screen_tune::config::Language;
use screen_tune::ui::i18n::{dictionary, Tr};

#[test]
fn dictionaries_are_parallel() {
    let zh = dictionary(Language::Zh);
    let en = dictionary(Language::En);
    let zh_keys: Vec<_> = zh.iter().map(|(k, _)| *k).collect();
    let en_keys: Vec<_> = en.iter().map(|(k, _)| *k).collect();
    assert_eq!(zh_keys, en_keys, "中英文典 key 不一致");
}

#[test]
fn unknown_key_passthrough() {
    let tr = Tr::new(Language::Zh);
    assert_eq!(tr.t("no.such.key"), "no.such.key");
}

#[test]
fn known_keys_translate() {
    let zh = Tr::new(Language::Zh);
    let en = Tr::new(Language::En);
    assert_eq!(zh.lang(), Language::Zh);
    assert_eq!(zh.t("nav.display"), "显示调节");
    assert_eq!(en.t("nav.display"), "Display");
    assert_eq!(en.t("toast.saved"), "Saved");
    assert_eq!(zh.t("app.title"), "ScreenTune");
}

#[test]
fn every_key_translated_in_both_languages() {
    let zh = Tr::new(Language::Zh);
    let en = Tr::new(Language::En);
    for (k, _) in dictionary(Language::Zh) {
        assert_ne!(zh.t(k), k);
        assert_ne!(en.t(k), k);
    }
    assert_eq!(zh.t("missing.key"), "missing.key");
    assert_eq!(en.t("missing.key"), "missing.key");
}
