use snap_launch::i18n::{strings, Language};

#[test]
fn default_language_is_korean() {
    assert_eq!(Language::default(), Language::Korean);
}

#[test]
fn tables_per_language() {
    let ko = strings(Language::Korean);
    let en = strings(Language::English);
    assert_eq!(ko.window_title, "🔧 자주사용하는 툴 관리");
    assert_eq!(en.window_title, "🔧 SnapLaunch — Favorite Tools");
    assert_eq!(ko.menu_top_label, "자주사용하는 툴");
    assert_eq!(en.menu_top_label, "Favorite Tools");
    assert_eq!(en.delete_confirm_template, "Really delete the tool \"{name}\"?");
    assert_eq!(ko.lang_english, "English");
    assert_eq!(en.lang_korean, "한국어");
    assert_eq!(ko.menu_uninstall, "Uninstall");
    assert_eq!(en.menu_manage, "Add / Manage Tools...");
}
