use civiewer::i18n::{localize, localize_enum, localize_ja, Language};
use civiewer::settings::{
    default_false, default_key, default_true, effective_view_state, AppSettings, AppState,
    DirectorySettings,
};
use civiewer::sort::SortType;

#[test]
fn serde_style_defaults() {
    assert_eq!(default_false(), false);
    assert_eq!(default_true(), true);
    assert_eq!(default_key(), "global");
}

#[test]
fn app_settings_defaults() {
    let s = AppSettings::default();
    assert_eq!(s.key, "global");
    assert!(s.dark_mode);
    assert!(!s.default_spread_view);
    assert!(s.default_right_to_left);
    assert_eq!(s.default_dir_sort, SortType::NameAsc);
    assert_eq!(s.default_image_sort, SortType::NameAsc);
    assert!(!s.loop_images);
    assert!(!s.single_first_page);
    assert!(s.archives_on_top);
    assert_eq!(s.language, Language::English);
    assert_eq!(s.input_map.bindings.len(), 15);
    let st = AppState::default();
    assert_eq!(st.key, "global");
    assert!(st.last_path.is_none());
}

fn record(path: &str, dir_sort: SortType, image_sort: SortType) -> DirectorySettings {
    DirectorySettings {
        path: path.to_string(),
        spread_view: true,
        right_to_left: false,
        dir_sort,
        image_sort,
    }
}

#[test]
fn path_change_prefers_the_stored_record() {
    let s = AppSettings::default();
    let ds = record("/d", SortType::SizeAsc, SortType::DateDesc);
    let v = effective_view_state(&s, false, Some(&ds), None);
    assert!(v.spread_view);
    assert!(!v.right_to_left);
    assert_eq!(v.dir_sort, SortType::SizeAsc);
    assert_eq!(v.image_sort, SortType::DateDesc);
}

#[test]
fn path_change_without_a_record_uses_defaults() {
    let s = AppSettings::default();
    let v = effective_view_state(&s, false, None, None);
    assert_eq!(v.spread_view, s.default_spread_view);
    assert_eq!(v.right_to_left, s.default_right_to_left);
    assert_eq!(v.dir_sort, SortType::NameAsc);
    assert_eq!(v.image_sort, SortType::NameAsc);
}

#[test]
fn archives_take_the_directory_sort_from_the_parent() {
    let s = AppSettings::default();
    let own = record("/d/a.zip", SortType::SizeAsc, SortType::DateDesc);
    let parent = record("/d", SortType::DateAsc, SortType::NameAsc);
    let v = effective_view_state(&s, true, Some(&own), Some(&parent));
    // the archive's own record drives the view flags and the image sort,
    // the parent's record drives the directory sort
    assert!(v.spread_view);
    assert_eq!(v.image_sort, SortType::DateDesc);
    assert_eq!(v.dir_sort, SortType::DateAsc);
    // with no parent record the default stays
    let v = effective_view_state(&s, true, Some(&own), None);
    assert_eq!(v.dir_sort, SortType::NameAsc);
}

#[test]
fn japanese_table_translates_known_keys() {
    assert_eq!(localize_ja("Settings"), "設定");
    assert_eq!(localize_ja("Name Asc"), "名前 (昇順)");
    assert_eq!(localize_ja("Next Image"), "次の画像");
    assert_eq!(localize_ja("unmapped text"), "unmapped text");
}

#[test]
fn localize_honours_the_language() {
    assert_eq!(localize("Settings", Language::English), "Settings");
    assert_eq!(localize("Settings", Language::Japanese), "設定");
    assert_eq!(localize_enum("Size Desc", Language::Japanese), "サイズ (降順)");
    assert_eq!(localize_enum("Size Desc", Language::English), "Size Desc");
}

#[test]
fn language_labels_and_variants() {
    assert_eq!(Language::English.label(), "English");
    assert_eq!(Language::Japanese.label(), "日本語");
    assert_eq!(Language::variants(), [Language::English, Language::Japanese]);
    assert_eq!(Language::default(), Language::English);
}
