//! The two display languages and the localisation table.
use vstd::prelude::*;

verus! {

/// The display languages the viewer offers.
#[derive(Debug, Clone, Copy, PartialEq, Eq, Structural)]
pub enum Language {
    English,
    Japanese,
}

impl Default for Language {
    fn default() -> (r: Self)
        ensures
            r == Language::English,
    {
        Language::English
    }
}

pub open spec fn label_spec(l: Language) -> Seq<char> {
    match l {
        Language::English => "English"@,
        Language::Japanese => "日本語"@,
    }
}

impl Language {
    /// Every language, in display order.
    pub fn variants() -> (r: Vec<Language>)
        ensures
            r@ == seq![Language::English, Language::Japanese],
    {
        let r = vec![Language::English, Language::Japanese];
        proof {
            assert(r@ =~= seq![Language::English, Language::Japanese]);
        }
        r
    }

    /// The language's own name for itself.
    pub fn label(&self) -> (r: &'static str)
        ensures
            r@ == label_spec(*self),
    {
        match self {
            Language::English => "English",
            Language::Japanese => "日本語",
        }
    }
}

/// Content-wise string equality, through owned copies (`vstd` specifies
/// `String` equality but not `str` equality).
fn str_eq(a: &str, b: &str) -> (r: bool)
    ensures
        r == (a@ == b@),
{
    a.to_owned() == b.to_owned()
}

/// The Japanese translation of an interface string; a string with no entry
/// in the table is shown as it is.
pub open spec fn ja_of(key: Seq<char>) -> Seq<char> {
    if key == "Settings"@ {
        "設定"@
    } else if key == "Language"@ {
        "言語"@
    } else if key == "File"@ {
        "ファイル"@
    } else if key == "Open File"@ {
        "ファイルを開く"@
    } else if key == "Open Directory"@ {
        "ディレクトリを開く"@
    } else if key == "Quit"@ {
        "終了"@
    } else if key == "About"@ {
        "バージョン情報"@
    } else if key == "Preferences"@ {
        "設定"@
    } else if key == "Directory Defaults (Applied to new directories)"@ {
        "ディレクトリのデフォルト設定 (新規ディレクトリに適用)"@
    } else if key == "Default Spread View"@ {
        "見開き表示をデフォルトにする"@
    } else if key == "Default Right to Left"@ {
        "右開きをデフォルトにする"@
    } else if key == "Default Dir Sort:"@ {
        "デフォルトのディレクトリ並び順:"@
    } else if key == "Default Image Sort:"@ {
        "デフォルトの画像並び順:"@
    } else if key == "Application Settings"@ {
        "アプリケーション設定"@
    } else if key == "Dark Mode (Requires Restart)"@ {
        "ダークモード (再起動が必要)"@
    } else if key == "Loop Images (at end of list)"@ {
        "画像をループする (リストの最後で)"@
    } else if key == "Single Page for First Image (Spread View)"@ {
        "最初の画像を単ページ表示 (見開き表示時)"@
    } else if key == "Input Configuration"@ {
        "入力設定"@
    } else if key == "Reset to Defaults"@ {
        "デフォルトに戻す"@
    } else if key == "Keyboard Shortcuts"@ {
        "キーボードショートカット"@
    } else if key == "Mouse Configuration"@ {
        "マウス設定"@
    } else if key == "Cancel"@ {
        "キャンセル"@
    } else if key == "Save"@ {
        "保存"@
    } else if key == "Press a key (Esc to cancel)"@ {
        "キーを押してください (Escでキャンセル)"@
    } else if key == "Name Asc"@ {
        "名前 (昇順)"@
    } else if key == "Name Desc"@ {
        "名前 (降順)"@
    } else if key == "Date Asc"@ {
        "日付 (昇順)"@
    } else if key == "Date Desc"@ {
        "日付 (降順)"@
    } else if key == "Size Asc"@ {
        "サイズ (昇順)"@
    } else if key == "Size Desc"@ {
        "サイズ (降順)"@
    } else if key == "Right Click"@ {
        "右クリック"@
    } else if key == "Middle Click"@ {
        "中クリック"@
    } else if key == "Scroll Up"@ {
        "スクロール上"@
    } else if key == "Scroll Down"@ {
        "スクロール下"@
    } else if key == "Left Double Click"@ {
        "左ダブルクリック"@
    } else if key == "Previous Directory / Archive"@ {
        "前のディレクトリ/アーカイブ"@
    } else if key == "Next Directory / Archive"@ {
        "次のディレクトリ/アーカイブ"@
    } else if key == "Previous Image"@ {
        "前の画像"@
    } else if key == "Next Image"@ {
        "次の画像"@
    } else if key == "Toggle Fullscreen"@ {
        "フルスクリーン切り替え"@
    } else if key == "Zoom In"@ {
        "ズームイン"@
    } else if key == "Zoom Out"@ {
        "ズームアウト"@
    } else if key == "Reset Zoom"@ {
        "ズームリセット"@
    } else if key == "Toggle Spread View"@ {
        "見開き表示切り替え"@
    } else if key == "Toggle Right-to-Left"@ {
        "右開き切り替え"@
    } else if key == "Previous Image (Single Step)"@ {
        "前の画像 (1ページ)"@
    } else if key == "Next Image (Single Step)"@ {
        "次の画像 (1ページ)"@
    } else if key == "None"@ {
        "なし"@
    } else {
        key
    }
}

pub fn localize_ja(key: &str) -> (r: String)
    ensures
        r@ == ja_of(key@),
{
    if str_eq(key, "Settings") {
        "設定".to_owned()
    } else if str_eq(key, "Language") {
        "言語".to_owned()
    } else if str_eq(key, "File") {
        "ファイル".to_owned()
    } else if str_eq(key, "Open File") {
        "ファイルを開く".to_owned()
    } else if str_eq(key, "Open Directory") {
        "ディレクトリを開く".to_owned()
    } else if str_eq(key, "Quit") {
        "終了".to_owned()
    } else if str_eq(key, "About") {
        "バージョン情報".to_owned()
    } else if str_eq(key, "Preferences") {
        "設定".to_owned()
    } else if str_eq(key, "Directory Defaults (Applied to new directories)") {
        "ディレクトリのデフォルト設定 (新規ディレクトリに適用)".to_owned()
    } else if str_eq(key, "Default Spread View") {
        "見開き表示をデフォルトにする".to_owned()
    } else if str_eq(key, "Default Right to Left") {
        "右開きをデフォルトにする".to_owned()
    } else if str_eq(key, "Default Dir Sort:") {
        "デフォルトのディレクトリ並び順:".to_owned()
    } else if str_eq(key, "Default Image Sort:") {
        "デフォルトの画像並び順:".to_owned()
    } else if str_eq(key, "Application Settings") {
        "アプリケーション設定".to_owned()
    } else if str_eq(key, "Dark Mode (Requires Restart)") {
        "ダークモード (再起動が必要)".to_owned()
    } else if str_eq(key, "Loop Images (at end of list)") {
        "画像をループする (リストの最後で)".to_owned()
    } else if str_eq(key, "Single Page for First Image (Spread View)") {
        "最初の画像を単ページ表示 (見開き表示時)".to_owned()
    } else if str_eq(key, "Input Configuration") {
        "入力設定".to_owned()
    } else if str_eq(key, "Reset to Defaults") {
        "デフォルトに戻す".to_owned()
    } else if str_eq(key, "Keyboard Shortcuts") {
        "キーボードショートカット".to_owned()
    } else if str_eq(key, "Mouse Configuration") {
        "マウス設定".to_owned()
    } else if str_eq(key, "Cancel") {
        "キャンセル".to_owned()
    } else if str_eq(key, "Save") {
        "保存".to_owned()
    } else if str_eq(key, "Press a key (Esc to cancel)") {
        "キーを押してください (Escでキャンセル)".to_owned()
    } else if str_eq(key, "Name Asc") {
        "名前 (昇順)".to_owned()
    } else if str_eq(key, "Name Desc") {
        "名前 (降順)".to_owned()
    } else if str_eq(key, "Date Asc") {
        "日付 (昇順)".to_owned()
    } else if str_eq(key, "Date Desc") {
        "日付 (降順)".to_owned()
    } else if str_eq(key, "Size Asc") {
        "サイズ (昇順)".to_owned()
    } else if str_eq(key, "Size Desc") {
        "サイズ (降順)".to_owned()
    } else if str_eq(key, "Right Click") {
        "右クリック".to_owned()
    } else if str_eq(key, "Middle Click") {
        "中クリック".to_owned()
    } else if str_eq(key, "Scroll Up") {
        "スクロール上".to_owned()
    } else if str_eq(key, "Scroll Down") {
        "スクロール下".to_owned()
    } else if str_eq(key, "Left Double Click") {
        "左ダブルクリック".to_owned()
    } else if str_eq(key, "Previous Directory / Archive") {
        "前のディレクトリ/アーカイブ".to_owned()
    } else if str_eq(key, "Next Directory / Archive") {
        "次のディレクトリ/アーカイブ".to_owned()
    } else if str_eq(key, "Previous Image") {
        "前の画像".to_owned()
    } else if str_eq(key, "Next Image") {
        "次の画像".to_owned()
    } else if str_eq(key, "Toggle Fullscreen") {
        "フルスクリーン切り替え".to_owned()
    } else if str_eq(key, "Zoom In") {
        "ズームイン".to_owned()
    } else if str_eq(key, "Zoom Out") {
        "ズームアウト".to_owned()
    } else if str_eq(key, "Reset Zoom") {
        "ズームリセット".to_owned()
    } else if str_eq(key, "Toggle Spread View") {
        "見開き表示切り替え".to_owned()
    } else if str_eq(key, "Toggle Right-to-Left") {
        "右開き切り替え".to_owned()
    } else if str_eq(key, "Previous Image (Single Step)") {
        "前の画像 (1ページ)".to_owned()
    } else if str_eq(key, "Next Image (Single Step)") {
        "次の画像 (1ページ)".to_owned()
    } else if str_eq(key, "None") {
        "なし".to_owned()
    } else {
        key.to_owned()
    }
}

/// An interface string in the given language. English shows the key
/// itself; Japanese goes through the table.
pub open spec fn localize_spec(key: Seq<char>, lang: Language) -> Seq<char> {
    match lang {
        Language::English => key,
        Language::Japanese => ja_of(key),
    }
}

pub fn localize(key: &str, lang: Language) -> (r: String)
    ensures
        r@ == localize_spec(key@, lang),
{
    match lang {
        Language::English => key.to_owned(),
        Language::Japanese => localize_ja(key),
    }
}

/// The display form of an enum label, localised the same way.
pub fn localize_enum(key: &str, lang: Language) -> (r: String)
    ensures
        r@ == localize_spec(key@, lang),
{
    match lang {
        Language::English => key.to_owned(),
        Language::Japanese => localize_ja(key),
    }
}

} // verus!
