//! The persisted settings records and the rule that turns them into the
//! view state of a freshly opened location.
//!
//! How the records are stored (a small document store, in practice) is the
//! embedding program's business; here they are plain data with exact
//! defaults, plus the decision logic applied on a path change.
use vstd::prelude::*;
use crate::i18n::Language;
use crate::input::{default_bindings, InputMap};
use crate::sort::SortType;

verus! {

pub fn default_false() -> (r: bool)
    ensures
        r == false,
{
    false
}

pub fn default_true() -> (r: bool)
    ensures
        r == true,
{
    true
}

/// The key under which the single global settings record is stored.
pub fn default_key() -> (r: String)
    ensures
        r@ == "global"@,
{
    "global".to_owned()
}

/// Per-directory view settings, keyed by the directory's path.
#[derive(Debug, Clone)]
pub struct DirectorySettings {
    pub path: String,
    pub spread_view: bool,
    pub right_to_left: bool,
    pub dir_sort: SortType,
    pub image_sort: SortType,
}

/// The global application settings.
#[derive(Debug, Clone)]
pub struct AppSettings {
    pub key: String,
    pub dark_mode: bool,
    pub default_spread_view: bool,
    pub default_right_to_left: bool,
    pub default_dir_sort: SortType,
    pub default_image_sort: SortType,
    pub loop_images: bool,
    pub single_first_page: bool,
    pub archives_on_top: bool,
    pub input_map: InputMap,
    pub language: Language,
}

impl Default for AppSettings {
    fn default() -> (r: Self)
        ensures
            r.key@ == "global"@,
            r.dark_mode == true,
            r.default_spread_view == false,
            r.default_right_to_left == true,
            r.default_dir_sort == SortType::NameAsc,
            r.default_image_sort == SortType::NameAsc,
            r.loop_images == false,
            r.single_first_page == false,
            r.archives_on_top == true,
            r.input_map.bindings@ == default_bindings(),
            r.language == Language::English,
    {
        AppSettings {
            key: default_key(),
            dark_mode: true,
            default_spread_view: false,
            default_right_to_left: true,
            default_dir_sort: SortType::NameAsc,
            default_image_sort: SortType::NameAsc,
            loop_images: false,
            single_first_page: false,
            archives_on_top: true,
            input_map: InputMap::default(),
            language: Language::English,
        }
    }
}

/// What was open when the viewer last closed.
#[derive(Debug, Clone)]
pub struct AppState {
    pub key: String,
    pub last_path: Option<String>,
}

impl Default for AppState {
    fn default() -> (r: Self)
        ensures
            r.key@ == "global"@,
            r.last_path is None,
    {
        AppState { key: default_key(), last_path: None }
    }
}

/// The view state applied after a path change.
#[derive(Debug, Clone, Copy, PartialEq, Eq, Structural)]
pub struct ViewState {
    pub spread_view: bool,
    pub right_to_left: bool,
    pub dir_sort: SortType,
    pub image_sort: SortType,
}

/// The rule for a freshly opened location: start from the global defaults;
/// a stored record for the location overrides the view flags and the image
/// sort, and the directory sort too unless the location is an archive; for
/// an archive, the directory sort comes from its parent directory's
/// record.
pub open spec fn effective_view_state_spec(
    settings: AppSettings,
    is_archive: bool,
    dir_settings: Option<DirectorySettings>,
    parent_settings: Option<DirectorySettings>,
) -> ViewState {
    let base = ViewState {
        spread_view: settings.default_spread_view,
        right_to_left: settings.default_right_to_left,
        dir_sort: settings.default_dir_sort,
        image_sort: settings.default_image_sort,
    };
    let with_own = match dir_settings {
        Some(ds) => ViewState {
            spread_view: ds.spread_view,
            right_to_left: ds.right_to_left,
            dir_sort: if is_archive {
                base.dir_sort
            } else {
                ds.dir_sort
            },
            image_sort: ds.image_sort,
        },
        None => base,
    };
    if is_archive {
        match parent_settings {
            Some(ps) => ViewState { dir_sort: ps.dir_sort, ..with_own },
            None => with_own,
        }
    } else {
        with_own
    }
}

pub fn effective_view_state(
    settings: &AppSettings,
    is_archive: bool,
    dir_settings: Option<&DirectorySettings>,
    parent_settings: Option<&DirectorySettings>,
) -> (r: ViewState)
    ensures
        r == effective_view_state_spec(
            *settings,
            is_archive,
            match dir_settings {
                Some(d) => Some(*d),
                None => None,
            },
            match parent_settings {
                Some(p) => Some(*p),
                None => None,
            },
    ),
{
    let mut spread_view = settings.default_spread_view;
    let mut right_to_left = settings.default_right_to_left;
    let mut dir_sort = settings.default_dir_sort;
    let mut image_sort = settings.default_image_sort;
    match dir_settings {
        Some(ds) => {
            spread_view = ds.spread_view;
            right_to_left = ds.right_to_left;
            image_sort = ds.image_sort;
            if !is_archive {
                dir_sort = ds.dir_sort;
            }
        },
        None => {},
    }
    if is_archive {
        match parent_settings {
            Some(ps) => {
                dir_sort = ps.dir_sort;
            },
            None => {},
        }
    }
    ViewState { spread_view, right_to_left, dir_sort, image_sort }
}

} // verus!
