use civiewer::input::{
    matches_mouse_input, Action, InputMap, InputSpec, MouseInputType, ScrollDirection, KEY_LEFT,
    KEY_RIGHT, KEY_UP, MOD_CONTROL, MOD_SHIFT,
};

#[test]
fn default_bindings_answer_the_arrow_keys() {
    let map = InputMap::default();
    assert_eq!(map.get_action_for_key(KEY_LEFT, 0), Some(Action::PrevPage));
    assert_eq!(map.get_action_for_key(KEY_RIGHT, 0), Some(Action::NextPage));
    assert_eq!(map.get_action_for_key(KEY_UP, 0), Some(Action::PrevDir));
    assert_eq!(map.get_action_for_key(KEY_LEFT, MOD_SHIFT), Some(Action::PrevPageSingle));
    assert_eq!(map.get_action_for_key(KEY_LEFT, MOD_CONTROL), None);
}

#[test]
fn irrelevant_modifier_bits_are_masked_away() {
    let map = InputMap::default();
    // bit 16 (a lock modifier) is outside the relevant mask
    assert_eq!(map.get_action_for_key(KEY_LEFT, 16), Some(Action::PrevPage));
    assert_eq!(map.get_action_for_key(KEY_LEFT, MOD_SHIFT | 16), Some(Action::PrevPageSingle));
}

#[test]
fn default_bindings_answer_mouse_and_scroll() {
    let map = InputMap::default();
    assert_eq!(map.get_action_for_mouse(1, 0, true), Some(Action::ToggleFullscreen));
    assert_eq!(map.get_action_for_mouse(1, 0, false), None);
    assert_eq!(map.get_action_for_scroll(ScrollDirection::Up, 0), Some(Action::PrevPage));
    assert_eq!(map.get_action_for_scroll(ScrollDirection::Down, 0), Some(Action::NextPage));
    assert_eq!(map.get_action_for_scroll(ScrollDirection::Left, 0), None);
}

#[test]
fn first_matching_binding_wins() {
    let map = InputMap {
        bindings: vec![
            (Action::ZoomIn, InputSpec::Keyboard { keyval: 55, modifiers: 0 }),
            (Action::ZoomOut, InputSpec::Keyboard { keyval: 55, modifiers: 0 }),
        ],
    };
    assert_eq!(map.get_action_for_key(55, 0), Some(Action::ZoomIn));
}

#[test]
fn spec_matchers_compare_shape_and_fields() {
    let kb = InputSpec::Keyboard { keyval: 100, modifiers: MOD_SHIFT };
    assert!(kb.matches_key(100, MOD_SHIFT));
    assert!(kb.matches_key(100, MOD_SHIFT | 16));
    assert!(!kb.matches_key(100, 0));
    assert!(!kb.matches_mouse(100, MOD_SHIFT, false));
    let ms = InputSpec::Mouse { button: 3, modifiers: 0, double_click: false };
    assert!(ms.matches_mouse(3, 0, false));
    assert!(!ms.matches_mouse(3, 0, true));
    let sc = InputSpec::Scroll { direction: ScrollDirection::Down, modifiers: 0 };
    assert!(sc.matches_scroll(ScrollDirection::Down, 0));
    assert!(!sc.matches_scroll(ScrollDirection::Up, 0));
}

#[test]
fn mouse_input_types_map_to_their_bindings() {
    assert!(matches_mouse_input(
        &InputSpec::Mouse { button: 3, modifiers: 0, double_click: false },
        MouseInputType::RightClick,
    ));
    assert!(!matches_mouse_input(
        &InputSpec::Mouse { button: 2, modifiers: 0, double_click: false },
        MouseInputType::RightClick,
    ));
    assert_eq!(
        MouseInputType::LeftDouble.to_input_spec(),
        InputSpec::Mouse { button: 1, modifiers: 0, double_click: true },
    );
    assert_eq!(MouseInputType::ScrollUp.label(), "Scroll Up");
    let map = InputMap::default();
    assert_eq!(map.get_action_for_mouse_type(MouseInputType::LeftDouble),
        Some(Action::ToggleFullscreen));
    assert_eq!(map.get_action_for_mouse_type(MouseInputType::RightClick), None);
}

#[test]
fn action_lists_and_descriptions() {
    let all = Action::variants();
    assert_eq!(all.len(), 12);
    assert_eq!(all[0], Action::PrevDir);
    assert_eq!(Action::NextPage.description(), "Next Image");
    assert_eq!(Action::PrevPageSingle.description(), "Previous Image (Single Step)");
}
