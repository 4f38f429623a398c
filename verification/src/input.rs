//! Input bindings: which key, mouse or scroll gesture triggers which
//! action.
//!
//! Key values and modifier bits are the X11/GDK key symbols and modifier
//! masks, held as plain numbers; the embedding program translates its
//! toolkit's events into them (lowercasing key values on both sides before
//! they get here).
use vstd::prelude::*;

verus! {

/// Everything the viewer can be told to do.
#[derive(Debug, Clone, Copy, PartialEq, Eq, Structural, Hash)]
pub enum Action {
    PrevDir,
    NextDir,
    PrevPage,
    NextPage,
    ToggleFullscreen,
    ZoomIn,
    ZoomOut,
    ResetZoom,
    ToggleSpread,
    ToggleRTL,
    PrevPageSingle,
    NextPageSingle,
}

pub open spec fn description_spec(a: Action) -> Seq<char> {
    match a {
        Action::PrevDir => "Previous Directory / Archive"@,
        Action::NextDir => "Next Directory / Archive"@,
        Action::PrevPage => "Previous Image"@,
        Action::NextPage => "Next Image"@,
        Action::ToggleFullscreen => "Toggle Fullscreen"@,
        Action::ZoomIn => "Zoom In"@,
        Action::ZoomOut => "Zoom Out"@,
        Action::ResetZoom => "Reset Zoom"@,
        Action::ToggleSpread => "Toggle Spread View"@,
        Action::ToggleRTL => "Toggle Right-to-Left"@,
        Action::PrevPageSingle => "Previous Image (Single Step)"@,
        Action::NextPageSingle => "Next Image (Single Step)"@,
    }
}

impl Action {
    /// The English description shown in the input-configuration list.
    pub fn description(&self) -> (r: &'static str)
        ensures
            r@ == description_spec(*self),
    {
        match self {
            Action::PrevDir => "Previous Directory / Archive",
            Action::NextDir => "Next Directory / Archive",
            Action::PrevPage => "Previous Image",
            Action::NextPage => "Next Image",
            Action::ToggleFullscreen => "Toggle Fullscreen",
            Action::ZoomIn => "Zoom In",
            Action::ZoomOut => "Zoom Out",
            Action::ResetZoom => "Reset Zoom",
            Action::ToggleSpread => "Toggle Spread View",
            Action::ToggleRTL => "Toggle Right-to-Left",
            Action::PrevPageSingle => "Previous Image (Single Step)",
            Action::NextPageSingle => "Next Image (Single Step)",
        }
    }

    /// Every action, in display order.
    pub fn variants() -> (r: Vec<Action>)
        ensures
            r@ == seq![
                Action::PrevDir,
                Action::NextDir,
                Action::PrevPage,
                Action::NextPage,
                Action::ToggleFullscreen,
                Action::ZoomIn,
                Action::ZoomOut,
                Action::ResetZoom,
                Action::ToggleSpread,
                Action::ToggleRTL,
                Action::PrevPageSingle,
                Action::NextPageSingle,
            ],
    {
        let r = vec![
            Action::PrevDir,
            Action::NextDir,
            Action::PrevPage,
            Action::NextPage,
            Action::ToggleFullscreen,
            Action::ZoomIn,
            Action::ZoomOut,
            Action::ResetZoom,
            Action::ToggleSpread,
            Action::ToggleRTL,
            Action::PrevPageSingle,
            Action::NextPageSingle,
        ];
        proof {
            assert(r@ =~= seq![
                Action::PrevDir,
                Action::NextDir,
                Action::PrevPage,
                Action::NextPage,
                Action::ToggleFullscreen,
                Action::ZoomIn,
                Action::ZoomOut,
                Action::ResetZoom,
                Action::ToggleSpread,
                Action::ToggleRTL,
                Action::PrevPageSingle,
                Action::NextPageSingle,
            ]);
        }
        r
    }
}

/// Which way a scroll gesture went.
#[derive(Debug, Clone, Copy, PartialEq, Eq, Structural)]
pub enum ScrollDirection {
    Up,
    Down,
    Left,
    Right,
}

/// One configured gesture: a key chord, a mouse button (possibly double),
/// or a scroll with modifiers.
#[derive(Debug, Clone, Copy, PartialEq, Eq, Structural)]
pub enum InputSpec {
    Keyboard { keyval: u32, modifiers: u32 },
    Mouse { button: u32, modifiers: u32, double_click: bool },
    Scroll { direction: ScrollDirection, modifiers: u32 },
}

/// The modifier bits a binding compares (shift, control, alt, super);
/// everything else, such as lock keys, is masked away.
pub const MOD_SHIFT: u32 = 1;

pub const MOD_CONTROL: u32 = 4;

pub const MOD_ALT: u32 = 8;

pub const MOD_SUPER: u32 = 67108864;

pub const RELEVANT_MODS: u32 = 1 | 4 | 8 | 67108864;

/// One incoming gesture, as the embedding program saw it.
#[derive(Debug, Clone, Copy, PartialEq, Eq, Structural)]
pub enum InputEvent {
    Key { keyval: u32, modifiers: u32 },
    Mouse { button: u32, modifiers: u32, double_click: bool },
    Scroll { direction: ScrollDirection, modifiers: u32 },
}

/// Whether a configured gesture matches an incoming one: same shape, same
/// values, and the same relevant modifier bits.
pub open spec fn matches_event_spec(s: InputSpec, e: InputEvent) -> bool {
    match (s, e) {
        (
            InputSpec::Keyboard { keyval, modifiers },
            InputEvent::Key { keyval: k, modifiers: m },
        ) => keyval == k && modifiers == (m & RELEVANT_MODS),
        (
            InputSpec::Mouse { button, modifiers, double_click },
            InputEvent::Mouse { button: b, modifiers: m, double_click: d },
        ) => button == b && modifiers == (m & RELEVANT_MODS) && double_click == d,
        (
            InputSpec::Scroll { direction, modifiers },
            InputEvent::Scroll { direction: dir, modifiers: m },
        ) => direction == dir && modifiers == (m & RELEVANT_MODS),
        _ => false,
    }
}

impl InputSpec {
    fn matches_event(&self, e: &InputEvent) -> (r: bool)
        ensures
            r == matches_event_spec(*self, *e),
    {
        match (self, e) {
            (
                InputSpec::Keyboard { keyval, modifiers },
                InputEvent::Key { keyval: k, modifiers: m },
            ) => *keyval == *k && *modifiers == (*m & RELEVANT_MODS),
            (
                InputSpec::Mouse { button, modifiers, double_click },
                InputEvent::Mouse { button: b, modifiers: m, double_click: d },
            ) => *button == *b && *modifiers == (*m & RELEVANT_MODS) && *double_click == *d,
            (
                InputSpec::Scroll { direction, modifiers },
                InputEvent::Scroll { direction: dir, modifiers: m },
            ) => *direction == *dir && *modifiers == (*m & RELEVANT_MODS),
            _ => false,
        }
    }

    /// A key binding against a pressed key (already lowercased by the
    /// embedding program, as the stored key values are).
    pub fn matches_key(&self, keyval: u32, modifiers: u32) -> (r: bool)
        ensures
            r == matches_event_spec(*self, InputEvent::Key { keyval, modifiers }),
    {
        self.matches_event(&InputEvent::Key { keyval, modifiers })
    }

    /// A mouse binding against a click.
    pub fn matches_mouse(&self, button: u32, modifiers: u32, double_click: bool) -> (r: bool)
        ensures
            r == matches_event_spec(
                *self,
                InputEvent::Mouse { button, modifiers, double_click },
            ),
    {
        self.matches_event(&InputEvent::Mouse { button, modifiers, double_click })
    }

    /// A scroll binding against a scroll.
    pub fn matches_scroll(&self, direction: ScrollDirection, modifiers: u32) -> (r: bool)
        ensures
            r == matches_event_spec(*self, InputEvent::Scroll { direction, modifiers }),
    {
        self.matches_event(&InputEvent::Scroll { direction, modifiers })
    }
}

/// The action of the first binding that matches the event, if any.
pub open spec fn find_action_spec(
    bs: Seq<(Action, InputSpec)>,
    e: InputEvent,
) -> Option<Action>
    decreases bs.len(),
{
    if bs.len() == 0 {
        None
    } else if matches_event_spec(bs[0].1, e) {
        Some(bs[0].0)
    } else {
        find_action_spec(bs.drop_first(), e)
    }
}

proof fn lemma_find_action_extend(bs: Seq<(Action, InputSpec)>, e: InputEvent, i: int)
    requires
        0 <= i <= bs.len(),
        forall|j: int| 0 <= j < i ==> !matches_event_spec((#[trigger] bs[j]).1, e),
    ensures
        find_action_spec(bs, e) == find_action_spec(bs.subrange(i, bs.len() as int), e),
    decreases i,
{
    if i > 0 {
        lemma_find_action_extend(bs, e, i - 1);
        let t = bs.subrange(i - 1, bs.len() as int);
        assert(t[0] == bs[i - 1]);
        assert(!matches_event_spec(bs[i - 1].1, e));
        assert(t.drop_first() =~= bs.subrange(i, bs.len() as int));
    } else {
        assert(bs.subrange(0, bs.len() as int) =~= bs);
    }
}

// X11/GDK key symbol values of the keys the default bindings use.
pub const KEY_UP: u32 = 65362;

pub const KEY_DOWN: u32 = 65364;

pub const KEY_LEFT: u32 = 65361;

pub const KEY_RIGHT: u32 = 65363;

pub const KEY_RETURN: u32 = 65293;

pub const KEY_PLUS: u32 = 43;

pub const KEY_MINUS: u32 = 45;

pub const KEY_ESCAPE: u32 = 65307;

pub const KEY_M: u32 = 109;

pub const KEY_N: u32 = 110;

pub const BUTTON_PRIMARY: u32 = 1;

/// The bindings a fresh installation starts with.
pub open spec fn default_bindings() -> Seq<(Action, InputSpec)> {
    seq![
        (Action::PrevDir, InputSpec::Keyboard { keyval: KEY_UP, modifiers: 0 }),
        (Action::NextDir, InputSpec::Keyboard { keyval: KEY_DOWN, modifiers: 0 }),
        (Action::PrevPage, InputSpec::Keyboard { keyval: KEY_LEFT, modifiers: 0 }),
        (Action::PrevPage, InputSpec::Scroll { direction: ScrollDirection::Up, modifiers: 0 }),
        (Action::NextPage, InputSpec::Keyboard { keyval: KEY_RIGHT, modifiers: 0 }),
        (Action::NextPage, InputSpec::Scroll { direction: ScrollDirection::Down, modifiers: 0 }),
        (Action::ToggleFullscreen, InputSpec::Keyboard { keyval: KEY_RETURN, modifiers: 0 }),
        (
            Action::ToggleFullscreen,
            InputSpec::Mouse { button: BUTTON_PRIMARY, modifiers: 0, double_click: true },
        ),
        (Action::ZoomIn, InputSpec::Keyboard { keyval: KEY_PLUS, modifiers: 0 }),
        (Action::ZoomOut, InputSpec::Keyboard { keyval: KEY_MINUS, modifiers: 0 }),
        (Action::ResetZoom, InputSpec::Keyboard { keyval: KEY_ESCAPE, modifiers: 0 }),
        (Action::ToggleSpread, InputSpec::Keyboard { keyval: KEY_M, modifiers: 0 }),
        (Action::ToggleRTL, InputSpec::Keyboard { keyval: KEY_N, modifiers: 0 }),
        (Action::PrevPageSingle, InputSpec::Keyboard { keyval: KEY_LEFT, modifiers: MOD_SHIFT }),
        (Action::NextPageSingle, InputSpec::Keyboard { keyval: KEY_RIGHT, modifiers: MOD_SHIFT }),
    ]
}

/// The configured bindings, in priority order: the first binding that
/// matches an event decides the action.
#[derive(Debug, Clone)]
pub struct InputMap {
    pub bindings: Vec<(Action, InputSpec)>,
}

impl Default for InputMap {
    fn default() -> (r: Self)
        ensures
            r.bindings@ == default_bindings(),
    {
        let b = vec![
            (Action::PrevDir, InputSpec::Keyboard { keyval: KEY_UP, modifiers: 0 }),
            (Action::NextDir, InputSpec::Keyboard { keyval: KEY_DOWN, modifiers: 0 }),
            (Action::PrevPage, InputSpec::Keyboard { keyval: KEY_LEFT, modifiers: 0 }),
            (Action::PrevPage, InputSpec::Scroll { direction: ScrollDirection::Up, modifiers: 0 }),
            (Action::NextPage, InputSpec::Keyboard { keyval: KEY_RIGHT, modifiers: 0 }),
            (
                Action::NextPage,
                InputSpec::Scroll { direction: ScrollDirection::Down, modifiers: 0 },
            ),
            (Action::ToggleFullscreen, InputSpec::Keyboard { keyval: KEY_RETURN, modifiers: 0 }),
            (
                Action::ToggleFullscreen,
                InputSpec::Mouse { button: BUTTON_PRIMARY, modifiers: 0, double_click: true },
            ),
            (Action::ZoomIn, InputSpec::Keyboard { keyval: KEY_PLUS, modifiers: 0 }),
            (Action::ZoomOut, InputSpec::Keyboard { keyval: KEY_MINUS, modifiers: 0 }),
            (Action::ResetZoom, InputSpec::Keyboard { keyval: KEY_ESCAPE, modifiers: 0 }),
            (Action::ToggleSpread, InputSpec::Keyboard { keyval: KEY_M, modifiers: 0 }),
            (Action::ToggleRTL, InputSpec::Keyboard { keyval: KEY_N, modifiers: 0 }),
            (
                Action::PrevPageSingle,
                InputSpec::Keyboard { keyval: KEY_LEFT, modifiers: MOD_SHIFT },
            ),
            (
                Action::NextPageSingle,
                InputSpec::Keyboard { keyval: KEY_RIGHT, modifiers: MOD_SHIFT },
            ),
        ];
        proof {
            assert(b@ =~= default_bindings());
        }
        InputMap { bindings: b }
    }
}

impl InputMap {
    fn find_action(&self, e: &InputEvent) -> (r: Option<Action>)
        ensures
            r == find_action_spec(self.bindings@, *e),
    {
        let n = self.bindings.len();
        let mut i: usize = 0;
        while i < n
            invariant
                i <= n,
                n == self.bindings@.len(),
                forall|j: int|
                    0 <= j < i ==> !matches_event_spec((#[trigger] self.bindings@[j]).1, *e),
            decreases n - i,
        {
            let (a, s) = self.bindings[i];
            if s.matches_event(e) {
                proof {
                    lemma_find_action_extend(self.bindings@, *e, i as int);
                    let t = self.bindings@.subrange(i as int, n as int);
                    assert(t[0] == self.bindings@[i as int]);
                }
                return Some(a);
            }
            i = i + 1;
        }
        proof {
            lemma_find_action_extend(self.bindings@, *e, n as int);
            assert(self.bindings@.subrange(n as int, n as int) =~= Seq::<(
                Action,
                InputSpec,
            )>::empty());
        }
        None
    }

    /// The action bound to a pressed key (lowercased), if any.
    pub fn get_action_for_key(&self, keyval: u32, modifiers: u32) -> (r: Option<Action>)
        ensures
            r == find_action_spec(self.bindings@, InputEvent::Key { keyval, modifiers }),
    {
        self.find_action(&InputEvent::Key { keyval, modifiers })
    }

    /// The action bound to a mouse click, if any.
    pub fn get_action_for_mouse(&self, button: u32, modifiers: u32, double_click: bool) -> (r:
        Option<Action>)
        ensures
            r == find_action_spec(
                self.bindings@,
                InputEvent::Mouse { button, modifiers, double_click },
            ),
    {
        self.find_action(&InputEvent::Mouse { button, modifiers, double_click })
    }

    /// The action bound to a scroll, if any.
    pub fn get_action_for_scroll(&self, direction: ScrollDirection, modifiers: u32) -> (r: Option<
        Action,
    >)
        ensures
            r == find_action_spec(self.bindings@, InputEvent::Scroll { direction, modifiers }),
    {
        self.find_action(&InputEvent::Scroll { direction, modifiers })
    }

    /// The action bound to one of the named mouse gestures, if any.
    pub fn get_action_for_mouse_type(&self, input_type: MouseInputType) -> (r: Option<Action>)
        ensures
            r == find_action_spec(self.bindings@, mouse_event_of(input_type)),
    {
        let e = mouse_event(input_type);
        self.find_action(&e)
    }
}

/// The mouse gestures the settings dialog lets the user bind.
#[derive(Debug, Clone, Copy, PartialEq, Eq, Structural)]
pub enum MouseInputType {
    RightClick,
    MiddleClick,
    ScrollUp,
    ScrollDown,
    LeftDouble,
}

pub open spec fn mouse_label_spec(t: MouseInputType) -> Seq<char> {
    match t {
        MouseInputType::RightClick => "Right Click"@,
        MouseInputType::MiddleClick => "Middle Click"@,
        MouseInputType::ScrollUp => "Scroll Up"@,
        MouseInputType::ScrollDown => "Scroll Down"@,
        MouseInputType::LeftDouble => "Left Double Click"@,
    }
}

/// The gesture each named mouse input stands for, as an incoming event.
pub open spec fn mouse_event_of(t: MouseInputType) -> InputEvent {
    match t {
        MouseInputType::RightClick => InputEvent::Mouse {
            button: 3,
            modifiers: 0,
            double_click: false,
        },
        MouseInputType::MiddleClick => InputEvent::Mouse {
            button: 2,
            modifiers: 0,
            double_click: false,
        },
        MouseInputType::ScrollUp => InputEvent::Scroll {
            direction: ScrollDirection::Up,
            modifiers: 0,
        },
        MouseInputType::ScrollDown => InputEvent::Scroll {
            direction: ScrollDirection::Down,
            modifiers: 0,
        },
        MouseInputType::LeftDouble => InputEvent::Mouse {
            button: 1,
            modifiers: 0,
            double_click: true,
        },
    }
}

fn mouse_event(t: MouseInputType) -> (e: InputEvent)
    ensures
        e == mouse_event_of(t),
{
    match t {
        MouseInputType::RightClick => InputEvent::Mouse {
            button: 3,
            modifiers: 0,
            double_click: false,
        },
        MouseInputType::MiddleClick => InputEvent::Mouse {
            button: 2,
            modifiers: 0,
            double_click: false,
        },
        MouseInputType::ScrollUp => InputEvent::Scroll {
            direction: ScrollDirection::Up,
            modifiers: 0,
        },
        MouseInputType::ScrollDown => InputEvent::Scroll {
            direction: ScrollDirection::Down,
            modifiers: 0,
        },
        MouseInputType::LeftDouble => InputEvent::Mouse {
            button: 1,
            modifiers: 0,
            double_click: true,
        },
    }
}

impl MouseInputType {
    /// The English label shown in the mouse-configuration list.
    pub fn label(&self) -> (r: &'static str)
        ensures
            r@ == mouse_label_spec(*self),
    {
        match self {
            MouseInputType::RightClick => "Right Click",
            MouseInputType::MiddleClick => "Middle Click",
            MouseInputType::ScrollUp => "Scroll Up",
            MouseInputType::ScrollDown => "Scroll Down",
            MouseInputType::LeftDouble => "Left Double Click",
        }
    }

    /// The gesture as a configured binding (the shape the input map
    /// stores).
    pub fn to_input_spec(&self) -> (r: InputSpec)
        ensures
            r == spec_of_mouse_event(mouse_event_of(*self)),
    {
        match self {
            MouseInputType::RightClick => InputSpec::Mouse {
                button: 3,
                modifiers: 0,
                double_click: false,
            },
            MouseInputType::MiddleClick => InputSpec::Mouse {
                button: 2,
                modifiers: 0,
                double_click: false,
            },
            MouseInputType::ScrollUp => InputSpec::Scroll {
                direction: ScrollDirection::Up,
                modifiers: 0,
            },
            MouseInputType::ScrollDown => InputSpec::Scroll {
                direction: ScrollDirection::Down,
                modifiers: 0,
            },
            MouseInputType::LeftDouble => InputSpec::Mouse {
                button: 1,
                modifiers: 0,
                double_click: true,
            },
        }
    }
}

/// The binding that matches exactly one event with no extra modifiers.
pub open spec fn spec_of_mouse_event(e: InputEvent) -> InputSpec {
    match e {
        InputEvent::Key { keyval, modifiers } => InputSpec::Keyboard { keyval, modifiers },
        InputEvent::Mouse { button, modifiers, double_click } => InputSpec::Mouse {
            button,
            modifiers,
            double_click,
        },
        InputEvent::Scroll { direction, modifiers } => InputSpec::Scroll { direction, modifiers },
    }
}

/// Whether a configured binding is the given mouse gesture.
pub fn matches_mouse_input(spec: &InputSpec, input_type: MouseInputType) -> (r: bool)
    ensures
        r == matches_event_spec(*spec, mouse_event_of(input_type)),
{
    let e = mouse_event(input_type);
    spec.matches_event(&e)
}

} // verus!
