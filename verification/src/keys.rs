//! Keys: what a key press means to a terminal, and the shortcuts of a pane.

use vstd::prelude::*;

verus! {

// Key values as the windowing system numbers them.

pub const KEY_A_UPPER: u32 = 65;

pub const KEY_B_UPPER: u32 = 66;

pub const KEY_C_UPPER: u32 = 67;

pub const KEY_L_UPPER: u32 = 76;

pub const KEY_V_UPPER: u32 = 86;

pub const KEY_RETURN: u32 = 0xff0d;

pub const KEY_KP_ENTER: u32 = 0xff8d;

pub const KEY_BACKSPACE: u32 = 0xff08;

pub const KEY_TAB: u32 = 0xff09;

pub const KEY_ISO_LEFT_TAB: u32 = 0xfe20;

pub const KEY_ESCAPE: u32 = 0xff1b;

pub const KEY_UP: u32 = 0xff52;

pub const KEY_DOWN: u32 = 0xff54;

pub const KEY_LEFT: u32 = 0xff51;

pub const KEY_RIGHT: u32 = 0xff53;

pub const KEY_HOME: u32 = 0xff50;

pub const KEY_END: u32 = 0xff57;

pub const KEY_PAGE_UP: u32 = 0xff55;

pub const KEY_PAGE_DOWN: u32 = 0xff56;

pub const KEY_INSERT: u32 = 0xff63;

pub const KEY_DELETE: u32 = 0xffff;

pub const KEY_KP_DELETE: u32 = 0xff9f;

pub const KEY_KP_MULTIPLY: u32 = 0xffaa;

pub const KEY_KP_ADD: u32 = 0xffab;

pub const KEY_KP_SUBTRACT: u32 = 0xffad;

pub const KEY_KP_DECIMAL: u32 = 0xffae;

pub const KEY_KP_DIVIDE: u32 = 0xffaf;

/// The first function key; those up to `KEY_F24` follow without a gap.
pub const KEY_F1: u32 = 0xffbe;

pub const KEY_F24: u32 = 0xffd5;

/// The digit 0 of the number pad; those up to `KEY_KP_9` follow without a gap.
pub const KEY_KP_0: u32 = 0xffb0;

pub const KEY_KP_9: u32 = 0xffb9;

pub const KEY_SHIFT_L: u32 = 0xffe1;

pub const KEY_SHIFT_R: u32 = 0xffe2;

pub const KEY_CONTROL_L: u32 = 0xffe3;

pub const KEY_CONTROL_R: u32 = 0xffe4;

pub const KEY_CAPS_LOCK: u32 = 0xffe5;

pub const KEY_META_L: u32 = 0xffe7;

pub const KEY_META_R: u32 = 0xffe8;

pub const KEY_ALT_L: u32 = 0xffe9;

pub const KEY_ALT_R: u32 = 0xffea;

pub const KEY_SUPER_L: u32 = 0xffeb;

pub const KEY_SUPER_R: u32 = 0xffec;

pub const KEY_NUM_LOCK: u32 = 0xff7f;

// Bits of the modifier state.

pub const SHIFT_MASK: u32 = 0x1;

pub const CONTROL_MASK: u32 = 0x4;

pub const ALT_MASK: u32 = 0x8;

pub const SUPER_MASK: u32 = 0x400_0000;

/// A key as a terminal knows it.
#[derive(Debug, Clone, Copy, PartialEq, Eq, Structural)]
pub enum KeyCode {
    Char(char),
    Enter,
    Backspace,
    Tab,
    Escape,
    UpArrow,
    DownArrow,
    LeftArrow,
    RightArrow,
    Home,
    End,
    PageUp,
    PageDown,
    Insert,
    Delete,
    /// A function key by its number, from 1.
    Function(u8),
    /// A digit of the number pad.
    Numpad(u8),
    Multiply,
    Add,
    Subtract,
    Decimal,
    Divide,
}

/// The modifiers that are held with a key.
#[derive(Debug, Clone, Copy, PartialEq, Eq, Structural)]
pub struct KeyModifiers {
    pub shift: bool,
    pub ctrl: bool,
    pub alt: bool,
    pub logo: bool,
}

/// The modifiers in a modifier state.
pub open spec fn modifiers_in(state: u32) -> KeyModifiers {
    KeyModifiers {
        shift: state & SHIFT_MASK != 0,
        ctrl: state & CONTROL_MASK != 0,
        alt: state & ALT_MASK != 0,
        logo: state & SUPER_MASK != 0,
    }
}

/// The modifiers in a modifier state.
pub fn modifiers_of(state: u32) -> (r: KeyModifiers)
    ensures
        r == modifiers_in(state),
{
    KeyModifiers {
        shift: state & SHIFT_MASK != 0,
        ctrl: state & CONTROL_MASK != 0,
        alt: state & ALT_MASK != 0,
        logo: state & SUPER_MASK != 0,
    }
}

/// Whether a key only changes the modifier state.
pub open spec fn is_modifier_key(key: u32) -> bool {
    ||| key == KEY_SHIFT_L
    ||| key == KEY_SHIFT_R
    ||| key == KEY_CONTROL_L
    ||| key == KEY_CONTROL_R
    ||| key == KEY_CAPS_LOCK
    ||| key == KEY_META_L
    ||| key == KEY_META_R
    ||| key == KEY_ALT_L
    ||| key == KEY_ALT_R
    ||| key == KEY_SUPER_L
    ||| key == KEY_SUPER_R
    ||| key == KEY_NUM_LOCK
}

/// The meaning of a key that stands for no character.
pub open spec fn named_key(key: u32) -> Option<KeyCode> {
    if KEY_F1 <= key <= KEY_F24 {
        Some(KeyCode::Function((key - KEY_F1 + 1) as u8))
    } else if KEY_KP_0 <= key <= KEY_KP_9 {
        Some(KeyCode::Numpad((key - KEY_KP_0) as u8))
    } else if key == KEY_RETURN {
        Some(KeyCode::Enter)
    } else if key == KEY_KP_ENTER {
        Some(KeyCode::Enter)
    } else if key == KEY_BACKSPACE {
        Some(KeyCode::Backspace)
    } else if key == KEY_TAB {
        Some(KeyCode::Tab)
    } else if key == KEY_ISO_LEFT_TAB {
        Some(KeyCode::Tab)
    } else if key == KEY_ESCAPE {
        Some(KeyCode::Escape)
    } else if key == KEY_UP {
        Some(KeyCode::UpArrow)
    } else if key == KEY_DOWN {
        Some(KeyCode::DownArrow)
    } else if key == KEY_LEFT {
        Some(KeyCode::LeftArrow)
    } else if key == KEY_RIGHT {
        Some(KeyCode::RightArrow)
    } else if key == KEY_HOME {
        Some(KeyCode::Home)
    } else if key == KEY_END {
        Some(KeyCode::End)
    } else if key == KEY_PAGE_UP {
        Some(KeyCode::PageUp)
    } else if key == KEY_PAGE_DOWN {
        Some(KeyCode::PageDown)
    } else if key == KEY_INSERT {
        Some(KeyCode::Insert)
    } else if key == KEY_DELETE {
        Some(KeyCode::Delete)
    } else if key == KEY_KP_DELETE {
        Some(KeyCode::Delete)
    } else if key == KEY_KP_MULTIPLY {
        Some(KeyCode::Multiply)
    } else if key == KEY_KP_ADD {
        Some(KeyCode::Add)
    } else if key == KEY_KP_SUBTRACT {
        Some(KeyCode::Subtract)
    } else if key == KEY_KP_DECIMAL {
        Some(KeyCode::Decimal)
    } else if key == KEY_KP_DIVIDE {
        Some(KeyCode::Divide)
    } else {
        None
    }
}

/// The meaning of a key to a terminal: that of a named key, none of a modifier key,
/// else the character that it gives, if any.
pub open spec fn key_meaning(key: u32, character: Option<char>) -> Option<KeyCode> {
    match named_key(key) {
        Some(code) => Some(code),
        None => if is_modifier_key(key) {
            None
        } else {
            match character {
                Some(c) => Some(KeyCode::Char(c)),
                None => None,
            }
        },
    }
}

fn find_named_key(key: u32) -> (r: Option<KeyCode>)
    ensures
        r == named_key(key),
{
    if KEY_F1 <= key && key <= KEY_F24 {
        Some(KeyCode::Function((key - KEY_F1 + 1) as u8))
    } else if KEY_KP_0 <= key && key <= KEY_KP_9 {
        Some(KeyCode::Numpad((key - KEY_KP_0) as u8))
    } else if key == KEY_RETURN {
        Some(KeyCode::Enter)
    } else if key == KEY_KP_ENTER {
        Some(KeyCode::Enter)
    } else if key == KEY_BACKSPACE {
        Some(KeyCode::Backspace)
    } else if key == KEY_TAB {
        Some(KeyCode::Tab)
    } else if key == KEY_ISO_LEFT_TAB {
        Some(KeyCode::Tab)
    } else if key == KEY_ESCAPE {
        Some(KeyCode::Escape)
    } else if key == KEY_UP {
        Some(KeyCode::UpArrow)
    } else if key == KEY_DOWN {
        Some(KeyCode::DownArrow)
    } else if key == KEY_LEFT {
        Some(KeyCode::LeftArrow)
    } else if key == KEY_RIGHT {
        Some(KeyCode::RightArrow)
    } else if key == KEY_HOME {
        Some(KeyCode::Home)
    } else if key == KEY_END {
        Some(KeyCode::End)
    } else if key == KEY_PAGE_UP {
        Some(KeyCode::PageUp)
    } else if key == KEY_PAGE_DOWN {
        Some(KeyCode::PageDown)
    } else if key == KEY_INSERT {
        Some(KeyCode::Insert)
    } else if key == KEY_DELETE {
        Some(KeyCode::Delete)
    } else if key == KEY_KP_DELETE {
        Some(KeyCode::Delete)
    } else if key == KEY_KP_MULTIPLY {
        Some(KeyCode::Multiply)
    } else if key == KEY_KP_ADD {
        Some(KeyCode::Add)
    } else if key == KEY_KP_SUBTRACT {
        Some(KeyCode::Subtract)
    } else if key == KEY_KP_DECIMAL {
        Some(KeyCode::Decimal)
    } else if key == KEY_KP_DIVIDE {
        Some(KeyCode::Divide)
    } else {
        None
    }
}

fn only_modifies(key: u32) -> (r: bool)
    ensures
        r == is_modifier_key(key),
{
    key == KEY_SHIFT_L
        || key == KEY_SHIFT_R
        || key == KEY_CONTROL_L
        || key == KEY_CONTROL_R
        || key == KEY_CAPS_LOCK
        || key == KEY_META_L
        || key == KEY_META_R
        || key == KEY_ALT_L
        || key == KEY_ALT_R
        || key == KEY_SUPER_L
        || key == KEY_SUPER_R
        || key == KEY_NUM_LOCK
}

/// The key and the modifiers that a key press sends to a terminal, if any. `character`
/// is the character that the key gives.
pub fn key_press(key: u32, character: Option<char>, state: u32) -> (r: Option<
    (KeyCode, KeyModifiers),
>)
    ensures
        r == (match key_meaning(key, character) {
            Some(code) => Some((code, modifiers_in(state))),
            None => None,
        }),
        key == 0xff0d ==> (r matches Some((code, _)) && code == KeyCode::Enter),
        key == 0xff8d ==> (r matches Some((code, _)) && code == KeyCode::Enter),
        key == 0xff08 ==> (r matches Some((code, _)) && code == KeyCode::Backspace),
        key == 0xff09 ==> (r matches Some((code, _)) && code == KeyCode::Tab),
        key == 0xfe20 ==> (r matches Some((code, _)) && code == KeyCode::Tab),
        key == 0xff1b ==> (r matches Some((code, _)) && code == KeyCode::Escape),
        key == 0xff52 ==> (r matches Some((code, _)) && code == KeyCode::UpArrow),
        key == 0xff54 ==> (r matches Some((code, _)) && code == KeyCode::DownArrow),
        key == 0xff51 ==> (r matches Some((code, _)) && code == KeyCode::LeftArrow),
        key == 0xff53 ==> (r matches Some((code, _)) && code == KeyCode::RightArrow),
        key == 0xff50 ==> (r matches Some((code, _)) && code == KeyCode::Home),
        key == 0xff57 ==> (r matches Some((code, _)) && code == KeyCode::End),
        key == 0xff55 ==> (r matches Some((code, _)) && code == KeyCode::PageUp),
        key == 0xff56 ==> (r matches Some((code, _)) && code == KeyCode::PageDown),
        key == 0xff63 ==> (r matches Some((code, _)) && code == KeyCode::Insert),
        key == 0xffff ==> (r matches Some((code, _)) && code == KeyCode::Delete),
        key == 0xff9f ==> (r matches Some((code, _)) && code == KeyCode::Delete),
        key == 0xffaa ==> (r matches Some((code, _)) && code == KeyCode::Multiply),
        key == 0xffab ==> (r matches Some((code, _)) && code == KeyCode::Add),
        key == 0xffad ==> (r matches Some((code, _)) && code == KeyCode::Subtract),
        key == 0xffae ==> (r matches Some((code, _)) && code == KeyCode::Decimal),
        key == 0xffaf ==> (r matches Some((code, _)) && code == KeyCode::Divide),
        0xffbe <= key <= 0xffd5 ==> (r matches Some((code, _)) && code == KeyCode::Function(
            (key - 0xffbd) as u8,
        )),
        0xffb0 <= key <= 0xffb9 ==> (r matches Some((code, _)) && code == KeyCode::Numpad(
            (key - 0xffb0) as u8,
        )),
        r matches Some((_, mods)) ==> mods.shift == (state & 1 != 0) && mods.ctrl == (state & 4
            != 0) && mods.alt == (state & 8 != 0) && mods.logo == (state & 0x400_0000 != 0),
{
    let mods = modifiers_of(state);
    match find_named_key(key) {
        Some(code) => Some((code, mods)),
        None => {
            if only_modifies(key) {
                None
            } else {
                match character {
                    Some(c) => Some((KeyCode::Char(c), mods)),
                    None => None,
                }
            }
        },
    }
}

/// What can be asked of a pane.
#[derive(Debug, Clone, Copy, PartialEq, Eq, Structural)]
pub enum PaneAction {
    Copy,
    Paste,
    PasteSelection,
    SelectAll,
    SelectScreen,
    EditorScreen,
    EditorSelection,
    PasteLocalIp,
    PasteRemoteIp,
    SendBreak,
    ResetCursor,
    ResetTerminal,
    ClearScreen,
    ClearScrollback,
    ClearBoth,
    Fullscreen,
    Broadcast,
}

impl PaneAction {
    /// Every action.
    pub const ALL: [Self; 17] = [
        Self::Copy,
        Self::Paste,
        Self::PasteSelection,
        Self::SelectAll,
        Self::SelectScreen,
        Self::EditorScreen,
        Self::EditorSelection,
        Self::PasteLocalIp,
        Self::PasteRemoteIp,
        Self::SendBreak,
        Self::ResetCursor,
        Self::ResetTerminal,
        Self::ClearScreen,
        Self::ClearScrollback,
        Self::ClearBoth,
        Self::Fullscreen,
        Self::Broadcast,
    ];

    /// The name under which the action is registered.
    pub fn name(self) -> (r: &'static str)
        ensures
            r@ == (match self {
                PaneAction::Copy => "copy"@,
                PaneAction::Paste => "paste"@,
                PaneAction::PasteSelection => "paste-selection"@,
                PaneAction::SelectAll => "select-all"@,
                PaneAction::SelectScreen => "select-screen"@,
                PaneAction::EditorScreen => "editor-screen"@,
                PaneAction::EditorSelection => "editor-selection"@,
                PaneAction::PasteLocalIp => "paste-local-ip"@,
                PaneAction::PasteRemoteIp => "paste-remote-ip"@,
                PaneAction::SendBreak => "send-break"@,
                PaneAction::ResetCursor => "reset-cursor"@,
                PaneAction::ResetTerminal => "reset-terminal"@,
                PaneAction::ClearScreen => "clear-screen"@,
                PaneAction::ClearScrollback => "clear-scrollback"@,
                PaneAction::ClearBoth => "clear-both"@,
                PaneAction::Fullscreen => "fullscreen"@,
                PaneAction::Broadcast => "broadcast"@,
            }),
    {
        match self {
            Self::Copy => "copy",
            Self::Paste => "paste",
            Self::PasteSelection => "paste-selection",
            Self::SelectAll => "select-all",
            Self::SelectScreen => "select-screen",
            Self::EditorScreen => "editor-screen",
            Self::EditorSelection => "editor-selection",
            Self::PasteLocalIp => "paste-local-ip",
            Self::PasteRemoteIp => "paste-remote-ip",
            Self::SendBreak => "send-break",
            Self::ResetCursor => "reset-cursor",
            Self::ResetTerminal => "reset-terminal",
            Self::ClearScreen => "clear-screen",
            Self::ClearScrollback => "clear-scrollback",
            Self::ClearBoth => "clear-both",
            Self::Fullscreen => "fullscreen",
            Self::Broadcast => "broadcast",
        }
    }

    /// The bytes that the action sends to the session, as if they were typed: a form
    /// feed to clear the screen, an end of text for a break.
    pub open spec fn typed(self) -> Seq<u8> {
        match self {
            PaneAction::SendBreak => seq![3u8],
            PaneAction::ClearScreen | PaneAction::ClearBoth => seq![12u8],
            _ => Seq::empty(),
        }
    }

    /// The bytes that the action hands to the terminal, as if the session had put them
    /// out: control sequences that erase the scrollback, show the cursor in its usual
    /// shape, or reset the terminal.
    pub open spec fn put_out(self) -> Seq<u8> {
        match self {
            PaneAction::ClearScrollback | PaneAction::ClearBoth => seq![27u8, 91, 51, 74],
            PaneAction::ResetCursor => seq![27u8, 91, 63, 50, 53, 104, 27, 91, 48, 32, 113],
            PaneAction::ResetTerminal => seq![27u8, 99],
            _ => Seq::empty(),
        }
    }

    /// The bytes that the action sends to the session, as if they were typed.
    pub fn session_bytes(self) -> (r: Vec<u8>)
        ensures
            r@ == self.typed(),
    {
        match self {
            Self::SendBreak => vec![3],
            Self::ClearScreen | Self::ClearBoth => vec![12],
            _ => Vec::new(),
        }
    }

    /// The bytes that the action hands to the terminal, as if the session had put them
    /// out.
    pub fn terminal_bytes(self) -> (r: Vec<u8>)
        ensures
            r@ == self.put_out(),
    {
        match self {
            Self::ClearScrollback | Self::ClearBoth => vec![27, 91, 51, 74],
            Self::ResetCursor => vec![27, 91, 63, 50, 53, 104, 27, 91, 48, 32, 113],
            Self::ResetTerminal => vec![27, 99],
            _ => Vec::new(),
        }
    }
}

/// The action that a key press asks for in place of being sent to the session.
pub open spec fn shortcut_for(key: u32, mods: KeyModifiers) -> Option<PaneAction> {
    let both = mods.ctrl && mods.shift;
    if key == KEY_C_UPPER && both || key == KEY_INSERT && mods.ctrl {
        Some(PaneAction::Copy)
    } else if key == KEY_V_UPPER && both || key == KEY_INSERT && (mods.shift || mods.alt) {
        Some(PaneAction::Paste)
    } else if key == KEY_L_UPPER && both {
        Some(PaneAction::ClearScreen)
    } else if key == KEY_B_UPPER && both {
        Some(PaneAction::ClearScrollback)
    } else if key == KEY_A_UPPER && both {
        Some(PaneAction::ClearBoth)
    } else {
        None
    }
}

/// The action that a key press asks for in place of being sent to the session.
pub fn shortcut(key: u32, state: u32) -> (r: Option<PaneAction>)
    ensures
        r == shortcut_for(key, modifiers_in(state)),
{
    let mods = modifiers_of(state);
    if (key == KEY_C_UPPER && mods.ctrl && mods.shift) || (key == KEY_INSERT && mods.ctrl) {
        return Some(PaneAction::Copy);
    }
    if (key == KEY_V_UPPER && mods.ctrl && mods.shift) || (key == KEY_INSERT && mods.shift
        && !mods.ctrl && !mods.alt) || (key == KEY_INSERT && mods.alt && !mods.ctrl) {
        return Some(PaneAction::Paste);
    }
    if key == KEY_L_UPPER && mods.ctrl && mods.shift {
        return Some(PaneAction::ClearScreen);
    }
    if key == KEY_B_UPPER && mods.ctrl && mods.shift {
        return Some(PaneAction::ClearScrollback);
    }
    if key == KEY_A_UPPER && mods.ctrl && mods.shift {
        return Some(PaneAction::ClearBoth);
    }
    None
}

/// A key that only changes the modifier state sends nothing, whatever character is
/// given with it.
pub proof fn modifier_keys_send_nothing(key: u32, character: Option<char>)
    requires
        is_modifier_key(key),
    ensures
        key_meaning(key, character) is None,
{
}

/// Without modifiers no key is a shortcut: plain typing reaches the session.
pub proof fn plain_keys_are_sent(key: u32)
    ensures
        shortcut_for(
            key,
            (KeyModifiers { shift: false, ctrl: false, alt: false, logo: false }),
        ) is None,
{
}

/// The arrow keys, the keys around them and the other keys that stand for no character
/// mean what they are called, whatever character or modifiers come with them.
pub proof fn named_keys_mean_themselves(
    key: u32,
    character: Option<char>,
    state: u32,
    r: Option<(KeyCode, KeyModifiers)>,
)
    requires
        call_ensures(key_press, (key, character, state), r),
    ensures
        key == 0xff0d ==> (r matches Some((code, _)) && code == KeyCode::Enter),
        key == 0xff8d ==> (r matches Some((code, _)) && code == KeyCode::Enter),
        key == 0xff08 ==> (r matches Some((code, _)) && code == KeyCode::Backspace),
        key == 0xff09 ==> (r matches Some((code, _)) && code == KeyCode::Tab),
        key == 0xfe20 ==> (r matches Some((code, _)) && code == KeyCode::Tab),
        key == 0xff1b ==> (r matches Some((code, _)) && code == KeyCode::Escape),
        key == 0xff52 ==> (r matches Some((code, _)) && code == KeyCode::UpArrow),
        key == 0xff54 ==> (r matches Some((code, _)) && code == KeyCode::DownArrow),
        key == 0xff51 ==> (r matches Some((code, _)) && code == KeyCode::LeftArrow),
        key == 0xff53 ==> (r matches Some((code, _)) && code == KeyCode::RightArrow),
        key == 0xff50 ==> (r matches Some((code, _)) && code == KeyCode::Home),
        key == 0xff57 ==> (r matches Some((code, _)) && code == KeyCode::End),
        key == 0xff55 ==> (r matches Some((code, _)) && code == KeyCode::PageUp),
        key == 0xff56 ==> (r matches Some((code, _)) && code == KeyCode::PageDown),
        key == 0xff63 ==> (r matches Some((code, _)) && code == KeyCode::Insert),
        key == 0xffff ==> (r matches Some((code, _)) && code == KeyCode::Delete),
        key == 0xff9f ==> (r matches Some((code, _)) && code == KeyCode::Delete),
        key == 0xffaa ==> (r matches Some((code, _)) && code == KeyCode::Multiply),
        key == 0xffab ==> (r matches Some((code, _)) && code == KeyCode::Add),
        key == 0xffad ==> (r matches Some((code, _)) && code == KeyCode::Subtract),
        key == 0xffae ==> (r matches Some((code, _)) && code == KeyCode::Decimal),
        key == 0xffaf ==> (r matches Some((code, _)) && code == KeyCode::Divide),
{
}

/// The function keys from F1 to F24 and the digits of the number pad follow one another:
/// the next key means the next number.
pub proof fn numbered_keys_follow_one_another(
    key: u32,
    character: Option<char>,
    state: u32,
    r: Option<(KeyCode, KeyModifiers)>,
    n: u8,
)
    requires
        call_ensures(key_press, (key, character, state), r),
    ensures
        1 <= n <= 24 ==> (key == 0xffbd + n <==> (r matches Some((code, _)) && code
            == KeyCode::Function(n))),
        n <= 9 ==> (key == 0xffb0 + n <==> (r matches Some((code, _)) && code == KeyCode::Numpad(
            n,
        ))),
        r matches Some((KeyCode::Function(n), _)) ==> 1 <= n <= 24,
        r matches Some((KeyCode::Numpad(n), _)) ==> n <= 9,
{
}

/// Whether a key means something of its own: it lies in one of the ranges of function
/// keys, digits and signs of the number pad, cursor and editing keys, or is a tab, return,
/// backspace, escape or delete key.
pub open spec fn has_own_meaning(key: u32) -> bool {
    ||| 0xffaa <= key <= 0xffb9 && key != 0xffac
    ||| 0xffbe <= key <= 0xffd5
    ||| 0xff50 <= key <= 0xff57
    ||| key == 0xff08 || key == 0xff09 || key == 0xff0d || key == 0xff1b
    ||| key == 0xff63 || key == 0xff8d || key == 0xff9f || key == 0xffff || key == 0xfe20
}

/// Whether a key only changes modifiers or locks: shift, control, caps lock, meta, alt and
/// super of either side, and number lock.
pub open spec fn is_lock_or_modifier(key: u32) -> bool {
    0xffe1 <= key <= 0xffec && key != 0xffe6 || key == 0xff7f
}

/// A key without a meaning of its own sends the character that it gives, if it gives one
/// and is no modifier key.
pub proof fn other_keys_send_their_character(
    key: u32,
    character: Option<char>,
    state: u32,
    r: Option<(KeyCode, KeyModifiers)>,
)
    requires
        call_ensures(key_press, (key, character, state), r),
    ensures
        has_own_meaning(key) ==> (r matches Some((code, _)) && !(code is Char)),
        is_lock_or_modifier(key) ==> r is None,
        !has_own_meaning(key) && !is_lock_or_modifier(key) ==> match character {
            Some(c) => r matches Some((code, _)) && code == KeyCode::Char(c),
            None => r is None,
        },
{
}

/// A key is sent with exactly the modifiers that are held, and these do not change which
/// key it is.
pub proof fn held_modifiers_are_sent(
    key: u32,
    character: Option<char>,
    state: u32,
    r: Option<(KeyCode, KeyModifiers)>,
    other: u32,
    q: Option<(KeyCode, KeyModifiers)>,
)
    requires
        call_ensures(key_press, (key, character, state), r),
        call_ensures(key_press, (key, character, other), q),
    ensures
        r matches Some((_, mods)) ==> {
            &&& mods.shift <==> state & 1 != 0
            &&& mods.ctrl <==> state & 4 != 0
            &&& mods.alt <==> state & 8 != 0
            &&& mods.logo <==> state & 0x400_0000 != 0
        },
        r is None <==> q is None,
        r is Some ==> (r->0).0 == (q->0).0,
{
}

/// The modifiers in a state are those whose bits are set: shift the lowest, control the
/// third, alt the fourth and super the 27th.
pub proof fn modifiers_by_their_bits(state: u32, r: KeyModifiers)
    requires
        call_ensures(modifiers_of, (state,), r),
    ensures
        r.shift <==> state & 1 != 0,
        r.ctrl <==> state & 4 != 0,
        r.alt <==> state & 8 != 0,
        r.logo <==> state & 0x400_0000 != 0,
{
}

/// The shortcuts of a pane: with control and shift, C copies, V pastes, L clears the
/// screen, B the scrollback and A both; insert copies with control and pastes with shift
/// or alt. Nothing else is a shortcut.
pub proof fn shortcuts_by_key(key: u32, state: u32, r: Option<PaneAction>)
    requires
        call_ensures(shortcut, (key, state), r),
    ensures
        ({
            let shift = state & 1 != 0;
            let ctrl = state & 4 != 0;
            let alt = state & 8 != 0;
            &&& ctrl && shift && key == 'C' as u32 ==> r == Some(PaneAction::Copy)
            &&& ctrl && shift && key == 'V' as u32 ==> r == Some(PaneAction::Paste)
            &&& ctrl && shift && key == 'L' as u32 ==> r == Some(PaneAction::ClearScreen)
            &&& ctrl && shift && key == 'B' as u32 ==> r == Some(PaneAction::ClearScrollback)
            &&& ctrl && shift && key == 'A' as u32 ==> r == Some(PaneAction::ClearBoth)
            &&& ctrl && key == 0xff63 ==> r == Some(PaneAction::Copy)
            &&& !ctrl && (shift || alt) && key == 0xff63 ==> r == Some(PaneAction::Paste)
            &&& r is Some ==> (key == 0xff63 || ctrl && shift && (key == 'A' as u32 || key
                == 'B' as u32 || key == 'C' as u32 || key == 'L' as u32 || key == 'V' as u32))
            &&& !shift && !ctrl && !alt ==> r is None
        }),
{
}

/// Clearing both screen and scrollback does what the two do one by one, and no other
/// action but a break types anything.
pub proof fn clearing_both_clears_each(
    screen: Vec<u8>,
    scrollback: Vec<u8>,
    both_typed: Vec<u8>,
    both_put_out: Vec<u8>,
)
    requires
        call_ensures(PaneAction::session_bytes, (PaneAction::ClearScreen,), screen),
        call_ensures(PaneAction::terminal_bytes, (PaneAction::ClearScrollback,), scrollback),
        call_ensures(PaneAction::session_bytes, (PaneAction::ClearBoth,), both_typed),
        call_ensures(PaneAction::terminal_bytes, (PaneAction::ClearBoth,), both_put_out),
    ensures
        both_typed@ == screen@,
        both_put_out@ == scrollback@,
        screen@ == seq![0x0cu8],
        scrollback@ == seq![0x1bu8, 0x5b, 0x33, 0x4a],
{
}

/// An action types something only to clear the screen or to send a break, and hands
/// something to the terminal only to clear the scrollback or to reset.
pub proof fn other_actions_send_nothing(action: PaneAction, typed: Vec<u8>, put_out: Vec<u8>)
    requires
        call_ensures(PaneAction::session_bytes, (action,), typed),
        call_ensures(PaneAction::terminal_bytes, (action,), put_out),
    ensures
        typed@.len() > 0 <==> action is ClearScreen || action is ClearBoth || action is SendBreak,
        put_out@.len() > 0 <==> action is ClearScrollback || action is ClearBoth
            || action is ResetCursor || action is ResetTerminal,
        action is SendBreak ==> typed@ == seq![0x03u8],
        action is ResetTerminal ==> put_out@ == seq![0x1bu8, 0x63],
        action is ResetCursor ==> put_out@ == seq![
            0x1bu8,
            0x5b,
            0x3f,
            0x32,
            0x35,
            0x68,
            0x1b,
            0x5b,
            0x30,
            0x20,
            0x71,
        ],
{
}

} // verus!
