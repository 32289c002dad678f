//! Input handling of the windowless (OSR) CEF webview: AppKit modifier
//! flags, key codes, mouse buttons and cursor types on one side, CEF's event
//! flags and key events on the other, and the decisions that keep typing,
//! IME composition and commits apart.
//!
//! Flag values are those of AppKit's `NSEventModifierFlags` and of CEF's
//! `cef_event_flags_t` (cef_types.h).

use vstd::prelude::*;

use crate::text::{to_chars, trim, trim_chars};

verus! {

/// `NSEventModifierFlagCapsLock`.
pub const NS_MOD_CAPS_LOCK: u32 = 0x10000;
/// `NSEventModifierFlagShift`.
pub const NS_MOD_SHIFT: u32 = 0x20000;
/// `NSEventModifierFlagControl`.
pub const NS_MOD_CONTROL: u32 = 0x40000;
/// `NSEventModifierFlagOption`.
pub const NS_MOD_OPTION: u32 = 0x80000;
/// `NSEventModifierFlagCommand`.
pub const NS_MOD_COMMAND: u32 = 0x100000;
/// `NSEventModifierFlagNumericPad`.
pub const NS_MOD_NUMERIC_PAD: u32 = 0x200000;

/// `EVENTFLAG_CAPS_LOCK_ON`.
pub const EVENTFLAG_CAPS_LOCK_ON: u32 = 0x1;
/// `EVENTFLAG_SHIFT_DOWN`.
pub const EVENTFLAG_SHIFT_DOWN: u32 = 0x2;
/// `EVENTFLAG_CONTROL_DOWN`.
pub const EVENTFLAG_CONTROL_DOWN: u32 = 0x4;
/// `EVENTFLAG_ALT_DOWN`.
pub const EVENTFLAG_ALT_DOWN: u32 = 0x8;
/// `EVENTFLAG_LEFT_MOUSE_BUTTON`.
pub const EVENTFLAG_LEFT_MOUSE_BUTTON: u32 = 0x10;
/// `EVENTFLAG_MIDDLE_MOUSE_BUTTON`.
pub const EVENTFLAG_MIDDLE_MOUSE_BUTTON: u32 = 0x20;
/// `EVENTFLAG_RIGHT_MOUSE_BUTTON`.
pub const EVENTFLAG_RIGHT_MOUSE_BUTTON: u32 = 0x40;
/// `EVENTFLAG_COMMAND_DOWN`.
pub const EVENTFLAG_COMMAND_DOWN: u32 = 0x80;
/// `EVENTFLAG_IS_KEY_PAD`.
pub const EVENTFLAG_IS_KEY_PAD: u32 = 0x200;
/// `EVENTFLAG_IS_REPEAT`.
pub const EVENTFLAG_IS_REPEAT: u32 = 0x2000;

/// Input event kinds sent by the host view.
pub const OSR_EVENT_MOUSE_MOVE: i32 = 0;
pub const OSR_EVENT_MOUSE_CLICK: i32 = 1;
pub const OSR_EVENT_MOUSE_WHEEL: i32 = 2;
pub const OSR_EVENT_KEY: i32 = 3;

/// The CEF flag for each AppKit modifier that is set.
pub open spec fn cef_modifiers_spec(flags: u32) -> u32 {
    (if flags & NS_MOD_SHIFT != 0 { EVENTFLAG_SHIFT_DOWN } else { 0 }) | (if flags & NS_MOD_CONTROL
        != 0 {
        EVENTFLAG_CONTROL_DOWN
    } else {
        0
    }) | (if flags & NS_MOD_OPTION != 0 { EVENTFLAG_ALT_DOWN } else { 0 }) | (if flags
        & NS_MOD_COMMAND != 0 {
        EVENTFLAG_COMMAND_DOWN
    } else {
        0
    }) | (if flags & NS_MOD_CAPS_LOCK != 0 { EVENTFLAG_CAPS_LOCK_ON } else { 0 })
}

/// `NSEventModifierFlags` to `cef_event_flags_t` (mouse and keyboard alike);
/// the numeric pad flag is not a modifier here.
pub fn cef_modifiers(flags: u32) -> (r: u32)
    ensures
        r == cef_modifiers_spec(flags),
{
    let shift: u32 = if flags & NS_MOD_SHIFT != 0 {
        EVENTFLAG_SHIFT_DOWN
    } else {
        0
    };
    let control: u32 = if flags & NS_MOD_CONTROL != 0 {
        EVENTFLAG_CONTROL_DOWN
    } else {
        0
    };
    let alt: u32 = if flags & NS_MOD_OPTION != 0 {
        EVENTFLAG_ALT_DOWN
    } else {
        0
    };
    let command: u32 = if flags & NS_MOD_COMMAND != 0 {
        EVENTFLAG_COMMAND_DOWN
    } else {
        0
    };
    let caps: u32 = if flags & NS_MOD_CAPS_LOCK != 0 {
        EVENTFLAG_CAPS_LOCK_ON
    } else {
        0
    };
    shift | control | alt | command | caps
}

/// Each CEF modifier bit is set exactly when its AppKit modifier is, and no
/// other bit is set.
pub proof fn law_cef_modifiers_bits(flags: u32)
    ensures
        (cef_modifiers_spec(flags) & EVENTFLAG_SHIFT_DOWN != 0) == (flags & NS_MOD_SHIFT != 0),
        (cef_modifiers_spec(flags) & EVENTFLAG_CONTROL_DOWN != 0) == (flags & NS_MOD_CONTROL != 0),
        (cef_modifiers_spec(flags) & EVENTFLAG_ALT_DOWN != 0) == (flags & NS_MOD_OPTION != 0),
        (cef_modifiers_spec(flags) & EVENTFLAG_COMMAND_DOWN != 0) == (flags & NS_MOD_COMMAND != 0),
        (cef_modifiers_spec(flags) & EVENTFLAG_CAPS_LOCK_ON != 0) == (flags & NS_MOD_CAPS_LOCK
            != 0),
        cef_modifiers_spec(flags) & !0x8Fu32 == 0,
{
    let s: u32 = if flags & 0x20000u32 != 0 { 0x2u32 } else { 0u32 };
    let c: u32 = if flags & 0x40000u32 != 0 { 0x4u32 } else { 0u32 };
    let o: u32 = if flags & 0x80000u32 != 0 { 0x8u32 } else { 0u32 };
    let m: u32 = if flags & 0x100000u32 != 0 { 0x80u32 } else { 0u32 };
    let k: u32 = if flags & 0x10000u32 != 0 { 0x1u32 } else { 0u32 };
    assert(cef_modifiers_spec(flags) == s | c | o | m | k);
    assert({
        let v = s | c | o | m | k;
        &&& (v & 0x2u32 != 0) == (flags & 0x20000u32 != 0)
        &&& (v & 0x4u32 != 0) == (flags & 0x40000u32 != 0)
        &&& (v & 0x8u32 != 0) == (flags & 0x80000u32 != 0)
        &&& (v & 0x80u32 != 0) == (flags & 0x100000u32 != 0)
        &&& (v & 0x1u32 != 0) == (flags & 0x10000u32 != 0)
        &&& v & !0x8Fu32 == 0
    }) by (bit_vector)
        requires
            s == (if flags & 0x20000u32 != 0 { 0x2u32 } else { 0u32 }),
            c == (if flags & 0x40000u32 != 0 { 0x4u32 } else { 0u32 }),
            o == (if flags & 0x80000u32 != 0 { 0x8u32 } else { 0u32 }),
            m == (if flags & 0x100000u32 != 0 { 0x80u32 } else { 0u32 }),
            k == (if flags & 0x10000u32 != 0 { 0x1u32 } else { 0u32 }),
    ;
}

/// A numeric keypad key code (Clear, =, /, *, -, +, Enter, . and 0-9).
pub open spec fn is_key_pad_code(code: u16) -> bool {
    code == 71 || code == 81 || code == 75 || code == 67 || code == 78 || code == 69 || code == 76
        || code == 65 || code == 82 || code == 83 || code == 84 || code == 85 || code == 86 || code
        == 87 || code == 88 || code == 89 || code == 91 || code == 92
}

/// Whether a key event comes from the numeric keypad: the AppKit flag, or a
/// keypad key code.
pub fn is_key_pad_event(mac_key_code: u16, flags: u32) -> (r: bool)
    ensures
        r == (flags & NS_MOD_NUMERIC_PAD != 0 || is_key_pad_code(mac_key_code)),
{
    if flags & NS_MOD_NUMERIC_PAD != 0 {
        return true;
    }
    let c = mac_key_code;
    c == 71 || c == 81 || c == 75 || c == 67 || c == 78 || c == 69 || c == 76 || c == 65 || c == 82
        || c == 83 || c == 84 || c == 85 || c == 86 || c == 87 || c == 88 || c == 89 || c == 91 || c
        == 92
}

/// The Windows virtual key of a key that types no character (navigation,
/// function and modifier keys).
pub open spec fn special_key_spec(code: u16) -> Option<i32> {
    if code == 0x24 || code == 0x4C {
        Some(0x0D)
    } else if code == 0x30 {
        Some(0x09)
    } else if code == 0x31 {
        Some(0x20)
    } else if code == 0x33 {
        Some(0x08)
    } else if code == 0x75 {
        Some(0x2E)
    } else if code == 0x35 {
        Some(0x1B)
    } else if code == 0x7B {
        Some(0x25)
    } else if code == 0x7C {
        Some(0x27)
    } else if code == 0x7D {
        Some(0x28)
    } else if code == 0x7E {
        Some(0x26)
    } else if code == 0x73 {
        Some(0x24)
    } else if code == 0x77 {
        Some(0x23)
    } else if code == 0x74 {
        Some(0x21)
    } else if code == 0x79 {
        Some(0x22)
    } else if code == 0x38 || code == 0x3C {
        Some(0x10)
    } else if code == 0x3B || code == 0x3E {
        Some(0x11)
    } else if code == 0x3A || code == 0x3D {
        Some(0x12)
    } else if code == 0x37 {
        Some(0x5B)
    } else if code == 0x36 {
        Some(0x5C)
    } else if code == 0x39 {
        Some(0x14)
    } else if code == 0x7A {
        Some(0x70)
    } else if code == 0x78 {
        Some(0x71)
    } else if code == 0x63 {
        Some(0x72)
    } else if code == 0x76 {
        Some(0x73)
    } else if code == 0x60 {
        Some(0x74)
    } else if code == 0x61 {
        Some(0x75)
    } else if code == 0x62 {
        Some(0x76)
    } else if code == 0x64 {
        Some(0x77)
    } else if code == 0x65 {
        Some(0x78)
    } else if code == 0x6D {
        Some(0x79)
    } else if code == 0x67 {
        Some(0x7A)
    } else if code == 0x6F {
        Some(0x7B)
    } else {
        None
    }
}

/// Windows virtual key of the left arrow key.
pub const VK_LEFT: i32 = 0x25;
/// Windows virtual key of the up arrow key.
pub const VK_UP: i32 = 0x26;
/// Windows virtual key of the right arrow key.
pub const VK_RIGHT: i32 = 0x27;
/// Windows virtual key of the down arrow key.
pub const VK_DOWN: i32 = 0x28;

/// Keys that stand for the same key to Windows: the two Return keys, and the
/// left and right Shift, Control and Option keys.
pub open spec fn same_windows_key(a: u16, b: u16) -> bool {
    let pair = |x: u16, y: u16| (a == x && b == y) || (a == y && b == x);
    pair(0x24, 0x4C) || pair(0x38, 0x3C) || pair(0x3B, 0x3E) || pair(0x3A, 0x3D)
}

/// The table tells keys apart: two different keys share a virtual key only
/// where Windows has one key for both (the Return keys and the left and
/// right modifier keys).
pub proof fn law_special_keys_distinct(a: u16, b: u16)
    ensures
        a != b && special_key_spec(a) is Some && special_key_spec(a) == special_key_spec(b)
            ==> same_windows_key(a, b),
{
}

/// Each arrow key becomes the Windows arrow key of its own direction,
/// whatever characters the event carries.
pub proof fn law_arrow_keys(chars: Option<Seq<char>>)
    ensures
        windows_key_code_spec(0x7B, chars) == VK_LEFT,
        windows_key_code_spec(0x7C, chars) == VK_RIGHT,
        windows_key_code_spec(0x7D, chars) == VK_DOWN,
        windows_key_code_spec(0x7E, chars) == VK_UP,
{
}

/// The virtual key table for keys that type no character.
pub fn special_windows_key_code(mac_key_code: u16) -> (r: Option<i32>)
    ensures
        r == special_key_spec(mac_key_code),
{
    let code = mac_key_code;
    if code == 0x24 || code == 0x4C {
        Some(0x0D)
    } else if code == 0x30 {
        Some(0x09)
    } else if code == 0x31 {
        Some(0x20)
    } else if code == 0x33 {
        Some(0x08)
    } else if code == 0x75 {
        Some(0x2E)
    } else if code == 0x35 {
        Some(0x1B)
    } else if code == 0x7B {
        Some(0x25)
    } else if code == 0x7C {
        Some(0x27)
    } else if code == 0x7D {
        Some(0x28)
    } else if code == 0x7E {
        Some(0x26)
    } else if code == 0x73 {
        Some(0x24)
    } else if code == 0x77 {
        Some(0x23)
    } else if code == 0x74 {
        Some(0x21)
    } else if code == 0x79 {
        Some(0x22)
    } else if code == 0x38 || code == 0x3C {
        Some(0x10)
    } else if code == 0x3B || code == 0x3E {
        Some(0x11)
    } else if code == 0x3A || code == 0x3D {
        Some(0x12)
    } else if code == 0x37 {
        Some(0x5B)
    } else if code == 0x36 {
        Some(0x5C)
    } else if code == 0x39 {
        Some(0x14)
    } else if code == 0x7A {
        Some(0x70)
    } else if code == 0x78 {
        Some(0x71)
    } else if code == 0x63 {
        Some(0x72)
    } else if code == 0x76 {
        Some(0x73)
    } else if code == 0x60 {
        Some(0x74)
    } else if code == 0x61 {
        Some(0x75)
    } else if code == 0x62 {
        Some(0x76)
    } else if code == 0x64 {
        Some(0x77)
    } else if code == 0x65 {
        Some(0x78)
    } else if code == 0x6D {
        Some(0x79)
    } else if code == 0x67 {
        Some(0x7A)
    } else if code == 0x6F {
        Some(0x7B)
    } else {
        None
    }
}

/// The code point of `c` upper-cased in ASCII (`char::to_ascii_uppercase`).
pub open spec fn ascii_upper_code(c: char) -> u32 {
    if 'a' <= c <= 'z' {
        ((c as u32) - 32) as u32
    } else {
        c as u32
    }
}

/// The Windows virtual key of a key event: the table for keys that type no
/// character, else the upper-cased ASCII code of the first character typed
/// without modifiers (0 where there is none or it is not ASCII).
pub open spec fn windows_key_code_spec(code: u16, chars: Option<Seq<char>>) -> i32 {
    match special_key_spec(code) {
        Some(vk) => vk,
        None => match chars {
            Some(cs) => if cs.len() > 0 && ascii_upper_code(cs[0]) < 128 {
                ascii_upper_code(cs[0]) as i32
            } else {
                0
            },
            None => 0,
        },
    }
}

/// macOS virtual key code to Windows virtual key, as
/// [`windows_key_code_spec`] says.
pub fn windows_key_code(mac_key_code: u16, chars_ignoring_modifiers: Option<&str>) -> (r: i32)
    ensures
        r == windows_key_code_spec(
            mac_key_code,
            match chars_ignoring_modifiers {
                Some(s) => Some(s@),
                None => None,
            },
        ),
{
    match special_windows_key_code(mac_key_code) {
        Some(vk) => vk,
        None => match chars_ignoring_modifiers {
            Some(s) => {
                let cs = to_chars(s);
                if cs.len() == 0 {
                    return 0;
                }
                let first = cs[0];
                let code: u32 = if 'a' <= first && first <= 'z' {
                    (first as u32) - 32
                } else {
                    first as u32
                };
                assert(code == ascii_upper_code(first));
                if code < 128 {
                    code as i32
                } else {
                    0
                }
            },
            None => 0,
        },
    }
}

/// For a modifier key's `flagsChanged`, whether the modifier is now down;
/// other keys count as down.
pub open spec fn is_modifier_pressed_spec(code: u16, flags: u32) -> bool {
    if code == 56 || code == 60 {
        flags & NS_MOD_SHIFT != 0
    } else if code == 59 || code == 62 {
        flags & NS_MOD_CONTROL != 0
    } else if code == 58 || code == 61 {
        flags & NS_MOD_OPTION != 0
    } else if code == 55 || code == 54 {
        flags & NS_MOD_COMMAND != 0
    } else if code == 57 {
        flags & NS_MOD_CAPS_LOCK != 0
    } else {
        true
    }
}

/// Whether the modifier of a `flagsChanged` event is now pressed.
pub fn is_modifier_pressed(mac_key_code: u16, flags: u32) -> (r: bool)
    ensures
        r == is_modifier_pressed_spec(mac_key_code, flags),
{
    let c = mac_key_code;
    if c == 56 || c == 60 {
        flags & NS_MOD_SHIFT != 0
    } else if c == 59 || c == 62 {
        flags & NS_MOD_CONTROL != 0
    } else if c == 58 || c == 61 {
        flags & NS_MOD_OPTION != 0
    } else if c == 55 || c == 54 {
        flags & NS_MOD_COMMAND != 0
    } else if c == 57 {
        flags & NS_MOD_CAPS_LOCK != 0
    } else {
        true
    }
}

/// The CEF cursor types that the host view tells apart.
#[derive(Debug, Clone, Copy, PartialEq, Eq, Structural)]
pub enum CursorKind {
    Pointer,
    Hand,
    IBeam,
    VerticalText,
    Cross,
    EastResize,
    WestResize,
    EastWestResize,
    ColumnResize,
    EastPanning,
    WestPanning,
    NorthResize,
    SouthResize,
    NorthSouthResize,
    RowResize,
    NorthPanning,
    SouthPanning,
    Grab,
    Grabbing,
    MiddlePanning,
    MiddlePanningVertical,
    NotAllowed,
    NoDrop,
    ZoomIn,
    ZoomOut,
    Move,
    NoCursor,
    Custom,
    /// Any other CEF cursor type.
    Other,
}

/// The host's cursor id for a CEF cursor type: 1 hand, 2 text, 3 cross,
/// 4 horizontal resize, 5 vertical resize, 6 grab, 7 grabbing, 8 not allowed,
/// 9 zoom in, 10 zoom out, 11 move, and 0 (the arrow) for all others.
pub open spec fn cursor_semantic_spec(kind: CursorKind) -> i32 {
    match kind {
        CursorKind::Hand => 1,
        CursorKind::IBeam | CursorKind::VerticalText => 2,
        CursorKind::Cross => 3,
        CursorKind::EastResize | CursorKind::WestResize | CursorKind::EastWestResize
        | CursorKind::ColumnResize | CursorKind::EastPanning | CursorKind::WestPanning => 4,
        CursorKind::NorthResize | CursorKind::SouthResize | CursorKind::NorthSouthResize
        | CursorKind::RowResize | CursorKind::NorthPanning | CursorKind::SouthPanning => 5,
        CursorKind::Grab => 6,
        CursorKind::Grabbing | CursorKind::MiddlePanning | CursorKind::MiddlePanningVertical => 7,
        CursorKind::NotAllowed | CursorKind::NoDrop => 8,
        CursorKind::ZoomIn => 9,
        CursorKind::ZoomOut => 10,
        CursorKind::Move => 11,
        _ => 0,
    }
}

/// The host's cursor id for a CEF cursor type; unmapped types get the arrow
/// so that no stuck custom cursor appears.
pub fn cursor_semantic(kind: CursorKind) -> (r: i32)
    ensures
        r == cursor_semantic_spec(kind),
{
    match kind {
        CursorKind::Hand => 1,
        CursorKind::IBeam | CursorKind::VerticalText => 2,
        CursorKind::Cross => 3,
        CursorKind::EastResize | CursorKind::WestResize | CursorKind::EastWestResize
        | CursorKind::ColumnResize | CursorKind::EastPanning | CursorKind::WestPanning => 4,
        CursorKind::NorthResize | CursorKind::SouthResize | CursorKind::NorthSouthResize
        | CursorKind::RowResize | CursorKind::NorthPanning | CursorKind::SouthPanning => 5,
        CursorKind::Grab => 6,
        CursorKind::Grabbing | CursorKind::MiddlePanning | CursorKind::MiddlePanningVertical => 7,
        CursorKind::NotAllowed | CursorKind::NoDrop => 8,
        CursorKind::ZoomIn => 9,
        CursorKind::ZoomOut => 10,
        CursorKind::Move => 11,
        _ => 0,
    }
}

/// A mouse button as CEF names it.
#[derive(Debug, Clone, Copy, PartialEq, Eq, Structural)]
pub enum MouseButtonKind {
    Left,
    Middle,
    Right,
}

/// The host's button number (1 right, 2 middle, anything else left) as a CEF
/// button.
pub fn mouse_button(button: i32) -> (r: MouseButtonKind)
    ensures
        r == (if button == 1 {
            MouseButtonKind::Right
        } else if button == 2 {
            MouseButtonKind::Middle
        } else {
            MouseButtonKind::Left
        }),
{
    if button == 1 {
        MouseButtonKind::Right
    } else if button == 2 {
        MouseButtonKind::Middle
    } else {
        MouseButtonKind::Left
    }
}

/// The CEF flag of the button held.
pub open spec fn mouse_button_flag_spec(button: i32) -> u32 {
    if button == 1 {
        EVENTFLAG_RIGHT_MOUSE_BUTTON
    } else if button == 2 {
        EVENTFLAG_MIDDLE_MOUSE_BUTTON
    } else {
        EVENTFLAG_LEFT_MOUSE_BUTTON
    }
}

/// The CEF flag of the button held, set on press and release alike.
pub fn mouse_button_flag(button: i32) -> (r: u32)
    ensures
        r == mouse_button_flag_spec(button),
{
    if button == 1 {
        EVENTFLAG_RIGHT_MOUSE_BUTTON
    } else if button == 2 {
        EVENTFLAG_MIDDLE_MOUSE_BUTTON
    } else {
        EVENTFLAG_LEFT_MOUSE_BUTTON
    }
}

/// The flags of a mouse event: the modifiers, plus the button held for
/// anything but the wheel when a button is given.
pub fn mouse_event_modifiers(event_type: i32, button: i32, flags: u32) -> (r: u32)
    ensures
        r == if button >= 0 && event_type != OSR_EVENT_MOUSE_WHEEL {
            cef_modifiers_spec(flags) | mouse_button_flag_spec(button)
        } else {
            cef_modifiers_spec(flags)
        },
{
    let mut m = cef_modifiers(flags);
    if button >= 0 && event_type != OSR_EVENT_MOUSE_WHEEL {
        m = m | mouse_button_flag(button);
    }
    m
}

/// The flags of a key event: the modifiers, the keypad flag for keypad keys
/// and the repeat flag for auto-repeats.
pub fn key_event_modifiers(mac_key_code: u16, flags: u32, is_repeat: bool) -> (r: u32)
    ensures
        r == ({
            let base = cef_modifiers_spec(flags);
            let pad = if flags & NS_MOD_NUMERIC_PAD != 0 || is_key_pad_code(mac_key_code) {
                base | EVENTFLAG_IS_KEY_PAD
            } else {
                base
            };
            if is_repeat {
                pad | EVENTFLAG_IS_REPEAT
            } else {
                pad
            }
        }),
{
    let mut m = cef_modifiers(flags);
    if is_key_pad_event(mac_key_code, flags) {
        m = m | EVENTFLAG_IS_KEY_PAD;
    }
    if is_repeat {
        m = m | EVENTFLAG_IS_REPEAT;
    }
    m
}

/// A key event CEF receives.
#[derive(Debug, Clone, Copy, PartialEq, Eq, Structural)]
pub enum KeyEventKind {
    KeyDown,
    KeyUp,
}

/// What a key-up (`key_type` 1) or `flagsChanged` (`key_type` 2) event sends;
/// key presses go through the deferred plan instead and send nothing here.
pub fn key_event_kind(key_type: i32, mac_key_code: u16, flags: u32) -> (r: Option<KeyEventKind>)
    ensures
        r == if key_type == 1 {
            Some(KeyEventKind::KeyUp)
        } else if key_type == 2 {
            if is_modifier_pressed_spec(mac_key_code, flags) {
                Some(KeyEventKind::KeyDown)
            } else {
                Some(KeyEventKind::KeyUp)
            }
        } else {
            None
        },
{
    if key_type == 1 {
        Some(KeyEventKind::KeyUp)
    } else if key_type == 2 {
        if is_modifier_pressed(mac_key_code, flags) {
            Some(KeyEventKind::KeyDown)
        } else {
            Some(KeyEventKind::KeyUp)
        }
    } else {
        None
    }
}

/// The number of UTF-16 code units of `s`.
pub open spec fn utf16_len(s: Seq<char>) -> nat
    decreases s.len(),
{
    if s.len() == 0 {
        0
    } else {
        utf16_len(s.drop_last()) + if (s.last() as u32) >= 0x10000 {
            2nat
        } else {
            1nat
        }
    }
}

/// Counts the UTF-16 code units of `s`, saturating at `usize::MAX`.
pub fn utf16_count(s: &str) -> (r: usize)
    ensures
        r == if utf16_len(s@) <= usize::MAX {
            utf16_len(s@)
        } else {
            usize::MAX as nat
        },
{
    let cs = to_chars(s);
    let mut n: usize = 0;
    let mut i: usize = 0;
    while i < cs.len()
        invariant
            i <= cs@.len(),
            cs@ == s@,
            n == if utf16_len(cs@.take(i as int)) <= usize::MAX {
                utf16_len(cs@.take(i as int))
            } else {
                usize::MAX as nat
            },
        decreases cs@.len() - i,
    {
        proof {
            assert(cs@.take(i + 1).drop_last() =~= cs@.take(i as int));
        }
        let w: usize = if (cs[i] as u32) >= 0x10000 {
            2
        } else {
            1
        };
        n = n.saturating_add(w);
        i += 1;
    }
    proof {
        assert(cs@.take(i as int) =~= cs@);
    }
    n
}

/// What one key press does once the input method has had it: the order is
/// plain key, commit, composition update, end of composition.
#[derive(Debug, Clone, PartialEq, Eq)]
pub struct DeferredKeyPlan {
    /// KEYDOWN + CHAR.
    pub send_plain_key: bool,
    /// Text to commit (paste, a candidate chosen).
    pub commit_text: Option<String>,
    /// The composition's new text.
    pub set_composition: Option<String>,
    /// The composition ends in a finish (the input method unmarked it).
    pub finish_composition: bool,
    /// The composition ends in a cancel (it was dropped).
    pub cancel_composition: bool,
}

/// The views of an optional string.
pub open spec fn opt_view(o: Option<&str>) -> Option<Seq<char>> {
    match o {
        Some(s) => Some(s@),
        None => None,
    }
}

/// The view of an optional owned string.
pub open spec fn opt_string_view(o: Option<String>) -> Option<Seq<char>> {
    match o {
        Some(s) => Some(s@),
        None => None,
    }
}

/// The deferred decision for one key press: without composition before or
/// after and at most one character to insert it is a plain key; text longer
/// than the threshold (none with a composition, one without) is committed; a
/// composition with text reports it, and one that went away ends in a finish
/// if the input method unmarked it and in a cancel otherwise.
pub fn deferred_key_plan(
    text_to_insert: Option<&str>,
    marked_text: Option<&str>,
    old_has_marked: bool,
    has_marked: bool,
    unmark_called: bool,
) -> (r: DeferredKeyPlan)
    ensures
        ({
            let len = match text_to_insert {
                Some(t) => utf16_len(t@),
                None => 0,
            };
            let threshold: nat = if has_marked || old_has_marked {
                0
            } else {
                1
            };
            &&& r.send_plain_key == (!has_marked && !old_has_marked && len <= 1)
            &&& opt_string_view(r.commit_text) == if len > threshold {
                opt_view(text_to_insert)
            } else {
                None
            }
            &&& opt_string_view(r.set_composition) == if has_marked && marked_text is Some {
                opt_view(marked_text)
            } else {
                None
            }
            &&& r.finish_composition == (!(has_marked && marked_text is Some) && old_has_marked
                && !has_marked && unmark_called)
            &&& r.cancel_composition == (!(has_marked && marked_text is Some) && old_has_marked
                && !has_marked && !unmark_called)
        }),
{
    let text_len: usize = match text_to_insert {
        Some(t) => utf16_count(t),
        None => 0,
    };
    proof {
        if let Some(t) = text_to_insert {
            if utf16_len(t@) > usize::MAX {
                assert(text_len == usize::MAX);
            }
        }
    }
    let send_plain_key = !has_marked && !old_has_marked && text_len <= 1;
    let threshold: usize = if has_marked || old_has_marked {
        0
    } else {
        1
    };
    let commit_text = if text_len > threshold {
        match text_to_insert {
            Some(t) => Some(t.to_owned()),
            None => None,
        }
    } else {
        None
    };
    let mut set_composition: Option<String> = None;
    let mut finish_composition = false;
    let mut cancel_composition = false;
    if has_marked && marked_text.is_some() {
        set_composition = match marked_text {
            Some(m) => Some(m.to_owned()),
            None => None,
        };
    } else if old_has_marked && !has_marked {
        finish_composition = unmark_called;
        cancel_composition = !unmark_called;
    }
    DeferredKeyPlan {
        send_plain_key,
        commit_text,
        set_composition,
        finish_composition,
        cancel_composition,
    }
}

/// A plan never both types a plain key and touches the composition or
/// commits, and a composition never ends in both a finish and a cancel.
pub proof fn law_deferred_plan_exclusive(
    plain: bool,
    commit: Option<Seq<char>>,
    composition: Option<Seq<char>>,
    finish: bool,
    cancel: bool,
    len: nat,
    has_marked: bool,
    old_has_marked: bool,
    marked_some: bool,
    unmark_called: bool,
)
    requires
        plain == (!has_marked && !old_has_marked && len <= 1),
        (commit is Some) ==> len > (if has_marked || old_has_marked {
            0nat
        } else {
            1nat
        }),
        (composition is Some) ==> has_marked && marked_some,
        finish == (!(has_marked && marked_some) && old_has_marked && !has_marked && unmark_called),
        cancel == (!(has_marked && marked_some) && old_has_marked && !has_marked && !unmark_called),
    ensures
        plain ==> commit is None && composition is None && !finish && !cancel,
        !(finish && cancel),
{
}

/// A UTF-16 range handed to CEF's IME calls.
#[derive(Debug, Clone, Copy, PartialEq, Eq, Structural)]
pub struct ImeRange {
    pub from: u32,
    pub to: u32,
}

/// The replacement range of an IME call: never missing (an explicit invalid
/// range, both ends `u32::MAX`, where there is nothing to replace, because a
/// missing range turns into `(0, 0)` and breaks the composition), and never
/// reversed.
pub fn ime_replacement_range(from: i32, to: i32) -> (r: ImeRange)
    ensures
        from < 0 ==> r == (ImeRange { from: u32::MAX, to: u32::MAX }),
        from >= 0 ==> r.from == from && r.to == (if to > from {
            to
        } else {
            from
        }),
        r.from <= r.to,
{
    if from < 0 {
        ImeRange { from: u32::MAX, to: u32::MAX }
    } else {
        let hi = if to > from {
            to
        } else {
            from
        };
        ImeRange { from: from as u32, to: hi as u32 }
    }
}

/// The rendering mode of the CEF backend.
#[derive(Debug, Clone, Copy, PartialEq, Eq, Structural)]
pub enum RenderMode {
    /// CEF's own child view (no true transparency); the default.
    Windowed,
    /// Windowless rendering into a host view; the only transparent path.
    Osr,
}

/// Only an explicit `1` or `true` (trimmed) turns windowless rendering on.
pub open spec fn parse_render_mode_spec(value: Option<Seq<char>>) -> RenderMode {
    match value {
        Some(v) => if trim(v) == "1"@ || trim(v) == "true"@ {
            RenderMode::Osr
        } else {
            RenderMode::Windowed
        },
        None => RenderMode::Windowed,
    }
}

/// Parses the mode switch, as [`parse_render_mode_spec`] says: unset, empty
/// and any other value keep the default.
pub fn parse_render_mode(value: Option<&str>) -> (r: RenderMode)
    ensures
        r == parse_render_mode_spec(opt_view(value)),
{
    match value {
        Some(v) => {
            let t = trim_chars(&to_chars(v));
            if crate::text::chars_eq(&t, &to_chars("1")) || crate::text::chars_eq(
                &t,
                &to_chars("true"),
            ) {
                RenderMode::Osr
            } else {
                RenderMode::Windowed
            }
        },
        None => RenderMode::Windowed,
    }
}

/// The mode: an environment override that is not blank decides (also to turn
/// the mode off); otherwise the setting.
pub open spec fn resolve_render_mode_spec(env_override: Option<Seq<char>>, setting_enabled: bool) -> RenderMode {
    match env_override {
        Some(v) => if trim(v).len() > 0 {
            parse_render_mode_spec(Some(v))
        } else if setting_enabled {
            RenderMode::Osr
        } else {
            RenderMode::Windowed
        },
        None => if setting_enabled {
            RenderMode::Osr
        } else {
            RenderMode::Windowed
        },
    }
}

/// Resolves the rendering mode, as [`resolve_render_mode_spec`] says.
pub fn resolve_render_mode(env_override: Option<&str>, setting_enabled: bool) -> (r: RenderMode)
    ensures
        r == resolve_render_mode_spec(opt_view(env_override), setting_enabled),
{
    match env_override {
        Some(v) => {
            let t = trim_chars(&to_chars(v));
            if t.len() > 0 {
                return parse_render_mode(Some(v));
            }
        },
        None => {},
    }
    if setting_enabled {
        RenderMode::Osr
    } else {
        RenderMode::Windowed
    }
}

/// The first UTF-16 code unit of `s`: the character itself below U+10000,
/// else its high surrogate; `None` for empty text.
pub open spec fn first_utf16_spec(s: Seq<char>) -> Option<u16> {
    if s.len() == 0 {
        None
    } else if (s[0] as u32) < 0x10000 {
        Some((s[0] as u32) as u16)
    } else {
        Some((0xD800 + ((s[0] as u32) - 0x10000) / 1024) as u16)
    }
}

/// The first UTF-16 code unit of `text`, as [`first_utf16_spec`] says.
pub fn first_utf16(text: &str) -> (r: Option<u16>)
    ensures
        r == first_utf16_spec(text@),
{
    let cs = to_chars(text);
    if cs.len() == 0 {
        return None;
    }
    let c = cs[0] as u32;
    if c < 0x10000 {
        Some(c as u16)
    } else {
        Some((0xD800 + (c - 0x10000) / 1024) as u16)
    }
}

/// The UTF-16 unit of an optional text, 0 (CEF's default) without one.
pub open spec fn unit_or_zero(text: Option<Seq<char>>) -> u16 {
    match text {
        Some(t) => match first_utf16_spec(t) {
            Some(u) => u,
            None => 0,
        },
        None => 0,
    }
}

/// The characters a key press carries to CEF.
#[derive(Debug, Clone, Copy, PartialEq, Eq, Structural)]
pub struct KeyCharacters {
    /// The KEYDOWN character: the first unit of the event's characters.
    pub character: u16,
    /// The first unit of the characters without modifiers.
    pub unmodified_character: u16,
    /// The CHAR character: the first unit of the text the input method
    /// inserted (dead keys and compositions differ from the event's
    /// characters), else the KEYDOWN character.
    pub char_character: u16,
}

/// The characters of a key press, as [`KeyCharacters`] describes them.
pub fn key_characters(
    chars: Option<&str>,
    chars_ignoring_modifiers: Option<&str>,
    text_to_insert: Option<&str>,
) -> (r: KeyCharacters)
    ensures
        r.character == unit_or_zero(opt_view(chars)),
        r.unmodified_character == unit_or_zero(opt_view(chars_ignoring_modifiers)),
        r.char_character == (match opt_view(text_to_insert) {
            Some(t) => match first_utf16_spec(t) {
                Some(u) => u,
                None => unit_or_zero(opt_view(chars)),
            },
            None => unit_or_zero(opt_view(chars)),
        }),
{
    let character = match chars {
        Some(c) => match first_utf16(c) {
            Some(u) => u,
            None => 0,
        },
        None => 0,
    };
    let unmodified_character = match chars_ignoring_modifiers {
        Some(c) => match first_utf16(c) {
            Some(u) => u,
            None => 0,
        },
        None => 0,
    };
    let char_character = match text_to_insert {
        Some(t) => match first_utf16(t) {
            Some(u) => u,
            None => character,
        },
        None => character,
    };
    KeyCharacters { character, unmodified_character, char_character }
}

/// The plain key events of a key press.
#[derive(Debug, Clone, Copy, PartialEq, Eq, Structural)]
pub enum PlainKeyEvents {
    /// The press goes through the input method's commit or composition.
    Nothing,
    /// KEYDOWN alone: the keypad Clear key, whose character is ESC and would
    /// insert a control character as CHAR.
    KeyDownOnly,
    /// KEYDOWN, then CHAR.
    KeyDownAndChar,
}

/// The plain key events of a press whose deferred plan says
/// `send_plain_key`.
pub fn plain_key_events(send_plain_key: bool, mac_key_code: u16, flags: u32) -> (r: PlainKeyEvents)
    ensures
        r == (if !send_plain_key {
            PlainKeyEvents::Nothing
        } else if (flags & NS_MOD_NUMERIC_PAD != 0 || is_key_pad_code(mac_key_code)) && mac_key_code
            == 71 {
            PlainKeyEvents::KeyDownOnly
        } else {
            PlainKeyEvents::KeyDownAndChar
        }),
{
    if !send_plain_key {
        PlainKeyEvents::Nothing
    } else if is_key_pad_event(mac_key_code, flags) && mac_key_code == 71 {
        PlainKeyEvents::KeyDownOnly
    } else {
        PlainKeyEvents::KeyDownAndChar
    }
}

/// The selection inside a composition: both ends clamped at 0.
pub fn marked_selection(from: i32, to: i32) -> (r: ImeRange)
    ensures
        r.from == (if from > 0 {
            from
        } else {
            0
        }),
        r.to == (if to > 0 {
            to
        } else {
            0
        }),
{
    let f: u32 = if from > 0 {
        from as u32
    } else {
        0
    };
    let t: u32 = if to > 0 {
        to as u32
    } else {
        0
    };
    ImeRange { from: f, to: t }
}

} // verus!
