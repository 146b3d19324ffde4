//! Window messages of the game turned into browser input: which event a
//! message makes and the keyboard modifiers that go with a key.
use vstd::prelude::*;
use crate::manager::MouseKey;

verus! {

/// What a byte of the Windows-1251 code page decodes to, as encoding_rs reads it.
pub uninterp spec fn cp1251_decode(b: u8) -> Option<char>;

/// Decodes one byte as Windows-1251 with encoding_rs and takes the first
/// character. Claimed: the result is a function of the byte, and an ASCII
/// byte decodes to itself (the encoding is ASCII-compatible).
#[verifier::external_body]
fn decode_cp1251_byte(b: u8) -> (c: Option<char>)
    ensures
        c == cp1251_decode(b),
        b < 0x80 ==> c == Some(b as char),
{
    let bytes = [b];
    encoding_rs::WINDOWS_1251.decode(&bytes).0.chars().next()
}

/// Which modifier keys are down (and which toggles are on) as the message
/// arrives.
#[derive(Clone, Copy)]
pub struct KeyStates {
    pub shift: bool,
    pub control: bool,
    pub menu: bool,
    pub num_lock_on: bool,
    pub caps_lock_on: bool,
    pub left_shift: bool,
    pub right_shift: bool,
    pub left_control: bool,
    pub right_control: bool,
    pub left_menu: bool,
    pub right_menu: bool,
}

pub const VK_CLEAR: i32 = 0x0C;
pub const VK_RETURN: i32 = 0x0D;
pub const VK_SHIFT: i32 = 0x10;
pub const VK_CONTROL: i32 = 0x11;
pub const VK_MENU: i32 = 0x12;
pub const VK_PRIOR: i32 = 0x21;
pub const VK_NEXT: i32 = 0x22;
pub const VK_END: i32 = 0x23;
pub const VK_HOME: i32 = 0x24;
pub const VK_LEFT: i32 = 0x25;
pub const VK_UP: i32 = 0x26;
pub const VK_RIGHT: i32 = 0x27;
pub const VK_DOWN: i32 = 0x28;
pub const VK_INSERT: i32 = 0x2D;
pub const VK_DELETE: i32 = 0x2E;
pub const VK_LWIN: i32 = 0x5B;
pub const VK_RWIN: i32 = 0x5C;
pub const VK_NUMPAD0: i32 = 0x60;
pub const VK_NUMPAD9: i32 = 0x69;
pub const VK_MULTIPLY: i32 = 0x6A;
pub const VK_ADD: i32 = 0x6B;
pub const VK_SUBTRACT: i32 = 0x6D;
pub const VK_DECIMAL: i32 = 0x6E;
pub const VK_DIVIDE: i32 = 0x6F;
pub const VK_NUMLOCK: i32 = 0x90;

pub const EVENTFLAG_CAPS_LOCK_ON: u32 = 1;
pub const EVENTFLAG_SHIFT_DOWN: u32 = 2;
pub const EVENTFLAG_CONTROL_DOWN: u32 = 4;
pub const EVENTFLAG_ALT_DOWN: u32 = 8;
pub const EVENTFLAG_NUM_LOCK_ON: u32 = 256;
pub const EVENTFLAG_IS_KEY_PAD: u32 = 512;
pub const EVENTFLAG_IS_LEFT: u32 = 1024;
pub const EVENTFLAG_IS_RIGHT: u32 = 2048;

/// The key was flagged extended in the message (bit 24 of `lparam`).
pub open spec fn is_extended(lparam: i64) -> bool {
    (lparam >> 16) & 0x100 != 0
}

/// Keys of the navigation block, which sit on the keypad unless extended.
pub open spec fn is_navigation(key: i32) -> bool {
    key == VK_INSERT || key == VK_DELETE || key == VK_HOME || key == VK_END || key == VK_PRIOR || key
        == VK_NEXT || key == VK_UP || key == VK_DOWN || key == VK_LEFT || key == VK_RIGHT
}

/// Keys that are always on the keypad.
pub open spec fn is_numpad(key: i32) -> bool {
    key == VK_NUMLOCK || (VK_NUMPAD0 <= key <= VK_NUMPAD9) || key == VK_DIVIDE || key == VK_MULTIPLY
        || key == VK_SUBTRACT || key == VK_ADD || key == VK_DECIMAL || key == VK_CLEAR
}

/// The key is one on the keypad: an extended Return, a navigation key that
/// is not extended, or a numeric keypad key.
pub open spec fn on_keypad(key: i32, lparam: i64) -> bool {
    (key == VK_RETURN && is_extended(lparam)) || (is_navigation(key) && !is_extended(lparam))
        || is_numpad(key)
}

/// The key is the left one of a pair.
pub open spec fn is_left_key(k: KeyStates, key: i32) -> bool {
    (key == VK_SHIFT && k.left_shift) || (key == VK_CONTROL && k.left_control) || (key == VK_MENU
        && k.left_menu) || key == VK_LWIN
}

/// The key is the right one of a pair (the left one being checked first).
pub open spec fn is_right_key(k: KeyStates, key: i32) -> bool {
    (key == VK_SHIFT && !k.left_shift && k.right_shift) || (key == VK_CONTROL && !k.left_control
        && k.right_control) || (key == VK_MENU && !k.left_menu && k.right_menu) || key == VK_RWIN
}

pub open spec fn flag(b: bool, f: u32) -> int {
    if b {
        f as int
    } else {
        0
    }
}

/// CEF's modifier flags for a key message.
pub open spec fn keyboard_modifiers_spec(k: KeyStates, key: i32, lparam: i64) -> int {
    flag(k.shift, EVENTFLAG_SHIFT_DOWN) + flag(k.control, EVENTFLAG_CONTROL_DOWN) + flag(
        k.menu,
        EVENTFLAG_ALT_DOWN,
    ) + flag(k.num_lock_on, EVENTFLAG_NUM_LOCK_ON) + flag(k.caps_lock_on, EVENTFLAG_CAPS_LOCK_ON)
        + flag(on_keypad(key, lparam), EVENTFLAG_IS_KEY_PAD) + flag(is_left_key(k, key), EVENTFLAG_IS_LEFT)
        + flag(is_right_key(k, key), EVENTFLAG_IS_RIGHT)
}

/// CEF's modifier flags for the key `key` of a message with `lparam`.
pub fn cef_keyboard_modifiers(keys: KeyStates, key: i32, lparam: i64) -> (m: u32)
    ensures
        m == keyboard_modifiers_spec(keys, key, lparam),
{
    let mut m: u32 = 0;
    if keys.shift {
        m = m + EVENTFLAG_SHIFT_DOWN;
    }
    if keys.control {
        m = m + EVENTFLAG_CONTROL_DOWN;
    }
    if keys.menu {
        m = m + EVENTFLAG_ALT_DOWN;
    }
    if keys.num_lock_on {
        m = m + EVENTFLAG_NUM_LOCK_ON;
    }
    if keys.caps_lock_on {
        m = m + EVENTFLAG_CAPS_LOCK_ON;
    }
    let extended = (lparam >> 16) & 0x100 != 0;
    if key == VK_RETURN {
        if extended {
            m = m + EVENTFLAG_IS_KEY_PAD;
        }
    } else if key == VK_INSERT || key == VK_DELETE || key == VK_HOME || key == VK_END || key == VK_PRIOR
        || key == VK_NEXT || key == VK_UP || key == VK_DOWN || key == VK_LEFT || key == VK_RIGHT {
        if !extended {
            m = m + EVENTFLAG_IS_KEY_PAD;
        }
    } else if key == VK_NUMLOCK || (VK_NUMPAD0 <= key && key <= VK_NUMPAD9) || key == VK_DIVIDE || key
        == VK_MULTIPLY || key == VK_SUBTRACT || key == VK_ADD || key == VK_DECIMAL || key == VK_CLEAR {
        m = m + EVENTFLAG_IS_KEY_PAD;
    } else if key == VK_SHIFT {
        if keys.left_shift {
            m = m + EVENTFLAG_IS_LEFT;
        } else if keys.right_shift {
            m = m + EVENTFLAG_IS_RIGHT;
        }
    } else if key == VK_CONTROL {
        if keys.left_control {
            m = m + EVENTFLAG_IS_LEFT;
        } else if keys.right_control {
            m = m + EVENTFLAG_IS_RIGHT;
        }
    } else if key == VK_MENU {
        if keys.left_menu {
            m = m + EVENTFLAG_IS_LEFT;
        } else if keys.right_menu {
            m = m + EVENTFLAG_IS_RIGHT;
        }
    } else if key == VK_LWIN {
        m = m + EVENTFLAG_IS_LEFT;
    } else if key == VK_RWIN {
        m = m + EVENTFLAG_IS_RIGHT;
    }
    m
}

pub const WM_ACTIVATE: u32 = 0x0006;
pub const WM_KEYDOWN: u32 = 0x0100;
pub const WM_KEYUP: u32 = 0x0101;
pub const WM_CHAR: u32 = 0x0102;
pub const WM_SYSKEYDOWN: u32 = 0x0104;
pub const WM_SYSKEYUP: u32 = 0x0105;
pub const WM_SYSCHAR: u32 = 0x0106;
pub const WM_MOUSEMOVE: u32 = 0x0200;
pub const WM_LBUTTONDOWN: u32 = 0x0201;
pub const WM_LBUTTONUP: u32 = 0x0202;
pub const WM_RBUTTONDOWN: u32 = 0x0204;
pub const WM_RBUTTONUP: u32 = 0x0205;
pub const WM_MBUTTONDOWN: u32 = 0x0207;
pub const WM_MBUTTONUP: u32 = 0x0208;
pub const WM_MOUSEWHEEL: u32 = 0x020A;

/// The kind of a key event (`cef_key_event_type_t`).
#[derive(Debug, Clone, Copy, PartialEq, Eq, Structural)]
pub enum KeyEventKind {
    RawKeyDown,
    KeyUp,
    Char,
}

/// A key event for the browser.
#[derive(Debug, Clone, Copy, PartialEq, Eq, Structural)]
pub struct KeyEvent {
    pub kind: KeyEventKind,
    pub windows_key_code: i32,
    pub native_key_code: i32,
    pub modifiers: u32,
    pub is_system_key: bool,
}

/// What a window message asks for.
#[derive(Debug, Clone, Copy, PartialEq, Eq, Structural)]
pub enum WindowAction {
    MouseMove(i32, i32),
    MouseClick(MouseKey, bool),
    MouseWheel(i32),
    Key(KeyEvent),
    /// The window became active or inactive.
    Activate(bool),
    Ignore,
}

/// The key event of a keyboard message: the key code is the message's, except
/// that a character message carries the character its byte stands for in the
/// Windows-1251 code page.
pub open spec fn key_event_spec(keys: KeyStates, msg: u32, wparam: u64, lparam: i64) -> KeyEvent {
    let kind = if msg == WM_KEYDOWN || msg == WM_SYSKEYDOWN {
        KeyEventKind::RawKeyDown
    } else if msg == WM_KEYUP || msg == WM_SYSKEYUP {
        KeyEventKind::KeyUp
    } else {
        KeyEventKind::Char
    };
    let code = wparam as i32;
    KeyEvent {
        kind,
        windows_key_code: if kind == KeyEventKind::Char {
            match cp1251_decode(wparam as u8) {
                Some(c) => c as i32,
                None => code,
            }
        } else {
            code
        },
        native_key_code: lparam as i32,
        modifiers: keyboard_modifiers_spec(keys, code, lparam) as u32,
        is_system_key: msg == WM_SYSCHAR || msg == WM_SYSKEYDOWN || msg == WM_SYSKEYUP,
    }
}

/// What the window message `msg` asks for: mouse moves carry the position
/// from `lparam`, the wheel a step of one up or down, activation whether the
/// window is now active; key messages a key event.
pub open spec fn window_action_spec(keys: KeyStates, msg: u32, wparam: u64, lparam: i64) -> WindowAction {
    if msg == WM_MOUSEMOVE {
        WindowAction::MouseMove((lparam as u16) as i32, ((lparam >> 16) as u16) as i32)
    } else if msg == WM_LBUTTONDOWN {
        WindowAction::MouseClick(MouseKey::Left, true)
    } else if msg == WM_LBUTTONUP {
        WindowAction::MouseClick(MouseKey::Left, false)
    } else if msg == WM_RBUTTONDOWN {
        WindowAction::MouseClick(MouseKey::Right, true)
    } else if msg == WM_RBUTTONUP {
        WindowAction::MouseClick(MouseKey::Right, false)
    } else if msg == WM_MBUTTONDOWN {
        WindowAction::MouseClick(MouseKey::Middle, true)
    } else if msg == WM_MBUTTONUP {
        WindowAction::MouseClick(MouseKey::Middle, false)
    } else if msg == WM_MOUSEWHEEL {
        WindowAction::MouseWheel(if ((wparam >> 16) as i16) > 0 { 1i32 } else { -1i32 })
    } else if msg == WM_KEYDOWN || msg == WM_KEYUP || msg == WM_CHAR || msg == WM_SYSCHAR || msg
        == WM_SYSKEYDOWN || msg == WM_SYSKEYUP {
        WindowAction::Key(key_event_spec(keys, msg, wparam, lparam))
    } else if msg == WM_ACTIVATE {
        WindowAction::Activate(((wparam & 0xFFFF) as u16) != 0)
    } else {
        WindowAction::Ignore
    }
}

/// Each mouse button message is a click of that same button, pressed exactly
/// for the `..DOWN` messages, whatever keys are held and whatever the message
/// carries; any other message is no click at all.
pub proof fn law_button_messages_click_their_button(keys: KeyStates, msg: u32, wparam: u64, lparam: i64)
    ensures
        window_action_spec(keys, 0x0201, wparam, lparam) == WindowAction::MouseClick(MouseKey::Left, true),
        window_action_spec(keys, 0x0202, wparam, lparam) == WindowAction::MouseClick(MouseKey::Left, false),
        window_action_spec(keys, 0x0204, wparam, lparam) == WindowAction::MouseClick(MouseKey::Right, true),
        window_action_spec(keys, 0x0205, wparam, lparam) == WindowAction::MouseClick(MouseKey::Right, false),
        window_action_spec(keys, 0x0207, wparam, lparam) == WindowAction::MouseClick(MouseKey::Middle, true),
        window_action_spec(keys, 0x0208, wparam, lparam) == WindowAction::MouseClick(MouseKey::Middle, false),
        (window_action_spec(keys, msg, wparam, lparam) is MouseClick) == (msg == 0x0201 || msg == 0x0202
            || msg == 0x0204 || msg == 0x0205 || msg == 0x0207 || msg == 0x0208),
{
}

/// Turns a window message into what it asks for.
pub fn win_event(keys: KeyStates, msg: u32, wparam: u64, lparam: i64) -> (a: WindowAction)
    ensures
        a == window_action_spec(keys, msg, wparam, lparam),
        msg == 0x0201 ==> a == WindowAction::MouseClick(MouseKey::Left, true),
        msg == 0x0202 ==> a == WindowAction::MouseClick(MouseKey::Left, false),
        msg == 0x0204 ==> a == WindowAction::MouseClick(MouseKey::Right, true),
        msg == 0x0205 ==> a == WindowAction::MouseClick(MouseKey::Right, false),
        msg == 0x0207 ==> a == WindowAction::MouseClick(MouseKey::Middle, true),
        msg == 0x0208 ==> a == WindowAction::MouseClick(MouseKey::Middle, false),
        msg == 0x020A ==> (a matches WindowAction::MouseWheel(d) && (d == 1 || d == -1)),
{
    if msg == WM_MOUSEMOVE {
        WindowAction::MouseMove((lparam as u16) as i32, ((lparam >> 16) as u16) as i32)
    } else if msg == WM_LBUTTONDOWN {
        WindowAction::MouseClick(MouseKey::Left, true)
    } else if msg == WM_LBUTTONUP {
        WindowAction::MouseClick(MouseKey::Left, false)
    } else if msg == WM_RBUTTONDOWN {
        WindowAction::MouseClick(MouseKey::Right, true)
    } else if msg == WM_RBUTTONUP {
        WindowAction::MouseClick(MouseKey::Right, false)
    } else if msg == WM_MBUTTONDOWN {
        WindowAction::MouseClick(MouseKey::Middle, true)
    } else if msg == WM_MBUTTONUP {
        WindowAction::MouseClick(MouseKey::Middle, false)
    } else if msg == WM_MOUSEWHEEL {
        WindowAction::MouseWheel(if ((wparam >> 16) as i16) > 0 { 1 } else { -1 })
    } else if msg == WM_KEYDOWN || msg == WM_KEYUP || msg == WM_CHAR || msg == WM_SYSCHAR || msg
        == WM_SYSKEYDOWN || msg == WM_SYSKEYUP {
        let kind = if msg == WM_KEYDOWN || msg == WM_SYSKEYDOWN {
            KeyEventKind::RawKeyDown
        } else if msg == WM_KEYUP || msg == WM_SYSKEYUP {
            KeyEventKind::KeyUp
        } else {
            KeyEventKind::Char
        };
        let code = wparam as i32;
        let windows_key_code = if msg == WM_CHAR || msg == WM_SYSCHAR {
            match decode_cp1251_byte(wparam as u8) {
                Some(c) => c as i32,
                None => code,
            }
        } else {
            code
        };
        WindowAction::Key(
            KeyEvent {
                kind,
                windows_key_code,
                native_key_code: lparam as i32,
                modifiers: cef_keyboard_modifiers(keys, code, lparam),
                is_system_key: msg == WM_SYSCHAR || msg == WM_SYSKEYDOWN || msg == WM_SYSKEYUP,
            },
        )
    } else if msg == WM_ACTIVATE {
        WindowAction::Activate(((wparam & 0xFFFF) as u16) != 0)
    } else {
        WindowAction::Ignore
    }
}

} // verus!
