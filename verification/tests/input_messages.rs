use samp_cef::messages::request_answer;
use samp_cef::messages::{route_event, route_handled, EventRoute, EXTERNAL_BREAK};
use samp_cef::input::{
    cef_keyboard_modifiers, win_event, KeyEventKind, KeyStates, WindowAction, EVENTFLAG_ALT_DOWN,
    EVENTFLAG_CAPS_LOCK_ON, EVENTFLAG_CONTROL_DOWN, EVENTFLAG_IS_KEY_PAD, EVENTFLAG_IS_LEFT,
    EVENTFLAG_IS_RIGHT, EVENTFLAG_NUM_LOCK_ON, EVENTFLAG_SHIFT_DOWN, VK_CONTROL, VK_LEFT,
    VK_NUMPAD0, VK_RETURN, VK_RWIN, VK_SHIFT, WM_ACTIVATE, WM_CHAR, WM_KEYDOWN, WM_KEYUP,
    WM_LBUTTONDOWN, WM_MBUTTONUP, WM_MOUSEMOVE, WM_MOUSEWHEEL, WM_RBUTTONUP, WM_SYSKEYDOWN,
};
use samp_cef::manager::MouseKey;
use samp_cef::messages::{append_decimal, event_arguments, on_process_message, ArgValue, PageRequest};

fn no_keys() -> KeyStates {
    KeyStates {
        shift: false,
        control: false,
        menu: false,
        num_lock_on: false,
        caps_lock_on: false,
        left_shift: false,
        right_shift: false,
        left_control: false,
        right_control: false,
        left_menu: false,
        right_menu: false,
    }
}

const EXTENDED: i64 = 0x0100_0000;

#[test]
fn modifiers_of_held_keys_and_toggles() {
    let keys = KeyStates { shift: true, menu: true, num_lock_on: true, caps_lock_on: true, ..no_keys() };
    assert_eq!(
        cef_keyboard_modifiers(keys, 0x41, 0),
        EVENTFLAG_SHIFT_DOWN | EVENTFLAG_ALT_DOWN | EVENTFLAG_NUM_LOCK_ON | EVENTFLAG_CAPS_LOCK_ON
    );
    assert_eq!(cef_keyboard_modifiers(no_keys(), 0x41, 0), 0);
}

#[test]
fn keypad_keys_are_flagged() {
    assert_eq!(cef_keyboard_modifiers(no_keys(), VK_RETURN, EXTENDED), EVENTFLAG_IS_KEY_PAD);
    assert_eq!(cef_keyboard_modifiers(no_keys(), VK_RETURN, 0), 0);
    assert_eq!(cef_keyboard_modifiers(no_keys(), VK_LEFT, 0), EVENTFLAG_IS_KEY_PAD);
    assert_eq!(cef_keyboard_modifiers(no_keys(), VK_LEFT, EXTENDED), 0);
    assert_eq!(cef_keyboard_modifiers(no_keys(), VK_NUMPAD0, 0), EVENTFLAG_IS_KEY_PAD);
}

#[test]
fn left_and_right_keys_are_told_apart() {
    let left = KeyStates { shift: true, left_shift: true, right_shift: true, ..no_keys() };
    assert_eq!(cef_keyboard_modifiers(left, VK_SHIFT, 0), EVENTFLAG_SHIFT_DOWN | EVENTFLAG_IS_LEFT);
    let right = KeyStates { control: true, right_control: true, ..no_keys() };
    assert_eq!(cef_keyboard_modifiers(right, VK_CONTROL, 0), EVENTFLAG_CONTROL_DOWN | EVENTFLAG_IS_RIGHT);
    assert_eq!(cef_keyboard_modifiers(no_keys(), VK_RWIN, 0), EVENTFLAG_IS_RIGHT);
}

#[test]
fn mouse_messages() {
    assert_eq!(win_event(no_keys(), WM_MOUSEMOVE, 0, (20 << 16) | 10), WindowAction::MouseMove(10, 20));
    assert_eq!(win_event(no_keys(), WM_LBUTTONDOWN, 0, 0), WindowAction::MouseClick(MouseKey::Left, true));
    assert_eq!(win_event(no_keys(), WM_RBUTTONUP, 0, 0), WindowAction::MouseClick(MouseKey::Right, false));
    assert_eq!(win_event(no_keys(), WM_MBUTTONUP, 0, 0), WindowAction::MouseClick(MouseKey::Middle, false));
    assert_eq!(win_event(no_keys(), WM_MOUSEWHEEL, 120 << 16, 0), WindowAction::MouseWheel(1));
    assert_eq!(win_event(no_keys(), WM_MOUSEWHEEL, 0xFF88 << 16, 0), WindowAction::MouseWheel(-1));
}

#[test]
fn key_messages() {
    match win_event(no_keys(), WM_KEYDOWN, 0x41, 0x1E0001) {
        WindowAction::Key(e) => {
            assert_eq!(e.kind, KeyEventKind::RawKeyDown);
            assert_eq!(e.windows_key_code, 0x41);
            assert_eq!(e.native_key_code, 0x1E0001);
            assert!(!e.is_system_key);
        }
        other => panic!("unexpected {:?}", other),
    }
    match win_event(no_keys(), WM_SYSKEYDOWN, 0x12, 0) {
        WindowAction::Key(e) => {
            assert_eq!(e.kind, KeyEventKind::RawKeyDown);
            assert!(e.is_system_key);
        }
        other => panic!("unexpected {:?}", other),
    }
    match win_event(no_keys(), WM_KEYUP, 0x41, 0) {
        WindowAction::Key(e) => assert_eq!(e.kind, KeyEventKind::KeyUp),
        other => panic!("unexpected {:?}", other),
    }
}

#[test]
fn characters_are_read_as_windows_1251() {
    match win_event(no_keys(), WM_CHAR, 0xC0, 0) {
        WindowAction::Key(e) => {
            assert_eq!(e.kind, KeyEventKind::Char);
            assert_eq!(e.windows_key_code, 0x410);
        }
        other => panic!("unexpected {:?}", other),
    }
    match win_event(no_keys(), WM_CHAR, 0x61, 0) {
        WindowAction::Key(e) => assert_eq!(e.windows_key_code, 0x61),
        other => panic!("unexpected {:?}", other),
    }
}

#[test]
fn activation_and_other_messages() {
    assert_eq!(win_event(no_keys(), WM_ACTIVATE, 1, 0), WindowAction::Activate(true));
    assert_eq!(win_event(no_keys(), WM_ACTIVATE, 0x10000, 0), WindowAction::Activate(false));
    assert_eq!(win_event(no_keys(), 0x0010, 0, 0), WindowAction::Ignore);
}

#[test]
fn page_messages() {
    assert!(matches!(on_process_message("set_focus", &ArgValue::Int(1)), PageRequest::SetFocus(true)));
    assert!(matches!(on_process_message("set_focus", &ArgValue::Int(2)), PageRequest::SetFocus(false)));
    assert!(matches!(on_process_message("hide", &ArgValue::Bool(true)), PageRequest::Hide(true)));
    assert!(matches!(on_process_message("hide", &ArgValue::Other), PageRequest::Hide(false)));
    match on_process_message("emit_event", &ArgValue::Str("game:ready".to_string())) {
        PageRequest::EmitEvent(n) => assert_eq!(n, "game:ready"),
        _ => panic!("expected an event"),
    }
    assert!(matches!(on_process_message("emit_event", &ArgValue::Int(3)), PageRequest::Swallow));
    assert!(matches!(on_process_message("other", &ArgValue::Int(1)), PageRequest::Unknown));
}

#[test]
fn event_arguments_are_written_out() {
    let args = vec![
        ArgValue::Str("name".to_string()),
        ArgValue::Str("hello".to_string()),
        ArgValue::Bool(true),
        ArgValue::Bool(false),
        ArgValue::Int(-42),
        ArgValue::Double(format!("{}", 1.5f64)),
        ArgValue::Other,
    ];
    assert_eq!(event_arguments(&args), "hello 1 0 -42 1.5 CEF_NULL ");
    assert_eq!(event_arguments(&vec![ArgValue::Int(1)]), "");
    assert_eq!(event_arguments(&vec![]), "");
}

#[test]
fn decimals() {
    let mut s = String::from("x");
    append_decimal(&mut s, 0);
    append_decimal(&mut s, i32::MIN);
    append_decimal(&mut s, 1907);
    assert_eq!(s, "x0-21474836481907");
}

#[test]
fn events_handled_by_a_plugin_stay_off_the_server() {
    let args = vec![ArgValue::Str("ev".to_string()), ArgValue::Str("a".to_string()), ArgValue::Bool(true), ArgValue::Int(5)];
    match route_event(&args, None) {
        EventRoute::ToServer(n, t) => {
            assert_eq!(n, "ev");
            assert_eq!(t, "a 1 5 ");
        }
        _ => panic!("expected the server"),
    }
    match route_event(&args, Some(0)) {
        r @ EventRoute::ToServer(_, _) => assert!(!route_handled(&r)),
        _ => panic!("expected the server"),
    }
    let r = route_event(&args, Some(EXTERNAL_BREAK));
    assert!(matches!(r, EventRoute::HandledByPlugin));
    assert!(route_handled(&r));
    let r = route_event(&vec![ArgValue::Int(1)], Some(EXTERNAL_BREAK));
    assert!(matches!(r, EventRoute::Swallow));
    assert!(route_handled(&r));
    assert!(matches!(route_event(&vec![], None), EventRoute::Swallow));
}

#[test]
fn page_requests_answer_cef() {
    assert_eq!(request_answer(&on_process_message("set_focus", &ArgValue::Int(1))), Some(true));
    assert_eq!(request_answer(&on_process_message("hide", &ArgValue::Bool(false))), Some(true));
    assert_eq!(request_answer(&on_process_message("emit_event", &ArgValue::Int(1))), Some(true));
    assert_eq!(request_answer(&on_process_message("other", &ArgValue::Int(1))), Some(false));
    assert_eq!(request_answer(&on_process_message("emit_event", &ArgValue::Str("e".to_string()))), None);
}
