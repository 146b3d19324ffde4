use samp_cef::plugins::{gta_window_active, ExternalManager};
use samp_cef::input::{WindowAction, WM_ACTIVATE, WM_KEYDOWN, WM_MOUSEMOVE};
use samp_cef::app_state::{filtered_key_state, object_sound, AppAction, AppEvent, AppState, ObjectSound};
use samp_cef::manager::{Manager, MouseKey};
use samp_cef::network::{plugin_address, Address, ConnectionState, NetAction, Network, PacketId, CEF_SERVER_PORT};

fn manager_with(ids: &[u32]) -> Manager<u32> {
    let mut m: Manager<u32> = Manager::new();
    for &id in ids {
        assert!(!m.create_browser(id));
    }
    m
}

#[test]
fn creating_and_closing_browsers() {
    let mut m = manager_with(&[1, 2]);
    assert!(m.browser_exists(1));
    assert!(m.create_browser(1));
    assert_eq!(m.clients.len(), 2);
    assert!(m.close_browser(1));
    assert!(!m.browser_exists(1));
    assert!(!m.close_browser(1));
}

#[test]
fn focus_goes_first_come_first_served() {
    let mut m = manager_with(&[1, 2, 3]);
    m.browser_focus(1, true);
    m.browser_focus(2, true);
    m.browser_focus(3, true);
    assert_eq!(m.focused, Some(1));
    assert_eq!(m.focused_queue, vec![2, 3]);
    m.browser_focus(1, false);
    assert_eq!(m.focused, Some(2));
    m.browser_focus(3, false);
    assert_eq!(m.focused_queue, Vec::<u32>::new());
    m.browser_focus(2, false);
    assert_eq!(m.focused, None);
    assert!(!m.is_input_blocked());
}

#[test]
fn focusing_unknown_browsers_does_nothing() {
    let mut m = manager_with(&[1]);
    m.browser_focus(9, true);
    assert_eq!(m.focused, None);
}

#[test]
fn focus_then_unfocus_frees_input() {
    let mut m = manager_with(&[4]);
    m.browser_focus(4, true);
    assert!(m.is_input_blocked());
    assert_eq!(m.input_target(), Some(4));
    m.browser_focus(4, false);
    assert!(!m.is_input_blocked());
    assert_eq!(m.input_target(), None);
}

#[test]
fn input_availability() {
    let mut m = manager_with(&[1, 2]);
    assert!(m.is_input_available(1));
    m.browser_focus(1, true);
    assert!(m.is_input_available(1));
    assert!(!m.is_input_available(2));
    m.set_corrupted(true);
    assert!(!m.is_input_available(1));
    assert_eq!(m.input_target(), None);
    assert!(!m.try_focus(2));
    m.set_corrupted(false);
    assert!(!m.try_focus(2));
    m.browser_focus(1, false);
    assert!(m.try_focus(2));
    assert_eq!(m.focused, Some(2));
}

#[test]
fn mouse_state_and_flags() {
    let mut m = manager_with(&[1]);
    assert_eq!(m.record_mouse_click(MouseKey::Left, true), (0, 0, 0));
    assert_eq!(m.record_mouse_move(5, 6), 16);
    assert_eq!(m.record_mouse_click(MouseKey::Right, true), (5, 6, 2));
    assert_eq!(m.record_mouse_move(7, 8), 16 + 64);
    assert_eq!(m.record_mouse_click(MouseKey::Left, false), (7, 8, 0));
    assert_eq!(m.record_mouse_click(MouseKey::Middle, true), (7, 8, 1));
    assert_eq!(m.record_mouse_move(1, 1), 32 + 64);
}

#[test]
fn resize_and_drawing() {
    let mut m = manager_with(&[1, 2, 3]);
    assert!(m.resize(800, 600));
    assert!(!m.resize(800, 600));
    assert_eq!(m.draw_order(), vec![1, 2, 3]);
    m.browser_focus(2, true);
    assert_eq!(m.draw_order(), vec![1, 3, 2]);
    assert!(m.do_not_draw(true));
    assert!(!m.do_not_draw(true));
    assert_eq!(m.draw_order(), Vec::<u32>::new());
}

#[test]
fn ready_callbacks() {
    let mut m = manager_with(&[1, 2]);
    assert!(!m.add_browser_ready(1, 10, false));
    assert!(!m.add_browser_ready(1, 11, false));
    assert!(m.add_browser_ready(2, 20, true));
    assert_eq!(m.call_browser_ready(1), vec![10, 11]);
    assert_eq!(m.call_browser_ready(2), Vec::<u32>::new());
    assert_eq!(m.call_browser_ready(1), vec![10, 11]);
}

fn addr(port: u16) -> Address {
    Address { is_v6: false, ip: 0x7F00_0001, port }
}

#[test]
fn plugin_port_replaces_game_port() {
    assert_eq!(plugin_address(addr(7777)), addr(CEF_SERVER_PORT));
    assert_eq!(CEF_SERVER_PORT, 7779);
}

#[test]
fn joining_and_events() {
    let mut n = Network::new();
    assert_eq!(n.addr(), None);
    assert_eq!(n.emit_event(), NetAction::Nothing);
    assert_eq!(n.connect(addr(7779)), NetAction::SendJoinRequest(addr(7779)));
    assert_eq!(n.emit_event(), NetAction::Nothing);
    assert_eq!(n.handle_packet(PacketId::RequestJoin), NetAction::SendJoinRequest(addr(7779)));
    assert_eq!(n.handle_packet(PacketId::CreateBrowser), NetAction::Forward);
    assert_eq!(n.handle_join_response(true), NetAction::Nothing);
    assert_eq!(n.state, ConnectionState::Connected(addr(7779)));
    assert_eq!(n.emit_event(), NetAction::SendToServer(addr(7779)));
    assert_eq!(n.handle_packet(PacketId::RequestJoin), NetAction::Nothing);
    assert!(n.accepts_from(addr(7779)));
    assert!(!n.accepts_from(addr(1)));
    assert_eq!(n.timeout(addr(7779)), NetAction::ReportTimeout);
    assert_eq!(n.timeout(addr(1)), NetAction::Nothing);
}

#[test]
fn refused_join_reports_bad_version() {
    let mut n = Network::new();
    n.connect(addr(7779));
    assert_eq!(n.handle_join_response(false), NetAction::ReportBadVersion);
    assert_eq!(n.state, ConnectionState::Disconnected);
    assert_eq!(n.emit_event(), NetAction::Nothing);
    assert_eq!(n.handle_join_response(true), NetAction::Nothing);
}

#[test]
fn tick_waits_for_the_game_and_connects_once() {
    let mut app = AppState::new();
    let t = app.begin_tick(true, Some(addr(7777)), false, false);
    assert!(!t.run);
    app.on_window_proc();
    let t = app.begin_tick(false, Some(addr(7777)), true, false);
    assert!(t.run);
    assert_eq!(t.connect_to, None);
    assert!(t.input_corrupted);
    assert!(!t.audio_paused);
    let t = app.begin_tick(true, Some(addr(7777)), false, true);
    assert_eq!(t.connect_to, Some(addr(7779)));
    assert!(t.audio_paused);
    assert!(app.connected);
    let t = app.begin_tick(true, Some(addr(7777)), false, false);
    assert_eq!(t.connect_to, None);
}

#[test]
fn inactive_window_pauses_and_blocks() {
    let mut app = AppState::new();
    app.on_window_proc();
    assert!(app.on_activate(false));
    let t = app.begin_tick(false, None, false, false);
    assert!(t.audio_paused);
    assert!(t.input_corrupted);
    assert!(!app.on_activate(true));
    let t = app.begin_tick(false, None, false, false);
    assert!(!t.audio_paused && !t.input_corrupted);
}

#[test]
fn events_on_the_game_thread() {
    let mut app = AppState::new();
    let mut m: Manager<u32> = Manager::new();
    match app.handle_event(&mut m, false, AppEvent::CreateBrowser { id: 5, hidden: true, focused: true }) {
        AppAction::StartBrowser { id, replaced, hidden, show_cursor } => {
            assert_eq!((id, replaced, hidden, show_cursor), (5, false, true, true));
        }
        _ => panic!("expected a start"),
    }
    assert_eq!(m.focused, Some(5));
    assert_eq!(app.handle_event(&mut m, false, AppEvent::FocusBrowser(5, false)), AppAction::ShowCursor(false));
    assert_eq!(
        app.handle_event(&mut m, false, AppEvent::DestroyBrowser(5)),
        AppAction::CloseBrowser { id: 5, existed: true }
    );
    assert_eq!(app.handle_event(&mut m, false, AppEvent::EmitEventOnServer), AppAction::Nothing);
    assert_eq!(app.handle_event(&mut m, true, AppEvent::EmitEventOnServer), AppAction::SendToServer);
    assert!(!app.cef_ready);
    assert_eq!(app.handle_event(&mut m, true, AppEvent::CefInitialize), AppAction::InitializePlugins);
    assert!(app.cef_ready);
    m.create_browser(6);
    m.add_browser_ready(6, 42, false);
    match app.handle_event(&mut m, true, AppEvent::BrowserCreated(6, 200)) {
        AppAction::BrowserReady { id, code, tell_server, callbacks } => {
            assert_eq!((id, code, tell_server), (6, 200, true));
            assert_eq!(callbacks, vec![42]);
        }
        _ => panic!("expected readiness"),
    }
    assert_eq!(app.handle_event(&mut m, true, AppEvent::Timeout), AppAction::Nothing);
    assert_eq!(app.handle_event(&mut m, true, AppEvent::AppendToObject(6, 9)), AppAction::AttachToObject(6, 9));
}

#[test]
fn key_state_while_browsers_hold_input() {
    assert_eq!(filtered_key_state(0x8000, Some(false)), 0x8000);
    assert_eq!(filtered_key_state(0x8000, Some(true)), 0);
    assert_eq!(filtered_key_state(0x8000, None), 0);
}

#[test]
fn object_sound_by_distance() {
    assert_eq!(object_sound(true, true), ObjectSound::Place);
    assert_eq!(object_sound(true, false), ObjectSound::Mute);
    assert_eq!(object_sound(false, true), ObjectSound::Mute);
}

fn plain_keys() -> samp_cef::input::KeyStates {
    samp_cef::input::KeyStates {
        shift: false,
        control: false,
        menu: false,
        num_lock_on: false,
        caps_lock_on: false,
        left_shift: false,
        right_shift: false,
        left_control: false,
        right_control: false,
        left_menu: false,
        right_menu: false,
    }
}

#[test]
fn window_messages_are_swallowed_while_a_browser_holds_input() {
    let mut app = AppState::new();
    let mut m = manager_with(&[1]);
    let mut ext = Some(ExternalManager::new());

    let s = app.on_window_message(&mut m, &mut ext, plain_keys(), WM_MOUSEMOVE, 0, (4 << 16) | 3);
    assert_eq!(s.action, WindowAction::MouseMove(3, 4));
    assert!(!s.swallow);
    assert_eq!(s.target, None);

    m.browser_focus(1, true);
    let s = app.on_window_message(&mut m, &mut ext, plain_keys(), WM_KEYDOWN, 0x41, 0);
    assert!(s.swallow);
    assert_eq!(s.target, Some(1));

    let s = app.on_window_message(&mut m, &mut ext, plain_keys(), WM_ACTIVATE, 0, 0);
    assert_eq!(s.action, WindowAction::Activate(false));
    assert!(!s.swallow);
    assert!(!app.window_focused);
    assert!(m.input_corrupted);
    assert!(!gta_window_active(&ext));
    assert_eq!(m.focused, Some(1));

    let s = app.on_window_message(&mut m, &mut ext, plain_keys(), WM_MOUSEMOVE, 0, 0);
    assert!(s.swallow);
    assert_eq!(s.target, None);

    let s = app.on_window_message(&mut m, &mut ext, plain_keys(), 0x0010, 0, 0);
    assert_eq!(s.action, WindowAction::Ignore);
    assert!(!s.swallow);

    app.on_window_message(&mut m, &mut ext, plain_keys(), WM_ACTIVATE, 1, 0);
    assert!(app.window_focused && !m.input_corrupted && gta_window_active(&ext));
}

#[test]
fn plugins_run_once_cef_is_ready() {
    let mut app = AppState::new();
    let mut m: Manager<u32> = Manager::new();
    assert!(!app.plugins_run());
    app.handle_event(&mut m, false, AppEvent::CefInitialize);
    assert!(!app.plugins_run());
    app.on_window_proc();
    assert!(app.plugins_run());
}
