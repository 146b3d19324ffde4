//! The client's decisions on the game thread: when to connect to the server
//! plugin, when sound and input are held back, and what each event from the
//! browsers, the network and the plugins leads to.
use vstd::prelude::*;
use crate::network::{Address, CEF_SERVER_PORT, plugin_address};
use crate::manager::{Manager, focus_step, callbacks_for};
use crate::input::{KeyStates, WindowAction, win_event, window_action_spec};
use crate::plugins::{ExternalManager, window_active};

verus! {

/// What the game thread knows of the client's progress.
#[derive(Debug, Clone, Copy, PartialEq, Eq, Structural)]
pub struct AppState {
    /// A connection to the server plugin was started.
    pub connected: bool,
    /// The game window has the focus.
    pub window_focused: bool,
    /// CEF finished initialising.
    pub cef_ready: bool,
    /// SA:MP's window procedure runs, so the game is ready.
    pub samp_ready: bool,
}

/// What a tick of the game thread begins with.
#[derive(Debug, Clone, Copy, PartialEq, Eq, Structural)]
pub struct TickStart {
    /// The tick does anything at all.
    pub run: bool,
    /// Start the connection to the server plugin at this address.
    pub connect_to: Option<Address>,
    /// Sound is paused.
    pub audio_paused: bool,
    /// Browser input is held back.
    pub input_corrupted: bool,
}

/// What the client is told by the browsers, the network and the plugins.
#[derive(Debug, Clone, Copy, PartialEq, Eq, Structural)]
pub enum AppEvent {
    Connect,
    Timeout,
    NetworkError,
    BadVersion,
    CreateBrowser { id: u32, hidden: bool, focused: bool },
    CreateExternBrowser(u32),
    DestroyBrowser(u32),
    HideBrowser(u32, bool),
    FocusBrowser(u32, bool),
    /// An event for the plugins' subscribers.
    EmitEvent,
    /// An event for the server.
    EmitEventOnServer,
    BrowserCreated(u32, i32),
    AppendToObject(u32, i32),
    RemoveFromObject(u32, i32),
    CefInitialize,
    BlockInput(bool),
    Terminate,
}

/// What the game thread does about an event.
#[derive(Debug, PartialEq, Eq)]
pub enum AppAction<C> {
    Nothing,
    /// A browser was recorded: start it (closing the one it replaced), hide it
    /// as asked, and show the cursor when input is now held by a browser.
    StartBrowser { id: u32, replaced: bool, hidden: bool, show_cursor: bool },
    /// Start a browser drawn on objects.
    StartExternBrowser(u32),
    /// Close the browser, if it existed.
    CloseBrowser { id: u32, existed: bool },
    HideBrowser(u32, bool),
    /// The focus changed: show the cursor when input is held by a browser.
    ShowCursor(bool),
    /// Hand the event to the plugins' subscribers.
    TriggerEvent,
    /// Send the event to the server.
    SendToServer,
    /// A browser loaded: tell the server if connected, and run the callbacks
    /// waiting for it.
    BrowserReady { id: u32, code: i32, tell_server: bool, callbacks: Vec<C> },
    /// CEF is ready: initialise the plugins.
    InitializePlugins,
    AttachToObject(u32, i32),
    DetachFromObject(u32, i32),
}

/// How a tick of the game thread begins. Until the game is ready nothing
/// happens. Once SA:MP is connected to a game server whose address is known,
/// the connection to the server plugin on the same host starts, once. Sound
/// pauses while a game menu is open or the window is inactive; browser input
/// is held back while the game's chat input, a dialog's input or a menu has
/// the keyboard, or the window is inactive.
pub open spec fn begin_tick_spec(
    s: AppState,
    samp_connected: bool,
    server: Option<Address>,
    input_active: bool,
    menu_active: bool,
) -> (AppState, TickStart) {
    if !s.samp_ready {
        (s, TickStart { run: false, connect_to: None, audio_paused: false, input_corrupted: false })
    } else {
        let starts = !s.connected && samp_connected && server is Some;
        (
            AppState { connected: s.connected || starts, ..s },
            TickStart {
                run: true,
                connect_to: if starts {
                    Some(Address { port: CEF_SERVER_PORT, ..server.unwrap() })
                } else {
                    None
                },
                audio_paused: menu_active || !s.window_focused,
                input_corrupted: input_active || !s.window_focused,
            },
        )
    }
}

/// The connection to the server plugin is started at most once: a tick
/// that starts it leaves the state connected, and a connected state starts
/// no connection again and stays connected, whatever happens.
pub proof fn law_connects_once(
    s: AppState,
    samp_connected: bool,
    server: Option<Address>,
    input_active: bool,
    menu_active: bool,
)
    ensures
        begin_tick_spec(s, samp_connected, server, input_active, menu_active).1.connect_to is Some
            ==> begin_tick_spec(s, samp_connected, server, input_active, menu_active).0.connected,
        s.connected ==> begin_tick_spec(s, samp_connected, server, input_active, menu_active).1.connect_to is None,
        s.connected ==> begin_tick_spec(s, samp_connected, server, input_active, menu_active).0.connected,
{
}

impl AppState {
    /// Nothing ready, not connected, the window focused.
    pub fn new() -> (s: AppState)
        ensures
            s == (AppState { connected: false, window_focused: true, cef_ready: false, samp_ready: false }),
    {
        AppState { connected: false, window_focused: true, cef_ready: false, samp_ready: false }
    }

    /// SA:MP's window procedure was reached: the game is ready.
    pub fn on_window_proc(&mut self)
        ensures
            *final(self) == (AppState { samp_ready: true, ..*old(self) }),
    {
        if !self.samp_ready {
            self.samp_ready = true;
        }
    }

    /// Begins a tick of the game thread (see `begin_tick_spec`).
    pub fn begin_tick(
        &mut self,
        samp_connected: bool,
        server: Option<Address>,
        input_active: bool,
        menu_active: bool,
    ) -> (t: TickStart)
        ensures
            (*final(self), t) == begin_tick_spec(*old(self), samp_connected, server, input_active, menu_active),
    {
        if !self.samp_ready {
            return TickStart { run: false, connect_to: None, audio_paused: false, input_corrupted: false };
        }
        let mut connect_to: Option<Address> = None;
        if !self.connected && samp_connected {
            match server {
                Some(addr) => {
                    connect_to = Some(plugin_address(addr));
                    self.connected = true;
                },
                None => {},
            }
        }
        TickStart {
            run: true,
            connect_to,
            audio_paused: menu_active || !self.window_focused,
            input_corrupted: input_active || !self.window_focused,
        }
    }

    /// Whether the plugins' main-loop entry point runs at the end of this tick:
    /// only once the game is ready and CEF has finished initialising.
    pub fn plugins_run(&self) -> (b: bool)
        ensures
            b == (self.samp_ready && self.cef_ready),
    {
        self.samp_ready && self.cef_ready
    }

    /// The game window was activated or deactivated: the focus is recorded,
    /// and browser input is held back while it is inactive, which the result
    /// says.
    pub fn on_activate(&mut self, active: bool) -> (corrupted: bool)
        ensures
            *final(self) == (AppState { window_focused: active, ..*old(self) }),
            corrupted == !active,
    {
        self.window_focused = active;
        !active
    }

    /// Handles an event on the game thread, with the browsers' `manager`;
    /// `has_network` says whether a connection to the server plugin exists.
    pub fn handle_event<C: Copy>(&mut self, manager: &mut Manager<C>, has_network: bool, event: AppEvent) -> (a: AppAction<C>)
        requires
            old(manager).wf(),
        ensures
            final(manager).wf(),
            *final(self) == (match event {
                AppEvent::CefInitialize => AppState { cef_ready: true, ..*old(self) },
                _ => *old(self),
            }),
            match event {
                AppEvent::CreateBrowser { id, hidden, focused } => {
                    let (f, q) = focus_step(old(manager).clients@.push(id), old(manager).focused,
                        old(manager).focused_queue@, id, focused);
                    &&& forall|x: u32| #[trigger] final(manager).clients@.contains(x) <==> (
                        old(manager).clients@.contains(x) || x == id)
                    &&& final(manager).focused == f
                    &&& final(manager).focused_queue@ == q
                    &&& a == AppAction::<C>::StartBrowser {
                        id,
                        replaced: old(manager).clients@.contains(id),
                        hidden,
                        show_cursor: f is Some,
                    }
                },
                AppEvent::FocusBrowser(id, focus) => {
                    let (f, q) = focus_step(old(manager).clients@, old(manager).focused,
                        old(manager).focused_queue@, id, focus);
                    &&& final(manager).clients == old(manager).clients
                    &&& final(manager).focused == f
                    &&& final(manager).focused_queue@ == q
                    &&& a == AppAction::<C>::ShowCursor(f is Some)
                },
                AppEvent::DestroyBrowser(id) => {
                    &&& forall|x: u32| #[trigger] final(manager).clients@.contains(x) <==> (
                        old(manager).clients@.contains(x) && x != id)
                    &&& final(manager).focused == old(manager).focused
                    &&& final(manager).focused_queue == old(manager).focused_queue
                    &&& a == AppAction::<C>::CloseBrowser { id, existed: old(manager).clients@.contains(id) }
                },
                AppEvent::BrowserCreated(id, code) => {
                    &&& *final(manager) == *old(manager)
                    &&& a matches AppAction::BrowserReady { id: i, code: c, tell_server, callbacks }
                    &&& i == id && c == code && tell_server == has_network
                    &&& callbacks@ == callbacks_for(old(manager).ready_callbacks@, id)
                },
                _ => {
                    &&& *final(manager) == *old(manager)
                    &&& a == match event {
                        AppEvent::CreateExternBrowser(id) => AppAction::<C>::StartExternBrowser(id),
                        AppEvent::HideBrowser(id, hide) => AppAction::<C>::HideBrowser(id, hide),
                        AppEvent::EmitEvent => AppAction::<C>::TriggerEvent,
                        AppEvent::EmitEventOnServer => if has_network {
                            AppAction::<C>::SendToServer
                        } else {
                            AppAction::<C>::Nothing
                        },
                        AppEvent::CefInitialize => AppAction::<C>::InitializePlugins,
                        AppEvent::AppendToObject(b, o) => AppAction::<C>::AttachToObject(b, o),
                        AppEvent::RemoveFromObject(b, o) => AppAction::<C>::DetachFromObject(b, o),
                        _ => AppAction::<C>::Nothing,
                    }
                },
            },
    {
        match event {
            AppEvent::CreateBrowser { id, hidden, focused } => {
                let replaced = manager.create_browser(id);
                proof {
                    assert(old(manager).clients@.push(id)[old(manager).clients@.len() as int] == id);
                    assert(old(manager).clients@.push(id).contains(id));
                    assert(manager.clients@.contains(id));
                }
                manager.browser_focus(id, focused);
                let show_cursor = manager.is_input_blocked();
                AppAction::StartBrowser { id, replaced, hidden, show_cursor }
            },
            AppEvent::FocusBrowser(id, focus) => {
                manager.browser_focus(id, focus);
                AppAction::ShowCursor(manager.is_input_blocked())
            },
            AppEvent::DestroyBrowser(id) => {
                let existed = manager.close_browser(id);
                AppAction::CloseBrowser { id, existed }
            },
            AppEvent::BrowserCreated(id, code) => {
                let callbacks = manager.call_browser_ready(id);
                AppAction::BrowserReady { id, code, tell_server: has_network, callbacks }
            },
            AppEvent::CreateExternBrowser(id) => AppAction::StartExternBrowser(id),
            AppEvent::HideBrowser(id, hide) => AppAction::HideBrowser(id, hide),
            AppEvent::EmitEvent => AppAction::TriggerEvent,
            AppEvent::EmitEventOnServer => if has_network {
                AppAction::SendToServer
            } else {
                AppAction::Nothing
            },
            AppEvent::CefInitialize => {
                self.cef_ready = true;
                AppAction::InitializePlugins
            },
            AppEvent::AppendToObject(b, o) => AppAction::AttachToObject(b, o),
            AppEvent::RemoveFromObject(b, o) => AppAction::DetachFromObject(b, o),
            _ => AppAction::Nothing,
        }
    }
}

/// What the game thread does with a window message.
#[derive(Debug, Clone, Copy, PartialEq, Eq, Structural)]
pub struct WindowStep {
    /// What the message asks for.
    pub action: WindowAction,
    /// The game's window procedure does not see the message.
    pub swallow: bool,
    /// The browser that a mouse or key event goes to, if any.
    pub target: Option<u32>,
}

/// The message is mouse or keyboard input.
pub open spec fn is_input(a: WindowAction) -> bool {
    !(a is Activate) && !(a is Ignore)
}

impl AppState {
    /// Handles a window message on the game thread, with the browsers'
    /// `manager` and the plugins `ext`. Mouse and key messages go to the
    /// browser holding input, and the game does not see them while a browser
    /// has the focus. Activating or deactivating the window tells the plugins,
    /// records the window focus and holds browser input back while the window
    /// is inactive; the game still sees that message, as any other.
    pub fn on_window_message<C: Copy>(
        &mut self,
        manager: &mut Manager<C>,
        ext: &mut Option<ExternalManager>,
        keys: KeyStates,
        msg: u32,
        wparam: u64,
        lparam: i64,
    ) -> (s: WindowStep)
        requires
            old(manager).wf(),
        ensures
            final(manager).wf(),
            s.action == window_action_spec(keys, msg, wparam, lparam),
            s.swallow == (is_input(s.action) && old(manager).focused is Some),
            s.target == (if is_input(s.action) { old(manager).input_target_spec() } else { None }),
            match s.action {
                WindowAction::Activate(a) => {
                    &&& *final(self) == (AppState { window_focused: a, ..*old(self) })
                    &&& final(manager).input_corrupted == !a
                    &&& final(manager).clients == old(manager).clients
                    &&& final(manager).focused == old(manager).focused
                    &&& final(manager).focused_queue == old(manager).focused_queue
                    &&& final(manager).mouse == old(manager).mouse
                    &&& final(manager).do_not_draw == old(manager).do_not_draw
                    &&& final(manager).ready_callbacks == old(manager).ready_callbacks
                    &&& final(manager).view_width == old(manager).view_width
                    &&& final(manager).view_height == old(manager).view_height
                    &&& match *final(ext) {
                        Some(m) => *old(ext) matches Some(o) && m.window_active == a && m.plugins == o.plugins,
                        None => *old(ext) is None,
                    }
                },
                _ => *final(self) == *old(self) && *final(manager) == *old(manager) && *final(ext) == *old(ext),
            },
    {
        let action = win_event(keys, msg, wparam, lparam);
        match action {
            WindowAction::Activate(a) => {
                window_active(ext, a);
                self.on_activate(a);
                manager.set_corrupted(!a);
                WindowStep { action, swallow: false, target: None }
            },
            WindowAction::Ignore => WindowStep { action, swallow: false, target: None },
            _ => {
                let target = manager.input_target();
                WindowStep { action, swallow: manager.is_input_blocked(), target }
            },
        }
    }
}

/// What the game's key-state query answers while the client runs: nothing
/// pressed while a browser holds input, or while the browsers cannot be
/// asked; the real state otherwise. `blocked` is `None` when the browsers'
/// manager is busy.
pub fn filtered_key_state(actual: u16, blocked: Option<bool>) -> (r: u16)
    ensures
        r == (if blocked == Some(false) { actual } else { 0u16 }),
{
    match blocked {
        Some(false) => actual,
        _ => 0,
    }
}

/// What is done about the sound of an object that shows a browser.
#[derive(Debug, Clone, Copy, PartialEq, Eq, Structural)]
pub enum ObjectSound {
    /// Place the object's sound at the object.
    Place,
    Mute,
}

/// An object's sound is heard while the object exists and is close enough
/// to the player.
pub fn object_sound(exists: bool, within_range: bool) -> (s: ObjectSound)
    ensures
        s == (if exists && within_range { ObjectSound::Place } else { ObjectSound::Mute }),
{
    if exists && within_range {
        ObjectSound::Place
    } else {
        ObjectSound::Mute
    }
}

} // verus!
