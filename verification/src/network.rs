//! The client's side of the connection to the server plugin: joining, being
//! accepted or refused, and which traffic is handled in which state.
use vstd::prelude::*;

verus! {

/// A server's address.
#[derive(Debug, Clone, Copy, PartialEq, Eq, Structural)]
pub struct Address {
    pub is_v6: bool,
    pub ip: u128,
    pub port: u16,
}

/// Where the connection stands.
#[derive(Debug, Clone, Copy, PartialEq, Eq, Structural)]
pub enum ConnectionState {
    /// A join request was sent to the server; its answer is awaited.
    Auth(Address),
    /// The server accepted the join.
    Connected(Address),
    Disconnected,
}

/// The kinds of packet the server sends.
#[derive(Debug, Clone, Copy, PartialEq, Eq, Structural)]
pub enum PacketId {
    RequestJoin,
    JoinResponse,
    CreateBrowser,
    DestroyBrowser,
    HideBrowser,
    BlockInput,
    BrowserListenEvents,
    EmitEvent,
}

/// What the network thread is to do.
#[derive(Debug, Clone, Copy, PartialEq, Eq, Structural)]
pub enum NetAction {
    Nothing,
    /// Send a join request, with the plugin's version, to the address.
    SendJoinRequest(Address),
    /// Send the event to the server at the address.
    SendToServer(Address),
    /// Tell the client that the server refused this plugin's version.
    ReportBadVersion,
    /// Tell the client that the server timed out.
    ReportTimeout,
    /// Read the packet's payload and pass it on to the client.
    Forward,
}

/// The port the server plugin listens on, on the game server's host.
pub const CEF_SERVER_PORT: u16 = 7779;

/// The version of this plugin, sent when joining.
pub const CEF_PLUGIN_VERSION: i32 = 0x00_01_00;

/// The address of the game server with the plugin's port.
pub fn plugin_address(game_server: Address) -> (a: Address)
    ensures
        a == (Address { port: CEF_SERVER_PORT, ..game_server }),
{
    Address { port: CEF_SERVER_PORT, ..game_server }
}

/// The server talked to in a state, if any.
pub open spec fn state_addr(s: ConnectionState) -> Option<Address> {
    match s {
        ConnectionState::Auth(a) => Some(a),
        ConnectionState::Connected(a) => Some(a),
        ConnectionState::Disconnected => None,
    }
}

/// How the server's answer to the join request changes the connection, and
/// what follows: accepted, the connection is up; refused, it is dropped and
/// the client told why. Outside of joining the answer is ignored.
pub open spec fn join_response_spec(s: ConnectionState, success: bool) -> (ConnectionState, NetAction) {
    match s {
        ConnectionState::Auth(a) => if success {
            (ConnectionState::Connected(a), NetAction::Nothing)
        } else {
            (ConnectionState::Disconnected, NetAction::ReportBadVersion)
        },
        _ => (s, NetAction::Nothing),
    }
}

/// What an event for the server does: it goes out only once the server
/// accepted the join.
pub open spec fn emit_spec(s: ConnectionState) -> NetAction {
    match s {
        ConnectionState::Connected(a) => NetAction::SendToServer(a),
        _ => NetAction::Nothing,
    }
}

/// The connection of the network thread.
pub struct Network {
    pub state: ConnectionState,
}

impl Network {
    /// Not connected.
    pub fn new() -> (n: Network)
        ensures
            n.state == ConnectionState::Disconnected,
    {
        Network { state: ConnectionState::Disconnected }
    }

    /// The server talked to, if any.
    pub fn addr(&self) -> (a: Option<Address>)
        ensures
            a == state_addr(self.state),
    {
        match self.state {
            ConnectionState::Auth(a) => Some(a),
            ConnectionState::Connected(a) => Some(a),
            ConnectionState::Disconnected => None,
        }
    }

    /// Starts joining the server at `address`.
    pub fn connect(&mut self, address: Address) -> (act: NetAction)
        ensures
            final(self).state == ConnectionState::Auth(address),
            act == NetAction::SendJoinRequest(address),
    {
        self.state = ConnectionState::Auth(address);
        NetAction::SendJoinRequest(address)
    }

    /// Handles a packet from the server, by its kind: the server asking for a
    /// join request gets one while joining; the other packets are passed on.
    pub fn handle_packet(&mut self, id: PacketId) -> (act: NetAction)
        ensures
            id == PacketId::RequestJoin ==> match old(self).state {
                ConnectionState::Auth(a) => act == NetAction::SendJoinRequest(a),
                _ => act == NetAction::Nothing,
            },
            id != PacketId::RequestJoin ==> act == NetAction::Forward,
            final(self).state == old(self).state,
    {
        match id {
            PacketId::RequestJoin => match self.state {
                ConnectionState::Auth(a) => self.connect(a),
                _ => NetAction::Nothing,
            },
            _ => NetAction::Forward,
        }
    }

    /// Handles the server's answer to the join request: accepted, the
    /// connection is up; refused, it is dropped and the client told why.
    /// Outside of joining the answer is ignored.
    pub fn handle_join_response(&mut self, success: bool) -> (act: NetAction)
        ensures
            (final(self).state, act) == join_response_spec(old(self).state, success),
    {
        match self.state {
            ConnectionState::Auth(a) => {
                if success {
                    self.state = ConnectionState::Connected(a);
                    NetAction::Nothing
                } else {
                    self.state = ConnectionState::Disconnected;
                    NetAction::ReportBadVersion
                }
            },
            _ => NetAction::Nothing,
        }
    }

    /// An event for the server goes out only once the server accepted the join.
    pub fn emit_event(&self) -> (act: NetAction)
        ensures
            act == emit_spec(self.state),
    {
        match self.state {
            ConnectionState::Connected(a) => NetAction::SendToServer(a),
            _ => NetAction::Nothing,
        }
    }

    /// Packets are read only from the server talked to.
    pub fn accepts_from(&self, from: Address) -> (b: bool)
        ensures
            b == (state_addr(self.state) == Some(from)),
    {
        match self.addr() {
            Some(a) => a == from,
            None => false,
        }
    }

    /// A timeout of the server talked to is reported to the client.
    pub fn timeout(&self, from: Address) -> (act: NetAction)
        ensures
            act == (if state_addr(self.state) == Some(from) {
                NetAction::ReportTimeout
            } else {
                NetAction::Nothing
            }),
    {
        if self.accepts_from(from) {
            NetAction::ReportTimeout
        } else {
            NetAction::Nothing
        }
    }
}

/// Nothing goes to a server before it has accepted the join: an event sent
/// goes to the server the connection is up with.
pub proof fn law_events_only_when_connected(s: ConnectionState)
    ensures
        emit_spec(s) matches NetAction::SendToServer(a) ==> s == ConnectionState::Connected(a),
{
}

/// Joining a server that accepts brings the connection up with it, and
/// events then go to that server; a refusal drops the connection, and then
/// no event goes out.
pub proof fn law_join_then_answer(address: Address)
    ensures
        emit_spec(join_response_spec(ConnectionState::Auth(address), true).0) == NetAction::SendToServer(
            address,
        ),
        emit_spec(join_response_spec(ConnectionState::Auth(address), false).0) == NetAction::Nothing,
        join_response_spec(ConnectionState::Auth(address), false).1 == NetAction::ReportBadVersion,
{
}

} // verus!
