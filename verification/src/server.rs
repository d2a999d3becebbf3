//! The upstream channel: envelopes, the kinds of message they carry, and the
//! decisions of the transport that sends and receives them.

pub mod download;
pub mod envelope;
pub mod kinds;

use vstd::prelude::*;
use crate::server::envelope::{Envelope, EnvelopeView, decode_envelope, encode_envelope, envelope_bytes, parsed_envelope};
use crate::server::kinds::{DropBoundType, TorrentialBoundType};
use crate::wire::frame::{encode_frame, frame_bytes};
use crate::wire::text::{parsed_text, read_text};

verus! {

/// Where the one upstream connection stands.
#[derive(Clone, Copy, Debug, PartialEq, Eq, Structural)]
pub enum ConnectionState {
    /// Waiting for a peer to connect.
    Connecting,
    /// A peer is connected and frames are read from it.
    Connected,
    /// The connection failed and no new one is awaited yet.
    Disconnected,
}

/// The handlers that answer requests of the peer.
#[derive(Clone, Copy, Debug, PartialEq, Eq, Structural)]
pub enum RpcHandler {
    GenerateManifest,
    GenerateRootCa,
    GenerateClientCert,
    ListFiles,
    HasBackend,
    PeekFile,
}

/// What becomes of an inbound envelope.
#[derive(Clone, Copy, Debug, PartialEq, Eq, Structural)]
pub enum Inbound {
    /// It is a request: a handler of its own answers it.
    Spawn(RpcHandler),
    /// It is a reply: whoever waits for its message id gets it.
    Deliver,
}

/// What becomes of an envelope of kind `kind`: the requests of the peer go to
/// their handlers, everything else to whoever waits for it.
pub open spec fn spec_route(kind: u32) -> Inbound {
    if kind == TorrentialBoundType::GenerateManifest.spec_code() {
        Inbound::Spawn(RpcHandler::GenerateManifest)
    } else if kind == TorrentialBoundType::GenerateRootCa.spec_code() {
        Inbound::Spawn(RpcHandler::GenerateRootCa)
    } else if kind == TorrentialBoundType::GenerateClientCert.spec_code() {
        Inbound::Spawn(RpcHandler::GenerateClientCert)
    } else if kind == TorrentialBoundType::ListFilesQuery.spec_code() {
        Inbound::Spawn(RpcHandler::ListFiles)
    } else if kind == TorrentialBoundType::HasBackendQuery.spec_code() {
        Inbound::Spawn(RpcHandler::HasBackend)
    } else if kind == TorrentialBoundType::PeekFileQuery.spec_code() {
        Inbound::Spawn(RpcHandler::PeekFile)
    } else {
        Inbound::Deliver
    }
}

/// What becomes of an envelope of kind `kind`.
pub fn route(kind: u32) -> (inbound: Inbound)
    ensures
        inbound == spec_route(kind),
{
    match TorrentialBoundType::from_code(kind) {
        Some(TorrentialBoundType::GenerateManifest) => Inbound::Spawn(RpcHandler::GenerateManifest),
        Some(TorrentialBoundType::GenerateRootCa) => Inbound::Spawn(RpcHandler::GenerateRootCa),
        Some(TorrentialBoundType::GenerateClientCert) => Inbound::Spawn(
            RpcHandler::GenerateClientCert,
        ),
        Some(TorrentialBoundType::ListFilesQuery) => Inbound::Spawn(RpcHandler::ListFiles),
        Some(TorrentialBoundType::HasBackendQuery) => Inbound::Spawn(RpcHandler::HasBackend),
        Some(TorrentialBoundType::PeekFileQuery) => Inbound::Spawn(RpcHandler::PeekFile),
        _ => Inbound::Deliver,
    }
}

/// What the task that owns the read half learns.
#[derive(Debug)]
pub enum ChannelEvent {
    /// It began to wait for a new peer.
    AcceptStarted,
    /// A peer connected.
    Accepted,
    /// A whole envelope arrived.
    Received(Envelope),
    /// A read failed or ended short.
    ReadFailed,
}

/// What the task that owns the read half does next.
#[derive(Debug)]
pub enum ChannelAction {
    /// Wait for a peer on the listener.
    Accept,
    /// Keep waiting for the peer.
    Await,
    /// Put the new connection's halves in place and read from it.
    Receive,
    /// Hand the envelope to whoever waits for its message id.
    Deliver(Envelope),
    /// Start the handler on the envelope, on a task of its own.
    Spawn(RpcHandler, Envelope),
    /// Nothing: the event does not belong to the state.
    Discard,
}

/// The state that follows `state` on `event`, and what is done about it.
/// A failed read only ever leads to a new accept: nobody who waits for a
/// reply is told of it.
pub open spec fn spec_step(state: ConnectionState, event: ChannelEvent) -> (
    ConnectionState,
    ChannelAction,
) {
    match (state, event) {
        (ConnectionState::Connected, ChannelEvent::ReadFailed) => (
            ConnectionState::Disconnected,
            ChannelAction::Accept,
        ),
        (ConnectionState::Disconnected, ChannelEvent::AcceptStarted) => (
            ConnectionState::Connecting,
            ChannelAction::Await,
        ),
        (ConnectionState::Connecting, ChannelEvent::Accepted) => (
            ConnectionState::Connected,
            ChannelAction::Receive,
        ),
        (ConnectionState::Connected, ChannelEvent::Received(envelope)) => (
            ConnectionState::Connected,
            match spec_route(envelope.kind) {
                Inbound::Spawn(handler) => ChannelAction::Spawn(handler, envelope),
                Inbound::Deliver => ChannelAction::Deliver(envelope),
            },
        ),
        (state, _) => (state, ChannelAction::Discard),
    }
}

/// Why a call on the channel failed.
#[derive(Debug)]
pub enum ServerError {
    /// The socket could not be written or read.
    Transport,
    /// The peer answered with an error; this is its message.
    Remote(String),
    /// Nothing arrived under the message id.
    NoResponse,
    /// What arrived cannot be read.
    Malformed,
}

impl ServerError {
    /// The error in words, for the log and for whoever asked.
    pub open spec fn spec_describe(self) -> Seq<char> {
        match self {
            ServerError::Transport => "transport failed"@,
            ServerError::Remote(message) => message@,
            ServerError::NoResponse => "no response returned for value"@,
            ServerError::Malformed => "response didn't deserialize correctly"@,
        }
    }

    /// The error in words, for the log and for whoever asked.
    pub fn describe(&self) -> (text: String)
        ensures
            text@ == self.spec_describe(),
    {
        match self {
            ServerError::Transport => "transport failed".to_owned(),
            ServerError::Remote(message) => message.clone(),
            ServerError::NoResponse => "no response returned for value".to_owned(),
            ServerError::Malformed => "response didn't deserialize correctly".to_owned(),
        }
    }
}

/// Calls `uuid::Uuid::new_v4` and writes the id out with `to_string`.
/// The claim: the id is written in the hyphenated form, which is 36
/// characters long. Nothing is claimed of which id it is.
#[verifier::external_body]
fn fresh_message_id() -> (id: String)
    ensures
        id@.len() == 36,
{
    uuid::Uuid::new_v4().to_string()
}

/// The id a message goes out under: the one given, else the fresh one.
pub fn choose_message_id(given: Option<String>, fresh: String) -> (chosen: String)
    ensures
        chosen == (match given {
            Some(id) => id,
            None => fresh,
        }),
{
    match given {
        Some(id) => id,
        None => fresh,
    }
}

/// The frame that carries `payload` as a message of kind `message_type`
/// under `message_id`.
pub fn outbound_frame(message_type: DropBoundType, message_id: &String, payload: Vec<u8>) -> (frame:
    Vec<u8>)
    ensures
        frame@ == frame_bytes(
            envelope_bytes(
                EnvelopeView {
                    kind: message_type.spec_code(),
                    message_id: message_id@,
                    data: payload@,
                },
            ),
        ),
{
    let envelope = Envelope {
        kind: message_type.code(),
        message_id: message_id.clone(),
        data: payload,
    };
    let bytes = encode_envelope(&envelope);
    encode_frame(bytes.as_slice())
}

/// The reply that an awaited envelope stands for: its payload, or the
/// peer's error message when its kind is `Error`.
pub open spec fn spec_response(arrived: Option<Envelope>) -> Result<Seq<u8>, ServerErrorView> {
    match arrived {
        None => Err(ServerErrorView::NoResponse),
        Some(envelope) => if envelope.kind == TorrentialBoundType::Error.spec_code() {
            match parsed_text(envelope.data@) {
                Some(message) => Err(ServerErrorView::Remote(message)),
                None => Err(ServerErrorView::Malformed),
            }
        } else {
            Ok(envelope.data@)
        },
    }
}

/// What a `ServerError` stands for in contracts.
pub enum ServerErrorView {
    Transport,
    Remote(Seq<char>),
    NoResponse,
    Malformed,
}

impl View for ServerError {
    type V = ServerErrorView;

    open spec fn view(&self) -> ServerErrorView {
        match self {
            ServerError::Transport => ServerErrorView::Transport,
            ServerError::Remote(message) => ServerErrorView::Remote(message@),
            ServerError::NoResponse => ServerErrorView::NoResponse,
            ServerError::Malformed => ServerErrorView::Malformed,
        }
    }
}

/// A reply as contracts see it.
pub open spec fn response_view(response: Result<Vec<u8>, ServerError>) -> Result<
    Seq<u8>,
    ServerErrorView,
> {
    match response {
        Ok(data) => Ok(data@),
        Err(error) => Err(error@),
    }
}

/// The decisions of the transport. The sockets, the write lock and the map of
/// waiters belong to whoever drives it.
pub struct DropServer {
    connection: ConnectionState,
}

impl DropServer {
    /// Where the connection stands.
    pub closed spec fn connection(&self) -> ConnectionState {
        self.connection
    }

    /// Where the connection stands.
    pub fn state(&self) -> (state: ConnectionState)
        ensures
            state == self.connection(),
    {
        self.connection
    }

    /// Reads the payload of one frame and says what becomes of it.
    /// `Malformed` exactly when the payload holds no envelope.
    pub fn recieve_loop(&self, payload: &[u8]) -> (read: Result<(Inbound, Envelope), ServerError>)
        ensures
            match read {
                Ok((inbound, envelope)) => parsed_envelope(payload@) == Some(envelope@) && inbound
                    == spec_route(envelope.kind),
                Err(error) => parsed_envelope(payload@) is None && error@
                    == ServerErrorView::Malformed,
            },
    {
        match decode_envelope(payload) {
            Some(envelope) => Ok((route(envelope.kind), envelope)),
            None => Err(ServerError::Malformed),
        }
    }

    /// Takes one event of the read half: moves the connection on and says
    /// what to do next.
    pub fn recieve_subroutine(&mut self, event: ChannelEvent) -> (action: ChannelAction)
        ensures
            (final(self).connection(), action) == spec_step(old(self).connection(), event),
    {
        match (self.connection, event) {
            (ConnectionState::Connected, ChannelEvent::ReadFailed) => {
                self.connection = ConnectionState::Disconnected;
                ChannelAction::Accept
            },
            (ConnectionState::Disconnected, ChannelEvent::AcceptStarted) => {
                self.connection = ConnectionState::Connecting;
                ChannelAction::Await
            },
            (ConnectionState::Connecting, ChannelEvent::Accepted) => {
                self.connection = ConnectionState::Connected;
                ChannelAction::Receive
            },
            (ConnectionState::Connected, ChannelEvent::Received(envelope)) => {
                match route(envelope.kind) {
                    Inbound::Spawn(handler) => ChannelAction::Spawn(handler, envelope),
                    Inbound::Deliver => ChannelAction::Deliver(envelope),
                }
            },
            (_, _) => ChannelAction::Discard,
        }
    }

    /// Turns the envelope that arrived under an awaited message id into the
    /// reply: its payload, or the peer's error.
    pub fn wait_for_message_id(&self, arrived: Option<Envelope>) -> (response: Result<
        Vec<u8>,
        ServerError,
    >)
        ensures
            response_view(response) == spec_response(arrived),
    {
        match arrived {
            None => Err(ServerError::NoResponse),
            Some(envelope) => {
                if envelope.kind == TorrentialBoundType::Error.code() {
                    match read_text(envelope.data) {
                        Some(message) => Err(ServerError::Remote(message)),
                        None => Err(ServerError::Malformed),
                    }
                } else {
                    Ok(envelope.data)
                }
            },
        }
    }

    /// Builds the frame for a message of kind `message_type` with payload
    /// `payload`, under `message_id` or, where none is given, under a fresh
    /// random id of 36 characters. Returns the id with the frame.
    pub fn send_message(
        &self,
        message_type: DropBoundType,
        payload: Vec<u8>,
        message_id: Option<String>,
    ) -> (sent: (String, Vec<u8>))
        ensures
            message_id matches Some(id) ==> sent.0 == id,
            message_id is None ==> sent.0@.len() == 36,
            sent.1@ == frame_bytes(
                envelope_bytes(
                    EnvelopeView {
                        kind: message_type.spec_code(),
                        message_id: sent.0@,
                        data: payload@,
                    },
                ),
            ),
    {
        let chosen = choose_message_id(message_id, fresh_message_id());
        let frame = outbound_frame(message_type, &chosen, payload);
        (chosen, frame)
    }
}

/// The transport before its first peer has connected.
pub fn create_drop_server() -> (server: DropServer)
    ensures
        server.connection() == ConnectionState::Connecting,
{
    DropServer { connection: ConnectionState::Connecting }
}

/// A failed read wakes nobody: whatever the state, the action it leads to is
/// a new accept or nothing, never a delivery and never a handler.
pub proof fn law_disconnect_wakes_nobody(state: ConnectionState)
    ensures
        spec_step(state, ChannelEvent::ReadFailed).1 is Accept || spec_step(
            state,
            ChannelEvent::ReadFailed,
        ).1 is Discard,
{
}

/// Whoever waits is handed only what the peer sent: whatever the state and
/// the event, an envelope is delivered only when that very envelope has just
/// been received on a connected channel and is no request, and a handler is
/// started only on a received request.
pub proof fn law_only_received_envelopes_are_handed_on(state: ConnectionState, event: ChannelEvent)
    ensures
        spec_step(state, event).1 matches ChannelAction::Deliver(envelope) ==> state
            == ConnectionState::Connected && event == ChannelEvent::Received(envelope)
            && spec_route(envelope.kind) == Inbound::Deliver,
        spec_step(state, event).1 matches ChannelAction::Spawn(handler, envelope) ==> state
            == ConnectionState::Connected && event == ChannelEvent::Received(envelope)
            && spec_route(envelope.kind) == Inbound::Spawn(handler),
{
}

/// A reply that arrives after the peer has reconnected is delivered as it
/// would have been before: from a connected state, a failed read, the accept
/// and the new connection lead back to a connected state, in which a reply is
/// handed on unchanged under the message id it carries.
pub proof fn law_reply_after_reconnect(reply: Envelope)
    requires
        spec_route(reply.kind) == Inbound::Deliver,
    ensures
        ({
            let failed = spec_step(ConnectionState::Connected, ChannelEvent::ReadFailed);
            let waiting = spec_step(failed.0, ChannelEvent::AcceptStarted);
            let back = spec_step(waiting.0, ChannelEvent::Accepted);
            let delivered = spec_step(back.0, ChannelEvent::Received(reply));
            &&& failed.1 is Accept
            &&& waiting.1 is Await
            &&& back.1 is Receive
            &&& back.0 == ConnectionState::Connected
            &&& delivered == (ConnectionState::Connected, ChannelAction::Deliver(reply))
        }),
{
}

} // verus!
