//! The messages that travel between controllers, targets and the relay.
//!
//! The types are plain data. A message names its kind twice: in
//! `message_type` and in the variant of its payload. A message is consistent
//! when the two agree.

use vstd::prelude::*;
use crate::ident::SessionId;
use crate::time::Timestamp;

verus! {

/// Main message wrapper for all communication.
#[derive(Debug, Clone)]
pub struct Message {
    pub message_type: MessageType,
    pub session_id: Option<SessionId>,
    pub timestamp: Timestamp,
    pub payload: MessagePayload,
}

/// Types of messages that can be sent.
#[derive(Debug, Clone, Copy, PartialEq, Eq, Structural)]
pub enum MessageType {
    /// Authentication related messages.
    Auth,
    /// HID input events (keyboard, mouse).
    HidEvent,
    /// Session control and management.
    SessionControl,
    /// System status and health.
    Status,
}

/// Message payload containing the actual data.
#[derive(Debug, Clone)]
pub enum MessagePayload {
    Auth(AuthMessage),
    HidEvent(HidEvent),
    SessionControl(SessionControlMessage),
    Status(StatusMessage),
}

/// Authentication message types.
#[derive(Debug, Clone)]
pub enum AuthMessage {
    /// Request authentication with credentials.
    Request { username: String, password: String, client_type: ClientType, client_id: Option<String> },
    /// Authentication response with token.
    Response {
        success: bool,
        token: Option<String>,
        expires_at: Option<Timestamp>,
        error_message: Option<String>,
    },
    /// Refresh authentication token.
    Refresh { refresh_token: String },
    /// Logout and invalidate token.
    Logout,
}

/// Client type identification.
#[derive(Debug, Clone, Copy, PartialEq, Eq, Structural)]
pub enum ClientType {
    HidClient,
    Commander,
}

/// HID input event types.
#[allow(inconsistent_fields)]
#[derive(Debug, Clone, Copy, PartialEq, Eq, Structural)]
pub enum HidEvent {
    /// Mouse movement; `absolute` tells absolute coordinates from relative ones.
    MouseMove { x: i32, y: i32, absolute: bool },
    /// Mouse button event.
    MouseClick { button: MouseButton, pressed: bool, x: Option<i32>, y: Option<i32> },
    /// Mouse scroll event.
    MouseScroll { delta_x: i32, delta_y: i32, x: Option<i32>, y: Option<i32> },
    /// Keyboard key event.
    KeyEvent { key: KeyCode, pressed: bool, modifiers: KeyModifiers },
}

/// Mouse button types.
#[derive(Debug, Clone, Copy, PartialEq, Eq, Structural)]
pub enum MouseButton {
    Left,
    Right,
    Middle,
    X1,
    X2,
}

/// Keyboard key codes (simplified set).
#[derive(Debug, Clone, Copy, PartialEq, Eq, Structural)]
pub enum KeyCode {
    A, B, C, D, E, F, G, H, I, J, K, L, M,
    N, O, P, Q, R, S, T, U, V, W, X, Y, Z,
    Key0, Key1, Key2, Key3, Key4, Key5, Key6, Key7, Key8, Key9,
    F1, F2, F3, F4, F5, F6, F7, F8, F9, F10, F11, F12,
    Space, Enter, Tab, Backspace, Delete, Insert,
    Home, End, PageUp, PageDown,
    ArrowUp, ArrowDown, ArrowLeft, ArrowRight,
    LeftShift, RightShift, LeftControl, RightControl,
    LeftAlt, RightAlt, LeftSuper, RightSuper,
    Escape, CapsLock, NumLock, ScrollLock,
    PrintScreen, Pause, Menu,
    Minus, Equal, LeftBracket, RightBracket,
    Semicolon, Quote, Grave, Backslash,
    Comma, Period, Slash,
}

/// Keyboard modifier state.
#[derive(Debug, Clone, Copy, PartialEq, Eq, Structural)]
pub struct KeyModifiers {
    pub shift: bool,
    pub control: bool,
    pub alt: bool,
    pub super_key: bool,
}

impl Default for KeyModifiers {
    /// No modifier held.
    fn default() -> (m: KeyModifiers)
        ensures
            m == (KeyModifiers { shift: false, control: false, alt: false, super_key: false }),
    {
        KeyModifiers { shift: false, control: false, alt: false, super_key: false }
    }
}

/// Session control messages.
#[derive(Debug, Clone)]
pub enum SessionControlMessage {
    /// Create a new session (HID client).
    CreateSession { client_id: String, client_name: Option<String> },
    /// Join an existing session (commander).
    JoinSession { target_client_id: String },
    /// List available HID clients.
    ListClients,
    /// Response with available clients.
    ClientList { clients: Vec<ClientInfo> },
    /// End the current session.
    EndSession,
    /// Session ended notification.
    SessionEnded { reason: String },
}

/// Information about a connected HID client.
#[derive(Debug, Clone)]
pub struct ClientInfo {
    pub client_id: String,
    pub client_name: Option<String>,
    pub platform: String,
    pub connected_at: Timestamp,
    pub commander_connected: bool,
}

/// Status and health messages.
#[derive(Debug, Clone)]
pub enum StatusMessage {
    /// Heartbeat/ping message.
    Heartbeat,
    /// Connection status.
    ConnectionStatus { connected: bool, latency_ms: Option<u64> },
    /// Error notification.
    Error { error_code: String, error_message: String },
}

/// Why a frame could not be taken as a message.
#[derive(Debug, Clone, Copy, PartialEq, Eq, Structural)]
pub enum ProtocolError {
    /// The frame did not decode as an envelope at all.
    MalformedEnvelope,
    /// The envelope decoded, but its payload is not of the kind it declares.
    PayloadMismatch,
}

/// The kind that a payload belongs to.
pub open spec fn payload_kind(payload: MessagePayload) -> MessageType {
    match payload {
        MessagePayload::Auth(_) => MessageType::Auth,
        MessagePayload::HidEvent(_) => MessageType::HidEvent,
        MessagePayload::SessionControl(_) => MessageType::SessionControl,
        MessagePayload::Status(_) => MessageType::Status,
    }
}

/// A message whose time stamp is `timestamp`.
pub open spec fn stamped_message(
    message_type: MessageType,
    session_id: Option<SessionId>,
    timestamp: Timestamp,
    payload: MessagePayload,
) -> Message {
    Message { message_type, session_id, timestamp, payload }
}

impl MessagePayload {
    /// The kind that this payload belongs to.
    pub fn kind(&self) -> (k: MessageType)
        ensures
            k == payload_kind(*self),
    {
        match self {
            MessagePayload::Auth(_) => MessageType::Auth,
            MessagePayload::HidEvent(_) => MessageType::HidEvent,
            MessagePayload::SessionControl(_) => MessageType::SessionControl,
            MessagePayload::Status(_) => MessageType::Status,
        }
    }
}

impl Message {
    /// Whether the payload is of the kind that the message declares.
    pub open spec fn consistent(self) -> bool {
        payload_kind(self.payload) == self.message_type
    }

    /// A message with time stamp `timestamp`.
    pub fn stamped(
        message_type: MessageType,
        session_id: Option<SessionId>,
        timestamp: Timestamp,
        payload: MessagePayload,
    ) -> (m: Message)
        ensures
            m == stamped_message(message_type, session_id, timestamp, payload),
    {
        Message { message_type, session_id, timestamp, payload }
    }

    /// Create a new message with the current time stamp.
    pub fn new(message_type: MessageType, session_id: Option<SessionId>, payload: MessagePayload) -> (m:
        Message)
        ensures
            m.message_type == message_type,
            m.session_id == session_id,
            m.payload == payload,
    {
        Message::stamped(message_type, session_id, Timestamp::now(), payload)
    }

    /// Create an authentication request message.
    pub fn auth_request(
        username: String,
        password: String,
        client_type: ClientType,
        client_id: Option<String>,
    ) -> (m: Message)
        ensures
            m.message_type == MessageType::Auth,
            m.session_id == None::<SessionId>,
            m.payload == MessagePayload::Auth(
                AuthMessage::Request { username, password, client_type, client_id },
            ),
            m.consistent(),
    {
        Message::new(
            MessageType::Auth,
            None,
            MessagePayload::Auth(AuthMessage::Request { username, password, client_type, client_id }),
        )
    }

    /// Create a HID event message.
    pub fn hid_event(session_id: SessionId, event: HidEvent) -> (m: Message)
        ensures
            m.message_type == MessageType::HidEvent,
            m.session_id == Some(session_id),
            m.payload == MessagePayload::HidEvent(event),
            m.consistent(),
    {
        Message::new(MessageType::HidEvent, Some(session_id), MessagePayload::HidEvent(event))
    }

    /// Create a session control message.
    pub fn session_control(session_id: Option<SessionId>, control: SessionControlMessage) -> (m: Message)
        ensures
            m.message_type == MessageType::SessionControl,
            m.session_id == session_id,
            m.payload == MessagePayload::SessionControl(control),
            m.consistent(),
    {
        Message::new(MessageType::SessionControl, session_id, MessagePayload::SessionControl(control))
    }

    /// Create a status message.
    pub fn status(session_id: Option<SessionId>, status: StatusMessage) -> (m: Message)
        ensures
            m.message_type == MessageType::Status,
            m.session_id == session_id,
            m.payload == MessagePayload::Status(status),
            m.consistent(),
    {
        Message::new(MessageType::Status, session_id, MessagePayload::Status(status))
    }

    /// Whether the payload is of the kind that the message declares.
    pub fn is_consistent(&self) -> (b: bool)
        ensures
            b == self.consistent(),
    {
        self.payload.kind() == self.message_type
    }
}

/// What a decoded frame is worth: `None` stands for a frame that did not
/// decode as an envelope. A consistent message is handed back unchanged.
pub fn check_envelope(decoded: Option<Message>) -> (r: Result<Message, ProtocolError>)
    ensures
        decoded is None ==> r == Err::<Message, ProtocolError>(ProtocolError::MalformedEnvelope),
        decoded matches Some(m) ==> if m.consistent() {
            r == Ok::<Message, ProtocolError>(m)
        } else {
            r == Err::<Message, ProtocolError>(ProtocolError::PayloadMismatch)
        },
{
    match decoded {
        None => Err(ProtocolError::MalformedEnvelope),
        Some(m) => {
            if m.is_consistent() {
                Ok(m)
            } else {
                Err(ProtocolError::PayloadMismatch)
            }
        },
    }
}

} // verus!
