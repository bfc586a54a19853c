//! The controlling side: what a commander makes of local input and of what
//! the server sends.

use vstd::prelude::*;
use vstd::string::StrSliceExecFns;
use crate::error::RemoteHidError;
use crate::ident::SessionId;
use crate::protocol::{
    HidEvent,
    KeyCode,
    KeyModifiers,
    Message,
    MessagePayload,
    MessageType,
    MouseButton,
    SessionControlMessage,
};

verus! {

/// One event of local input, as the capture delivers it.
#[allow(inconsistent_fields)]
#[derive(Debug, Clone, Copy, PartialEq, Eq, Structural)]
pub enum InputEvent {
    MouseMove { x: i32, y: i32, absolute: bool },
    MouseClick { button: MouseButton, pressed: bool, x: Option<i32>, y: Option<i32> },
    MouseScroll { delta_x: i32, delta_y: i32, x: Option<i32>, y: Option<i32> },
    KeyEvent { key: KeyCode, pressed: bool, modifiers: KeyModifiers },
}

/// The key that types the character `ch`: letters of either case, digits
/// and the space have one; no other character has.
pub open spec fn keycode_of(ch: char) -> Option<KeyCode> {
    if ch == 'A' || ch == 'a' {
        Some(KeyCode::A)
    } else if ch == 'B' || ch == 'b' {
        Some(KeyCode::B)
    } else if ch == 'C' || ch == 'c' {
        Some(KeyCode::C)
    } else if ch == 'D' || ch == 'd' {
        Some(KeyCode::D)
    } else if ch == 'E' || ch == 'e' {
        Some(KeyCode::E)
    } else if ch == 'F' || ch == 'f' {
        Some(KeyCode::F)
    } else if ch == 'G' || ch == 'g' {
        Some(KeyCode::G)
    } else if ch == 'H' || ch == 'h' {
        Some(KeyCode::H)
    } else if ch == 'I' || ch == 'i' {
        Some(KeyCode::I)
    } else if ch == 'J' || ch == 'j' {
        Some(KeyCode::J)
    } else if ch == 'K' || ch == 'k' {
        Some(KeyCode::K)
    } else if ch == 'L' || ch == 'l' {
        Some(KeyCode::L)
    } else if ch == 'M' || ch == 'm' {
        Some(KeyCode::M)
    } else if ch == 'N' || ch == 'n' {
        Some(KeyCode::N)
    } else if ch == 'O' || ch == 'o' {
        Some(KeyCode::O)
    } else if ch == 'P' || ch == 'p' {
        Some(KeyCode::P)
    } else if ch == 'Q' || ch == 'q' {
        Some(KeyCode::Q)
    } else if ch == 'R' || ch == 'r' {
        Some(KeyCode::R)
    } else if ch == 'S' || ch == 's' {
        Some(KeyCode::S)
    } else if ch == 'T' || ch == 't' {
        Some(KeyCode::T)
    } else if ch == 'U' || ch == 'u' {
        Some(KeyCode::U)
    } else if ch == 'V' || ch == 'v' {
        Some(KeyCode::V)
    } else if ch == 'W' || ch == 'w' {
        Some(KeyCode::W)
    } else if ch == 'X' || ch == 'x' {
        Some(KeyCode::X)
    } else if ch == 'Y' || ch == 'y' {
        Some(KeyCode::Y)
    } else if ch == 'Z' || ch == 'z' {
        Some(KeyCode::Z)
    } else if ch == '0' {
        Some(KeyCode::Key0)
    } else if ch == '1' {
        Some(KeyCode::Key1)
    } else if ch == '2' {
        Some(KeyCode::Key2)
    } else if ch == '3' {
        Some(KeyCode::Key3)
    } else if ch == '4' {
        Some(KeyCode::Key4)
    } else if ch == '5' {
        Some(KeyCode::Key5)
    } else if ch == '6' {
        Some(KeyCode::Key6)
    } else if ch == '7' {
        Some(KeyCode::Key7)
    } else if ch == '8' {
        Some(KeyCode::Key8)
    } else if ch == '9' {
        Some(KeyCode::Key9)
    } else if ch == ' ' {
        Some(KeyCode::Space)
    } else {
        None
    }
}

/// The key that types the character `ch`, if a key of the simplified set does.
pub fn char_to_keycode(ch: char) -> (r: Option<KeyCode>)
    ensures
        r == keycode_of(ch),
{
    match ch {
        'A' | 'a' => Some(KeyCode::A),
        'B' | 'b' => Some(KeyCode::B),
        'C' | 'c' => Some(KeyCode::C),
        'D' | 'd' => Some(KeyCode::D),
        'E' | 'e' => Some(KeyCode::E),
        'F' | 'f' => Some(KeyCode::F),
        'G' | 'g' => Some(KeyCode::G),
        'H' | 'h' => Some(KeyCode::H),
        'I' | 'i' => Some(KeyCode::I),
        'J' | 'j' => Some(KeyCode::J),
        'K' | 'k' => Some(KeyCode::K),
        'L' | 'l' => Some(KeyCode::L),
        'M' | 'm' => Some(KeyCode::M),
        'N' | 'n' => Some(KeyCode::N),
        'O' | 'o' => Some(KeyCode::O),
        'P' | 'p' => Some(KeyCode::P),
        'Q' | 'q' => Some(KeyCode::Q),
        'R' | 'r' => Some(KeyCode::R),
        'S' | 's' => Some(KeyCode::S),
        'T' | 't' => Some(KeyCode::T),
        'U' | 'u' => Some(KeyCode::U),
        'V' | 'v' => Some(KeyCode::V),
        'W' | 'w' => Some(KeyCode::W),
        'X' | 'x' => Some(KeyCode::X),
        'Y' | 'y' => Some(KeyCode::Y),
        'Z' | 'z' => Some(KeyCode::Z),
        '0' => Some(KeyCode::Key0),
        '1' => Some(KeyCode::Key1),
        '2' => Some(KeyCode::Key2),
        '3' => Some(KeyCode::Key3),
        '4' => Some(KeyCode::Key4),
        '5' => Some(KeyCode::Key5),
        '6' => Some(KeyCode::Key6),
        '7' => Some(KeyCode::Key7),
        '8' => Some(KeyCode::Key8),
        '9' => Some(KeyCode::Key9),
        ' ' => Some(KeyCode::Space),
        _ => None,
    }
}

/// A key event without modifiers.
pub open spec fn plain_key(key: KeyCode, pressed: bool) -> InputEvent {
    InputEvent::KeyEvent {
        key,
        pressed,
        modifiers: KeyModifiers { shift: false, control: false, alt: false, super_key: false },
    }
}

/// The events that type `text`: for each character that has a key, in the
/// order of the text, the key pressed and then released. Characters without
/// a key are left out.
pub open spec fn typed(text: Seq<char>) -> Seq<InputEvent>
    decreases text.len(),
{
    if text.len() == 0 {
        Seq::empty()
    } else {
        match keycode_of(text.last()) {
            Some(key) => typed(text.drop_last()).push(plain_key(key, true)).push(plain_key(key, false)),
            None => typed(text.drop_last()),
        }
    }
}

/// The events that type the line `text`; with `with_enter`, the Enter key
/// is pressed and released at the end.
pub open spec fn typed_line(text: Seq<char>, with_enter: bool) -> Seq<InputEvent> {
    if with_enter {
        typed(text).push(plain_key(KeyCode::Enter, true)).push(plain_key(KeyCode::Enter, false))
    } else {
        typed(text)
    }
}

/// The key event for `key` without modifiers.
fn key_stroke(key: KeyCode, pressed: bool) -> (e: InputEvent)
    ensures
        e == plain_key(key, pressed),
{
    InputEvent::KeyEvent { key, pressed, modifiers: KeyModifiers::default() }
}

/// Turns one line of typed text into key events: each character that has a
/// key is pressed and released, in order; with `with_enter`, Enter follows.
pub fn capture_keyboard_input(text: &str, with_enter: bool) -> (events: Vec<InputEvent>)
    ensures
        events@ == typed_line(text@, with_enter),
{
    let mut events: Vec<InputEvent> = Vec::new();
    let n = text.unicode_len();
    let mut i: usize = 0;
    while i < n
        invariant
            n == text@.len(),
            0 <= i <= n,
            events@ == typed(text@.take(i as int)),
        decreases n - i,
    {
        let ch = text.get_char(i);
        proof {
            assert(text@.take(i + 1).drop_last() =~= text@.take(i as int));
            assert(text@.take(i + 1).last() == ch);
        }
        match char_to_keycode(ch) {
            Some(key) => {
                events.push(key_stroke(key, true));
                events.push(key_stroke(key, false));
            },
            None => {},
        }
        i += 1;
    }
    proof {
        assert(text@.take(n as int) =~= text@);
    }
    if with_enter {
        events.push(key_stroke(KeyCode::Enter, true));
        events.push(key_stroke(KeyCode::Enter, false));
    }
    events
}

/// The pointer move that shows, at tick number `tick`, that the capture is
/// alive: to the point ten times the tick away from the origin on both
/// axes. There is none once that point is out of range.
pub open spec fn sign_of_life(tick: i32) -> Option<InputEvent> {
    if i32::MIN <= tick * 10 <= i32::MAX {
        Some(InputEvent::MouseMove { x: (tick * 10) as i32, y: (tick * 10) as i32, absolute: true })
    } else {
        None
    }
}

/// The pointer move that shows at tick number `tick` that the capture is alive.
pub fn simulated_move(tick: i32) -> (r: Option<InputEvent>)
    ensures
        r == sign_of_life(tick),
{
    match tick.checked_mul(10) {
        Some(at) => Some(InputEvent::MouseMove { x: at, y: at, absolute: true }),
        None => None,
    }
}

/// The event that the remote side is to perform for a local input event.
pub open spec fn hid_event_of(input: InputEvent) -> HidEvent {
    match input {
        InputEvent::MouseMove { x, y, absolute } => HidEvent::MouseMove { x, y, absolute },
        InputEvent::MouseClick { button, pressed, x, y } => HidEvent::MouseClick { button, pressed, x, y },
        InputEvent::MouseScroll { delta_x, delta_y, x, y } => HidEvent::MouseScroll { delta_x, delta_y, x, y },
        InputEvent::KeyEvent { key, pressed, modifiers } => HidEvent::KeyEvent { key, pressed, modifiers },
    }
}

/// The event that the remote side is to perform for `input`.
fn to_hid_event(input: InputEvent) -> (event: HidEvent)
    ensures
        event == hid_event_of(input),
{
    match input {
        InputEvent::MouseMove { x, y, absolute } => HidEvent::MouseMove { x, y, absolute },
        InputEvent::MouseClick { button, pressed, x, y } => HidEvent::MouseClick { button, pressed, x, y },
        InputEvent::MouseScroll { delta_x, delta_y, x, y } => HidEvent::MouseScroll { delta_x, delta_y, x, y },
        InputEvent::KeyEvent { key, pressed, modifiers } => HidEvent::KeyEvent { key, pressed, modifiers },
    }
}

/// What the commander makes of a message from the server.
#[derive(Debug)]
pub enum ServerNotice {
    /// The session is over, for the reason given.
    SessionEnded { reason: String },
    /// A status message.
    Status,
    /// Something the commander has no use for.
    Ignored,
}

/// What a commander makes of `message`.
pub open spec fn notice_of(message: Message) -> ServerNotice {
    match message.message_type {
        MessageType::SessionControl => match message.payload {
            MessagePayload::SessionControl(SessionControlMessage::SessionEnded { reason }) => {
                ServerNotice::SessionEnded { reason }
            },
            _ => ServerNotice::Ignored,
        },
        MessageType::Status => ServerNotice::Status,
        _ => ServerNotice::Ignored,
    }
}

/// A commander: the server it talks to and the target it wants to control.
#[derive(Debug)]
pub struct Commander {
    server_url: String,
    target_client_id: String,
}

impl Commander {
    /// The address of the session server.
    pub closed spec fn server(&self) -> String {
        self.server_url
    }

    /// The name of the target to control.
    pub closed spec fn target(&self) -> String {
        self.target_client_id
    }

    /// A commander for the target `target_client_id` at the server `server_url`.
    pub fn new(server_url: String, target_client_id: String) -> (r: Result<Commander, RemoteHidError>)
        ensures
            r matches Ok(c) && c.server() == server_url && c.target() == target_client_id,
    {
        Ok(Commander { server_url, target_client_id })
    }

    /// The address of the session server.
    pub fn server_url(&self) -> (url: &String)
        ensures
            *url == self.server(),
    {
        &self.server_url
    }

    /// The name of the target to control.
    pub fn target_client_id(&self) -> (id: &String)
        ensures
            *id == self.target(),
    {
        &self.target_client_id
    }

    /// The first message of the connection: the request to join the target.
    pub fn join_message(&self) -> (m: Message)
        ensures
            m.message_type == MessageType::SessionControl,
            m.session_id == None::<SessionId>,
            m.payload == MessagePayload::SessionControl(
                SessionControlMessage::JoinSession { target_client_id: self.target() },
            ),
            m.consistent(),
    {
        Message::session_control(
            None,
            SessionControlMessage::JoinSession { target_client_id: self.target_client_id.clone() },
        )
    }

    /// The event that the remote side is to perform for `input`.
    pub fn convert_input_to_hid(&self, input: InputEvent) -> (r: Option<HidEvent>)
        ensures
            r == Some(hid_event_of(input)),
    {
        Some(to_hid_event(input))
    }

    /// The message that carries `input` to the server, marked with `session_id`.
    pub fn event_message(&self, session_id: SessionId, input: InputEvent) -> (m: Message)
        ensures
            m.message_type == MessageType::HidEvent,
            m.session_id == Some(session_id),
            m.payload == MessagePayload::HidEvent(hid_event_of(input)),
            m.consistent(),
    {
        Message::hid_event(session_id, to_hid_event(input))
    }

    /// What the commander makes of `message`, received from the server.
    pub fn handle_server_message(&self, message: Message) -> (notice: ServerNotice)
        ensures
            notice == notice_of(message),
    {
        match message.message_type {
            MessageType::SessionControl => match message.payload {
                MessagePayload::SessionControl(SessionControlMessage::SessionEnded { reason }) => {
                    ServerNotice::SessionEnded { reason }
                },
                _ => ServerNotice::Ignored,
            },
            MessageType::Status => ServerNotice::Status,
            _ => ServerNotice::Ignored,
        }
    }
}

} // verus!
