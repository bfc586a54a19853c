//! The controlled side: what a target does with the events it receives.
//!
//! Injecting an event into an operating system is the caller's business.
//! Here an event is turned into the exact calls that the platform needs:
//! which event with which button at which point on macOS, which inputs with
//! which flags on Windows.

use vstd::prelude::*;
use crate::ident::SessionId;
use crate::protocol::{
    HidEvent,
    KeyCode,
    KeyModifiers,
    Message,
    MessagePayload,
    MessageType,
    MouseButton,
    SessionControlMessage,
};

verus! {

/// Why an event cannot be performed.
#[derive(Debug, Clone, Copy, PartialEq, Eq, Structural)]
pub enum HidError {
    /// HID operations are not supported on this platform: what the handler
    /// for unsupported platforms answers.
    UnsupportedPlatform,
    /// The platform has no handler that could perform the event.
    NoHandler,
    /// The platform cannot press this mouse button.
    UnsupportedButton(MouseButton),
}

/// The error in words.
pub open spec fn hid_error_text(e: HidError) -> Seq<char> {
    match e {
        HidError::UnsupportedPlatform => "HID operations not supported on this platform"@,
        HidError::NoHandler => "Unsupported platform"@,
        HidError::UnsupportedButton(MouseButton::Left) => "Unsupported mouse button: Left"@,
        HidError::UnsupportedButton(MouseButton::Right) => "Unsupported mouse button: Right"@,
        HidError::UnsupportedButton(MouseButton::Middle) => "Unsupported mouse button: Middle"@,
        HidError::UnsupportedButton(MouseButton::X1) => "Unsupported mouse button: X1"@,
        HidError::UnsupportedButton(MouseButton::X2) => "Unsupported mouse button: X2"@,
    }
}

impl HidError {
    /// The error in words.
    pub fn text(&self) -> (text: String)
        ensures
            text@ == hid_error_text(*self),
    {
        match self {
            HidError::UnsupportedPlatform => "HID operations not supported on this platform".to_owned(),
            HidError::NoHandler => "Unsupported platform".to_owned(),
            HidError::UnsupportedButton(MouseButton::Left) => "Unsupported mouse button: Left".to_owned(),
            HidError::UnsupportedButton(MouseButton::Right) => "Unsupported mouse button: Right".to_owned(),
            HidError::UnsupportedButton(MouseButton::Middle) => "Unsupported mouse button: Middle".to_owned(),
            HidError::UnsupportedButton(MouseButton::X1) => "Unsupported mouse button: X1".to_owned(),
            HidError::UnsupportedButton(MouseButton::X2) => "Unsupported mouse button: X2".to_owned(),
        }
    }
}

/// The operating systems that a target can run on.
#[derive(Debug, Clone, Copy, PartialEq, Eq, Structural)]
pub enum Platform {
    MacOS,
    Windows,
    /// Any other system: events cannot be performed there.
    Other,
}

/// The kinds of event that macOS knows for mouse and keyboard.
#[derive(Debug, Clone, Copy, PartialEq, Eq, Structural)]
pub enum MacEventType {
    MouseMoved,
    LeftMouseDown,
    LeftMouseUp,
    RightMouseDown,
    RightMouseUp,
    OtherMouseDown,
    OtherMouseUp,
}

/// The mouse buttons that macOS knows.
#[derive(Debug, Clone, Copy, PartialEq, Eq, Structural)]
pub enum MacMouseButton {
    Left,
    Right,
    Center,
}

/// What is to be posted to the macOS event system for one event.
#[derive(Debug, Clone, Copy, PartialEq, Eq, Structural)]
pub enum MacAction {
    /// A mouse event of kind `event_type` at the point (`x`, `y`).
    Mouse { event_type: MacEventType, x: i32, y: i32, button: MacMouseButton },
    /// A keyboard event for the virtual key `keycode`.
    Key { keycode: u16, pressed: bool },
    /// Nothing: the event is accepted and has no effect.
    Nothing,
}

/// What a Windows mouse input does.
#[derive(Debug, Clone, Copy, PartialEq, Eq, Structural)]
pub enum WindowsMouseFlags {
    Move,
    MoveAbsolute,
    LeftDown,
    LeftUp,
    RightDown,
    RightUp,
    MiddleDown,
    MiddleUp,
    Wheel,
    HWheel,
}

/// One input for the Windows input queue.
#[derive(Debug, Clone, Copy, PartialEq, Eq, Structural)]
pub enum WindowsInput {
    /// A mouse input; `mouse_data` is the wheel movement, in units of which
    /// 120 make one notch.
    Mouse { dx: i32, dy: i32, mouse_data: i64, flags: WindowsMouseFlags },
    /// A keyboard input for the virtual key `vk`.
    Key { vk: u16, key_up: bool },
}

/// What is to be sent to Windows for one event: `inputs`, in this order, and
/// after them the error that the event ends with, if it ends with one.
#[derive(Debug)]
pub struct WindowsPlan {
    pub inputs: Vec<WindowsInput>,
    pub failure: Option<HidError>,
}

/// The macOS virtual key code of `key`. Keys without a code of their own
/// are sent as the space bar.
pub open spec fn mac_keycode(key: KeyCode) -> u16 {
    match key {
        KeyCode::A => 0,
        KeyCode::B => 11,
        KeyCode::C => 8,
        KeyCode::D => 2,
        KeyCode::E => 14,
        KeyCode::Space => 49,
        KeyCode::Enter => 36,
        KeyCode::Tab => 48,
        KeyCode::Escape => 53,
        KeyCode::ArrowUp => 126,
        KeyCode::ArrowDown => 125,
        KeyCode::ArrowLeft => 123,
        KeyCode::ArrowRight => 124,
        _ => 49,
    }
}

/// The Windows virtual key code of `key`. Keys without a code of their own
/// are sent as the space bar.
pub open spec fn windows_keycode(key: KeyCode) -> u16 {
    match key {
        KeyCode::A => 0x41,
        KeyCode::B => 0x42,
        KeyCode::C => 0x43,
        KeyCode::D => 0x44,
        KeyCode::E => 0x45,
        KeyCode::Space => 0x20,
        KeyCode::Enter => 0x0D,
        KeyCode::Tab => 0x09,
        KeyCode::Escape => 0x1B,
        KeyCode::ArrowUp => 0x26,
        KeyCode::ArrowDown => 0x28,
        KeyCode::ArrowLeft => 0x25,
        KeyCode::ArrowRight => 0x27,
        _ => 0x20,
    }
}

/// What macOS is to do for a click: the button must be left, right or
/// middle; the event is posted at the point given, or at the origin where
/// the event does not give both coordinates.
pub open spec fn mac_click(button: MouseButton, pressed: bool, x: Option<i32>, y: Option<i32>) -> Result<
    MacAction,
    HidError,
> {
    let at_x = if x is Some && y is Some {
        x->0
    } else {
        0
    };
    let at_y = if x is Some && y is Some {
        y->0
    } else {
        0
    };
    match button {
        MouseButton::Left => Ok(
            MacAction::Mouse {
                event_type: if pressed {
                    MacEventType::LeftMouseDown
                } else {
                    MacEventType::LeftMouseUp
                },
                x: at_x,
                y: at_y,
                button: MacMouseButton::Left,
            },
        ),
        MouseButton::Right => Ok(
            MacAction::Mouse {
                event_type: if pressed {
                    MacEventType::RightMouseDown
                } else {
                    MacEventType::RightMouseUp
                },
                x: at_x,
                y: at_y,
                button: MacMouseButton::Right,
            },
        ),
        MouseButton::Middle => Ok(
            MacAction::Mouse {
                event_type: if pressed {
                    MacEventType::OtherMouseDown
                } else {
                    MacEventType::OtherMouseUp
                },
                x: at_x,
                y: at_y,
                button: MacMouseButton::Center,
            },
        ),
        _ => Err(HidError::UnsupportedButton(button)),
    }
}

/// What macOS is to do for `event`.
pub open spec fn mac_plan(event: HidEvent) -> Result<MacAction, HidError> {
    match event {
        HidEvent::MouseMove { x, y, absolute } => Ok(
            MacAction::Mouse { event_type: MacEventType::MouseMoved, x, y, button: MacMouseButton::Left },
        ),
        HidEvent::MouseClick { button, pressed, x, y } => mac_click(button, pressed, x, y),
        HidEvent::MouseScroll { .. } => Ok(MacAction::Nothing),
        HidEvent::KeyEvent { key, pressed, modifiers } => Ok(
            MacAction::Key { keycode: mac_keycode(key), pressed },
        ),
    }
}

/// The Windows input that moves the pointer.
pub open spec fn windows_move(x: i32, y: i32, absolute: bool) -> WindowsInput {
    WindowsInput::Mouse {
        dx: x,
        dy: y,
        mouse_data: 0,
        flags: if absolute {
            WindowsMouseFlags::MoveAbsolute
        } else {
            WindowsMouseFlags::Move
        },
    }
}

/// What a Windows button input does, for the buttons that Windows can press.
pub open spec fn windows_button_flags(button: MouseButton, pressed: bool) -> Option<WindowsMouseFlags> {
    match button {
        MouseButton::Left => Some(
            if pressed {
                WindowsMouseFlags::LeftDown
            } else {
                WindowsMouseFlags::LeftUp
            },
        ),
        MouseButton::Right => Some(
            if pressed {
                WindowsMouseFlags::RightDown
            } else {
                WindowsMouseFlags::RightUp
            },
        ),
        MouseButton::Middle => Some(
            if pressed {
                WindowsMouseFlags::MiddleDown
            } else {
                WindowsMouseFlags::MiddleUp
            },
        ),
        _ => None,
    }
}

/// A Windows mouse input that does not move the pointer.
pub open spec fn windows_still(mouse_data: i64, flags: WindowsMouseFlags) -> WindowsInput {
    WindowsInput::Mouse { dx: 0, dy: 0, mouse_data, flags }
}

/// The inputs that Windows gets for `event`, in order. A click at a given
/// point first moves the pointer there; a scroll sends the vertical
/// movement before the horizontal one and leaves out a movement of zero.
pub open spec fn windows_inputs(event: HidEvent) -> Seq<WindowsInput> {
    match event {
        HidEvent::MouseMove { x, y, absolute } => seq![windows_move(x, y, absolute)],
        HidEvent::MouseClick { button, pressed, x, y } => {
            let approach = if x is Some && y is Some {
                seq![windows_move(x->0, y->0, true)]
            } else {
                Seq::empty()
            };
            match windows_button_flags(button, pressed) {
                Some(flags) => approach.push(windows_still(0, flags)),
                None => approach,
            }
        },
        HidEvent::MouseScroll { delta_x, delta_y, x, y } => {
            let vertical = if delta_y != 0 {
                seq![windows_still((delta_y * 120) as i64, WindowsMouseFlags::Wheel)]
            } else {
                Seq::empty()
            };
            if delta_x != 0 {
                vertical.push(windows_still((delta_x * 120) as i64, WindowsMouseFlags::HWheel))
            } else {
                vertical
            }
        },
        HidEvent::KeyEvent { key, pressed, modifiers } => seq![
            WindowsInput::Key { vk: windows_keycode(key), key_up: !pressed },
        ],
    }
}

/// The error that `event` ends with on Windows, if it ends with one: only a
/// click with a button that Windows cannot press does.
pub open spec fn windows_failure(event: HidEvent) -> Option<HidError> {
    match event {
        HidEvent::MouseClick { button, pressed, x, y } => if windows_button_flags(button, pressed) is None {
            Some(HidError::UnsupportedButton(button))
        } else {
            None
        },
        _ => None,
    }
}

/// The handler for macOS.
#[derive(Debug, Clone, Copy, PartialEq, Eq, Structural)]
pub struct MacOSHidHandler {}

impl MacOSHidHandler {
    /// A handler for macOS.
    pub fn new() -> (r: Result<MacOSHidHandler, HidError>)
        ensures
            r == Ok::<MacOSHidHandler, HidError>(MacOSHidHandler {  }),
    {
        let _ = MacOSHidHandler::has_accessibility_permissions();
        Ok(MacOSHidHandler {  })
    }

    /// Whether the process may inject input. The answer is always yes: the
    /// system is not asked.
    pub fn has_accessibility_permissions() -> (b: bool)
        ensures
            b,
    {
        true
    }

    /// What macOS is to do for `event`.
    pub fn execute_event(&self, event: HidEvent) -> (r: Result<MacAction, HidError>)
        ensures
            r == mac_plan(event),
    {
        match event {
            HidEvent::MouseMove { x, y, absolute } => MacOSHidHandler::mouse_move(x, y, absolute),
            HidEvent::MouseClick { button, pressed, x, y } => MacOSHidHandler::mouse_click(button, pressed, x, y),
            HidEvent::MouseScroll { delta_x, delta_y, x: _, y: _ } => MacOSHidHandler::mouse_scroll(
                delta_x,
                delta_y,
            ),
            HidEvent::KeyEvent { key, pressed, modifiers } => MacOSHidHandler::key_event(
                key,
                pressed,
                modifiers,
            ),
        }
    }

    /// A move of the pointer. macOS gets the same event whether the
    /// coordinates are absolute or relative.
    pub fn mouse_move(x: i32, y: i32, absolute: bool) -> (r: Result<MacAction, HidError>)
        ensures
            r == mac_plan(HidEvent::MouseMove { x, y, absolute }),
    {
        Ok(MacAction::Mouse { event_type: MacEventType::MouseMoved, x, y, button: MacMouseButton::Left })
    }

    /// A press or release of a mouse button.
    pub fn mouse_click(button: MouseButton, pressed: bool, x: Option<i32>, y: Option<i32>) -> (r: Result<
        MacAction,
        HidError,
    >)
        ensures
            r == mac_click(button, pressed, x, y),
    {
        let cg_button = match button {
            MouseButton::Left => MacMouseButton::Left,
            MouseButton::Right => MacMouseButton::Right,
            MouseButton::Middle => MacMouseButton::Center,
            _ => {
                return Err(HidError::UnsupportedButton(button));
            },
        };
        let event_type = match (button, pressed) {
            (MouseButton::Left, true) => MacEventType::LeftMouseDown,
            (MouseButton::Left, false) => MacEventType::LeftMouseUp,
            (MouseButton::Right, true) => MacEventType::RightMouseDown,
            (MouseButton::Right, false) => MacEventType::RightMouseUp,
            (MouseButton::Middle, true) => MacEventType::OtherMouseDown,
            (MouseButton::Middle, false) => MacEventType::OtherMouseUp,
            _ => {
                return Err(HidError::UnsupportedButton(button));
            },
        };
        let (at_x, at_y) = match (x, y) {
            (Some(x), Some(y)) => (x, y),
            _ => (0, 0),
        };
        Ok(MacAction::Mouse { event_type, x: at_x, y: at_y, button: cg_button })
    }

    /// A turn of the wheel: accepted, and without effect on macOS.
    pub fn mouse_scroll(delta_x: i32, delta_y: i32) -> (r: Result<MacAction, HidError>)
        ensures
            r == Ok::<MacAction, HidError>(MacAction::Nothing),
    {
        Ok(MacAction::Nothing)
    }

    /// A press or release of a key. The modifiers are not looked at.
    pub fn key_event(key: KeyCode, pressed: bool, modifiers: KeyModifiers) -> (r: Result<MacAction, HidError>)
        ensures
            r == Ok::<MacAction, HidError>(MacAction::Key { keycode: mac_keycode(key), pressed }),
    {
        let keycode = MacOSHidHandler::keycode_to_cg(key);
        Ok(MacAction::Key { keycode, pressed })
    }

    /// The macOS virtual key code of `key`.
    pub fn keycode_to_cg(key: KeyCode) -> (code: u16)
        ensures
            code == mac_keycode(key),
    {
        match key {
            KeyCode::A => 0,
            KeyCode::B => 11,
            KeyCode::C => 8,
            KeyCode::D => 2,
            KeyCode::E => 14,
            KeyCode::Space => 49,
            KeyCode::Enter => 36,
            KeyCode::Tab => 48,
            KeyCode::Escape => 53,
            KeyCode::ArrowUp => 126,
            KeyCode::ArrowDown => 125,
            KeyCode::ArrowLeft => 123,
            KeyCode::ArrowRight => 124,
            _ => 49,
        }
    }
}

/// The handler for Windows.
#[derive(Debug, Clone, Copy, PartialEq, Eq, Structural)]
pub struct WindowsHidHandler {}

impl WindowsHidHandler {
    /// A handler for Windows.
    pub fn new() -> (r: Result<WindowsHidHandler, HidError>)
        ensures
            r == Ok::<WindowsHidHandler, HidError>(WindowsHidHandler {  }),
    {
        Ok(WindowsHidHandler {  })
    }

    /// What Windows is to be sent for `event`.
    pub fn execute_event(&self, event: HidEvent) -> (plan: WindowsPlan)
        ensures
            plan.inputs@ == windows_inputs(event),
            plan.failure == windows_failure(event),
    {
        match event {
            HidEvent::MouseMove { x, y, absolute } => WindowsHidHandler::mouse_move(x, y, absolute),
            HidEvent::MouseClick { button, pressed, x, y } => WindowsHidHandler::mouse_click(
                button,
                pressed,
                x,
                y,
            ),
            HidEvent::MouseScroll { delta_x, delta_y, x: _, y: _ } => {
                let plan = WindowsHidHandler::mouse_scroll(delta_x, delta_y);
                assert(plan.inputs@ == windows_inputs(event));
                plan
            },
            HidEvent::KeyEvent { key, pressed, modifiers } => WindowsHidHandler::key_event(
                key,
                pressed,
                modifiers,
            ),
        }
    }

    /// A move of the pointer.
    pub fn mouse_move(x: i32, y: i32, absolute: bool) -> (plan: WindowsPlan)
        ensures
            plan.inputs@ == seq![windows_move(x, y, absolute)],
            plan.failure is None,
    {
        let mut inputs: Vec<WindowsInput> = Vec::new();
        inputs.push(WindowsHidHandler::move_input(x, y, absolute));
        WindowsPlan { inputs, failure: None }
    }

    /// The input that moves the pointer.
    fn move_input(x: i32, y: i32, absolute: bool) -> (input: WindowsInput)
        ensures
            input == windows_move(x, y, absolute),
    {
        WindowsInput::Mouse {
            dx: x,
            dy: y,
            mouse_data: 0,
            flags: if absolute {
                WindowsMouseFlags::MoveAbsolute
            } else {
                WindowsMouseFlags::Move
            },
        }
    }

    /// A press or release of a mouse button, at the point given if one is.
    /// The pointer is moved there even if the button then turns out to be
    /// one that Windows cannot press.
    pub fn mouse_click(button: MouseButton, pressed: bool, x: Option<i32>, y: Option<i32>) -> (plan:
        WindowsPlan)
        ensures
            plan.inputs@ == windows_inputs(HidEvent::MouseClick { button, pressed, x, y }),
            plan.failure == windows_failure(HidEvent::MouseClick { button, pressed, x, y }),
    {
        let mut inputs: Vec<WindowsInput> = Vec::new();
        match (x, y) {
            (Some(x), Some(y)) => {
                inputs.push(WindowsHidHandler::move_input(x, y, true));
            },
            _ => {},
        }
        let flags = match (button, pressed) {
            (MouseButton::Left, true) => WindowsMouseFlags::LeftDown,
            (MouseButton::Left, false) => WindowsMouseFlags::LeftUp,
            (MouseButton::Right, true) => WindowsMouseFlags::RightDown,
            (MouseButton::Right, false) => WindowsMouseFlags::RightUp,
            (MouseButton::Middle, true) => WindowsMouseFlags::MiddleDown,
            (MouseButton::Middle, false) => WindowsMouseFlags::MiddleUp,
            _ => {
                return WindowsPlan { inputs, failure: Some(HidError::UnsupportedButton(button)) };
            },
        };
        inputs.push(WindowsInput::Mouse { dx: 0, dy: 0, mouse_data: 0, flags });
        WindowsPlan { inputs, failure: None }
    }

    /// A turn of the wheel: first the vertical movement, then the
    /// horizontal one, each only if it is not zero.
    pub fn mouse_scroll(delta_x: i32, delta_y: i32) -> (plan: WindowsPlan)
        ensures
            plan.inputs@ == windows_inputs(HidEvent::MouseScroll { delta_x, delta_y, x: None, y: None }),
            plan.failure is None,
    {
        let mut inputs: Vec<WindowsInput> = Vec::new();
        if delta_y != 0 {
            let data: i64 = (delta_y as i64) * 120;
            inputs.push(WindowsInput::Mouse { dx: 0, dy: 0, mouse_data: data, flags: WindowsMouseFlags::Wheel });
        }
        if delta_x != 0 {
            let data: i64 = (delta_x as i64) * 120;
            inputs.push(
                WindowsInput::Mouse { dx: 0, dy: 0, mouse_data: data, flags: WindowsMouseFlags::HWheel },
            );
        }
        WindowsPlan { inputs, failure: None }
    }

    /// A press or release of a key. The modifiers are not looked at.
    pub fn key_event(key: KeyCode, pressed: bool, modifiers: KeyModifiers) -> (plan: WindowsPlan)
        ensures
            plan.inputs@ == seq![WindowsInput::Key { vk: windows_keycode(key), key_up: !pressed }],
            plan.failure is None,
    {
        let mut inputs: Vec<WindowsInput> = Vec::new();
        inputs.push(WindowsInput::Key { vk: WindowsHidHandler::keycode_to_vk(key), key_up: !pressed });
        WindowsPlan { inputs, failure: None }
    }

    /// The Windows virtual key code of `key`.
    pub fn keycode_to_vk(key: KeyCode) -> (vk: u16)
        ensures
            vk == windows_keycode(key),
    {
        match key {
            KeyCode::A => 0x41,
            KeyCode::B => 0x42,
            KeyCode::C => 0x43,
            KeyCode::D => 0x44,
            KeyCode::E => 0x45,
            KeyCode::Space => 0x20,
            KeyCode::Enter => 0x0D,
            KeyCode::Tab => 0x09,
            KeyCode::Escape => 0x1B,
            KeyCode::ArrowUp => 0x26,
            KeyCode::ArrowDown => 0x28,
            KeyCode::ArrowLeft => 0x25,
            KeyCode::ArrowRight => 0x27,
            _ => 0x20,
        }
    }
}

/// The handler for systems on which input cannot be injected.
#[derive(Debug, Clone, Copy, PartialEq, Eq, Structural)]
pub struct UnsupportedHidHandler {}

impl UnsupportedHidHandler {
    /// There is no such handler: the attempt to make one fails.
    pub fn new() -> (r: Result<UnsupportedHidHandler, HidError>)
        ensures
            r == Err::<UnsupportedHidHandler, HidError>(HidError::UnsupportedPlatform),
    {
        Err(HidError::UnsupportedPlatform)
    }

    /// Every event fails.
    pub fn execute_event(&self, event: HidEvent) -> (r: Result<(), HidError>)
        ensures
            r == Err::<(), HidError>(HidError::UnsupportedPlatform),
    {
        Err(HidError::UnsupportedPlatform)
    }
}

/// What the caller is to do for one event.
#[derive(Debug)]
pub enum HidPlan {
    /// Post this to the macOS event system.
    MacOS(MacAction),
    /// Send this to the Windows input queue.
    Windows(WindowsPlan),
}

/// What the handler of `platform` makes of `event`.
pub open spec fn plan_outcome(platform: Platform, event: HidEvent, r: Result<HidPlan, HidError>) -> bool {
    match platform {
        Platform::MacOS => match mac_plan(event) {
            Ok(action) => r matches Ok(HidPlan::MacOS(a)) && a == action,
            Err(e) => r matches Err(f) && f == e,
        },
        Platform::Windows => r matches Ok(HidPlan::Windows(plan)) && plan.inputs@ == windows_inputs(event)
            && plan.failure == windows_failure(event),
        Platform::Other => r matches Err(HidError::NoHandler),
    }
}

/// The handler of the platform that the target runs on.
#[derive(Debug, Clone, Copy, PartialEq, Eq, Structural)]
pub struct HidHandler {
    pub platform: Platform,
}

impl HidHandler {
    /// The handler for `platform`. It can be made for every platform; on one
    /// that cannot inject input, every event will fail.
    pub fn new(platform: Platform) -> (r: Result<HidHandler, HidError>)
        ensures
            r == Ok::<HidHandler, HidError>(HidHandler { platform }),
    {
        match platform {
            Platform::MacOS => match MacOSHidHandler::new() {
                Ok(_) => Ok(HidHandler { platform }),
                Err(e) => Err(e),
            },
            Platform::Windows => match WindowsHidHandler::new() {
                Ok(_) => Ok(HidHandler { platform }),
                Err(e) => Err(e),
            },
            Platform::Other => Ok(HidHandler { platform }),
        }
    }

    /// What the caller is to do for `event` on this platform.
    pub fn execute_event(&self, event: HidEvent) -> (r: Result<HidPlan, HidError>)
        ensures
            plan_outcome(self.platform, event, r),
    {
        match self.platform {
            Platform::MacOS => match (MacOSHidHandler {  }).execute_event(event) {
                Ok(action) => Ok(HidPlan::MacOS(action)),
                Err(e) => Err(e),
            },
            Platform::Windows => Ok(HidPlan::Windows((WindowsHidHandler {  }).execute_event(event))),
            Platform::Other => Err(HidError::NoHandler),
        }
    }
}

/// What a target does with a message from the server.
#[derive(Debug)]
pub enum ClientAction {
    /// Perform this event.
    Execute(HidEvent),
    /// The server ended the session.
    EndSession,
    /// The session is over, for the reason given.
    SessionEnded { reason: String },
    /// A status message.
    Status,
    /// Nothing to do.
    Ignore,
}

/// What a target does with `message`.
pub open spec fn action_of(message: Message) -> ClientAction {
    match message.message_type {
        MessageType::HidEvent => match message.payload {
            MessagePayload::HidEvent(event) => ClientAction::Execute(event),
            _ => ClientAction::Ignore,
        },
        MessageType::SessionControl => match message.payload {
            MessagePayload::SessionControl(SessionControlMessage::EndSession) => ClientAction::EndSession,
            MessagePayload::SessionControl(SessionControlMessage::SessionEnded { reason }) => {
                ClientAction::SessionEnded { reason }
            },
            _ => ClientAction::Ignore,
        },
        MessageType::Status => ClientAction::Status,
        _ => ClientAction::Ignore,
    }
}

/// A target: the server it registers with, its name, and its handler.
#[derive(Debug)]
pub struct HidClient {
    server_url: String,
    client_id: String,
    client_name: Option<String>,
    hid_handler: HidHandler,
}

impl HidClient {
    /// The address of the session server.
    pub closed spec fn server(&self) -> String {
        self.server_url
    }

    /// The name under which the target registers.
    pub closed spec fn id(&self) -> String {
        self.client_id
    }

    /// The name that is shown to people.
    pub closed spec fn name(&self) -> Option<String> {
        self.client_name
    }

    /// The handler of the platform.
    pub closed spec fn handler(&self) -> HidHandler {
        self.hid_handler
    }

    /// A target that registers as `client_id` at `server_url` and performs
    /// events as `platform` needs them.
    pub fn new(server_url: String, client_id: String, client_name: Option<String>, platform: Platform) -> (r:
        Result<HidClient, HidError>)
        ensures
            r matches Ok(c) && c.server() == server_url && c.id() == client_id && c.name() == client_name
                && c.handler() == (HidHandler { platform }),
    {
        match HidHandler::new(platform) {
            Ok(hid_handler) => Ok(HidClient { server_url, client_id, client_name, hid_handler }),
            Err(e) => Err(e),
        }
    }

    /// The address of the session server.
    pub fn server_url(&self) -> (url: &String)
        ensures
            *url == self.server(),
    {
        &self.server_url
    }

    /// The name under which the target registers.
    pub fn client_id(&self) -> (id: &String)
        ensures
            *id == self.id(),
    {
        &self.client_id
    }

    /// The handler of the platform.
    pub fn hid_handler(&self) -> (handler: &HidHandler)
        ensures
            *handler == self.handler(),
    {
        &self.hid_handler
    }

    /// The first message of the connection: the request to register.
    pub fn registration_message(&self) -> (m: Message)
        ensures
            m.message_type == MessageType::SessionControl,
            m.session_id == None::<SessionId>,
            m.payload matches MessagePayload::SessionControl(
                SessionControlMessage::CreateSession { client_id, client_name },
            ) && client_id == self.id() && (match (client_name, self.name()) {
                (Some(a), Some(b)) => a == b,
                (None, None) => true,
                _ => false,
            }),
            m.consistent(),
    {
        let client_name = match &self.client_name {
            Some(name) => Some(name.clone()),
            None => None,
        };
        Message::session_control(
            None,
            SessionControlMessage::CreateSession { client_id: self.client_id.clone(), client_name },
        )
    }

    /// What the target does with `message`, received from the server.
    pub fn handle_message(&self, message: Message) -> (action: ClientAction)
        ensures
            action == action_of(message),
    {
        match message.message_type {
            MessageType::HidEvent => match message.payload {
                MessagePayload::HidEvent(event) => ClientAction::Execute(event),
                _ => ClientAction::Ignore,
            },
            MessageType::SessionControl => match message.payload {
                MessagePayload::SessionControl(SessionControlMessage::EndSession) => ClientAction::EndSession,
                MessagePayload::SessionControl(SessionControlMessage::SessionEnded { reason }) => {
                    ClientAction::SessionEnded { reason }
                },
                _ => ClientAction::Ignore,
            },
            MessageType::Status => ClientAction::Status,
            _ => ClientAction::Ignore,
        }
    }
}

} // verus!
