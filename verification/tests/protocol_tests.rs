use chrono::Utc;
use remote_hid::ident::SessionId;
use remote_hid::protocol::{
    check_envelope, AuthMessage, ClientInfo, ClientType, HidEvent, KeyCode, KeyModifiers, Message,
    MessagePayload, MessageType, MouseButton, ProtocolError, SessionControlMessage, StatusMessage,
};
use remote_hid::time::Timestamp;
use uuid::Uuid;

/// A fresh session identifier, drawn as a random UUID.
fn new_id() -> SessionId {
    SessionId::from_u128(Uuid::new_v4().as_u128())
}

/// The message as the receiving side accepts it.
fn received(message: Message) -> Message {
    check_envelope(Some(message)).expect("a consistent message is accepted")
}

/// The session-control payload as the receiving side accepts it.
fn received_control(control: SessionControlMessage) -> SessionControlMessage {
    match received(Message::session_control(None, control)).payload {
        MessagePayload::SessionControl(c) => c,
        _ => panic!("Wrong payload type"),
    }
}

/// The status payload as the receiving side accepts it.
fn received_status(status: StatusMessage) -> StatusMessage {
    match received(Message::status(None, status)).payload {
        MessagePayload::Status(s) => s,
        _ => panic!("Wrong payload type"),
    }
}

/// The event as the receiving side accepts it.
fn received_event(event: HidEvent) -> HidEvent {
    match received(Message::hid_event(new_id(), event)).payload {
        MessagePayload::HidEvent(e) => e,
        _ => panic!("Wrong payload type"),
    }
}

#[test]
fn test_message_serialization() {
    let msg = Message::auth_request("user".to_string(), "pass".to_string(), ClientType::Commander, None);

    let deserialized = received(msg);

    match deserialized.payload {
        MessagePayload::Auth(AuthMessage::Request { username, .. }) => {
            assert_eq!(username, "user");
        }
        _ => panic!("Wrong message type"),
    }
}

#[test]
fn test_hid_event_serialization() {
    let event = HidEvent::MouseMove { x: 100, y: 200, absolute: true };
    let msg = Message::hid_event(new_id(), event);

    let deserialized = received(msg);

    match deserialized.payload {
        MessagePayload::HidEvent(HidEvent::MouseMove { x, y, absolute }) => {
            assert_eq!(x, 100);
            assert_eq!(y, 200);
            assert!(absolute);
        }
        _ => panic!("Wrong event type"),
    }
}

#[test]
fn test_auth_message_types() {
    let request = AuthMessage::Request {
        username: "testuser".to_string(),
        password: "testpass".to_string(),
        client_type: ClientType::HidClient,
        client_id: Some("client123".to_string()),
    };

    let deserialized = match received(Message::new(MessageType::Auth, None, MessagePayload::Auth(request))).payload {
        MessagePayload::Auth(a) => a,
        _ => panic!("Wrong payload type"),
    };

    match deserialized {
        AuthMessage::Request { username, client_type, client_id, .. } => {
            assert_eq!(username, "testuser");
            assert!(matches!(client_type, ClientType::HidClient));
            assert_eq!(client_id, Some("client123".to_string()));
        }
        _ => panic!("Wrong auth message type"),
    }

    let response = AuthMessage::Response {
        success: true,
        token: Some("jwt_token_here".to_string()),
        expires_at: Some(Timestamp::now()),
        error_message: None,
    };

    let deserialized = match received(Message::new(MessageType::Auth, None, MessagePayload::Auth(response))).payload {
        MessagePayload::Auth(a) => a,
        _ => panic!("Wrong payload type"),
    };

    match deserialized {
        AuthMessage::Response { success, token, .. } => {
            assert!(success);
            assert_eq!(token, Some("jwt_token_here".to_string()));
        }
        _ => panic!("Wrong auth message type"),
    }
}

#[test]
fn test_hid_event_types() {
    let mouse_move = HidEvent::MouseMove { x: 500, y: 300, absolute: false };
    match received_event(mouse_move) {
        HidEvent::MouseMove { x, y, absolute } => {
            assert_eq!(x, 500);
            assert_eq!(y, 300);
            assert!(!absolute);
        }
        _ => panic!("Wrong event type"),
    }

    let mouse_click = HidEvent::MouseClick { button: MouseButton::Right, pressed: true, x: Some(100), y: Some(200) };
    match received_event(mouse_click) {
        HidEvent::MouseClick { button, pressed, x, y } => {
            assert!(matches!(button, MouseButton::Right));
            assert!(pressed);
            assert_eq!(x, Some(100));
            assert_eq!(y, Some(200));
        }
        _ => panic!("Wrong event type"),
    }

    let mouse_scroll = HidEvent::MouseScroll { delta_x: -5, delta_y: 10, x: None, y: None };
    match received_event(mouse_scroll) {
        HidEvent::MouseScroll { delta_x, delta_y, x, y } => {
            assert_eq!(delta_x, -5);
            assert_eq!(delta_y, 10);
            assert_eq!(x, None);
            assert_eq!(y, None);
        }
        _ => panic!("Wrong event type"),
    }

    let key_event = HidEvent::KeyEvent {
        key: KeyCode::Space,
        pressed: false,
        modifiers: KeyModifiers { shift: true, control: false, alt: true, super_key: false },
    };
    match received_event(key_event) {
        HidEvent::KeyEvent { key, pressed, modifiers } => {
            assert!(matches!(key, KeyCode::Space));
            assert!(!pressed);
            assert!(modifiers.shift);
            assert!(!modifiers.control);
            assert!(modifiers.alt);
            assert!(!modifiers.super_key);
        }
        _ => panic!("Wrong event type"),
    }
}

#[test]
fn test_session_control_messages() {
    let create = SessionControlMessage::CreateSession {
        client_id: "test_client".to_string(),
        client_name: Some("Test Client".to_string()),
    };
    match received_control(create) {
        SessionControlMessage::CreateSession { client_id, client_name } => {
            assert_eq!(client_id, "test_client");
            assert_eq!(client_name, Some("Test Client".to_string()));
        }
        _ => panic!("Wrong session control message type"),
    }

    let join = SessionControlMessage::JoinSession { target_client_id: "target123".to_string() };
    match received_control(join) {
        SessionControlMessage::JoinSession { target_client_id } => {
            assert_eq!(target_client_id, "target123");
        }
        _ => panic!("Wrong session control message type"),
    }

    let clients = vec![
        ClientInfo {
            client_id: "client1".to_string(),
            client_name: Some("Client 1".to_string()),
            platform: "macOS".to_string(),
            connected_at: Timestamp::now(),
            commander_connected: false,
        },
        ClientInfo {
            client_id: "client2".to_string(),
            client_name: None,
            platform: "Windows".to_string(),
            connected_at: Timestamp::now(),
            commander_connected: true,
        },
    ];

    let client_list = SessionControlMessage::ClientList { clients: clients.clone() };
    match received_control(client_list) {
        SessionControlMessage::ClientList { clients: deserialized_clients } => {
            assert_eq!(deserialized_clients.len(), 2);
            assert_eq!(deserialized_clients[0].client_id, "client1");
            assert_eq!(deserialized_clients[1].platform, "Windows");
            assert!(deserialized_clients[1].commander_connected);
        }
        _ => panic!("Wrong session control message type"),
    }
}

#[test]
fn test_status_messages() {
    let heartbeat = StatusMessage::Heartbeat;
    assert!(matches!(received_status(heartbeat), StatusMessage::Heartbeat));

    let status = StatusMessage::ConnectionStatus { connected: true, latency_ms: Some(42) };
    match received_status(status) {
        StatusMessage::ConnectionStatus { connected, latency_ms } => {
            assert!(connected);
            assert_eq!(latency_ms, Some(42));
        }
        _ => panic!("Wrong status message type"),
    }

    let error = StatusMessage::Error {
        error_code: "AUTH_FAILED".to_string(),
        error_message: "Invalid credentials".to_string(),
    };
    match received_status(error) {
        StatusMessage::Error { error_code, error_message } => {
            assert_eq!(error_code, "AUTH_FAILED");
            assert_eq!(error_message, "Invalid credentials");
        }
        _ => panic!("Wrong status message type"),
    }
}

#[test]
fn test_message_constructors() {
    let session_id = new_id();

    let auth_msg = Message::auth_request(
        "user".to_string(),
        "pass".to_string(),
        ClientType::Commander,
        Some("client_id".to_string()),
    );
    assert!(matches!(auth_msg.message_type, MessageType::Auth));
    assert!(auth_msg.session_id.is_none());

    let hid_msg = Message::hid_event(session_id, HidEvent::MouseMove { x: 10, y: 20, absolute: true });
    assert!(matches!(hid_msg.message_type, MessageType::HidEvent));
    assert_eq!(hid_msg.session_id, Some(session_id));

    let session_msg = Message::session_control(Some(session_id), SessionControlMessage::EndSession);
    assert!(matches!(session_msg.message_type, MessageType::SessionControl));
    assert_eq!(session_msg.session_id, Some(session_id));

    let status_msg = Message::status(None, StatusMessage::Heartbeat);
    assert!(matches!(status_msg.message_type, MessageType::Status));
    assert!(status_msg.session_id.is_none());
}

#[test]
fn test_key_modifiers_default() {
    let modifiers = KeyModifiers::default();
    assert!(!modifiers.shift);
    assert!(!modifiers.control);
    assert!(!modifiers.alt);
    assert!(!modifiers.super_key);
}

#[test]
fn test_mouse_button_serialization() {
    let buttons = vec![MouseButton::Left, MouseButton::Right, MouseButton::Middle, MouseButton::X1, MouseButton::X2];

    for button in buttons {
        let deserialized = match received_event(HidEvent::MouseClick { button, pressed: true, x: None, y: None }) {
            HidEvent::MouseClick { button, .. } => button,
            _ => panic!("Wrong event type"),
        };
        assert_eq!(std::mem::discriminant(&button), std::mem::discriminant(&deserialized));
    }
}

#[test]
fn test_keycode_serialization() {
    let keys = vec![
        KeyCode::A,
        KeyCode::B,
        KeyCode::Z,
        KeyCode::Key0,
        KeyCode::Key9,
        KeyCode::F1,
        KeyCode::F12,
        KeyCode::Space,
        KeyCode::Enter,
        KeyCode::Tab,
        KeyCode::ArrowUp,
        KeyCode::ArrowDown,
        KeyCode::LeftShift,
        KeyCode::RightControl,
    ];

    for key in keys {
        let deserialized =
            match received_event(HidEvent::KeyEvent { key, pressed: true, modifiers: KeyModifiers::default() }) {
                HidEvent::KeyEvent { key, .. } => key,
                _ => panic!("Wrong event type"),
            };
        assert_eq!(std::mem::discriminant(&key), std::mem::discriminant(&deserialized));
    }
}

#[test]
fn test_client_type_serialization() {
    let types = vec![ClientType::HidClient, ClientType::Commander];

    for client_type in types {
        let message = Message::auth_request("user".to_string(), "pass".to_string(), client_type, None);
        let deserialized = match received(message).payload {
            MessagePayload::Auth(AuthMessage::Request { client_type, .. }) => client_type,
            _ => panic!("Wrong message type"),
        };
        assert_eq!(std::mem::discriminant(&client_type), std::mem::discriminant(&deserialized));
    }
}

#[test]
fn test_message_timestamp() {
    let before = Utc::now();
    let msg = Message::status(None, StatusMessage::Heartbeat);
    let after = Utc::now();

    let stamp = (msg.timestamp.secs, msg.timestamp.nanos);
    assert!(stamp >= (before.timestamp(), before.timestamp_subsec_nanos()));
    assert!(stamp <= (after.timestamp(), after.timestamp_subsec_nanos()));
}

#[test]
fn test_message_roundtrip_serialization() {
    let original_messages = vec![
        Message::auth_request(
            "testuser".to_string(),
            "password".to_string(),
            ClientType::Commander,
            Some("commander-1".to_string()),
        ),
        Message::hid_event(new_id(), HidEvent::MouseMove { x: 100, y: 200, absolute: true }),
        Message::hid_event(
            new_id(),
            HidEvent::KeyEvent { key: KeyCode::A, pressed: true, modifiers: KeyModifiers::default() },
        ),
        Message::session_control(
            None,
            SessionControlMessage::CreateSession {
                client_id: "hid-client-1".to_string(),
                client_name: Some("Test Machine".to_string()),
            },
        ),
    ];

    for original in original_messages {
        let deserialized = received(original.clone());

        assert_eq!(
            std::mem::discriminant(&original.message_type),
            std::mem::discriminant(&deserialized.message_type)
        );
        assert_eq!(original.session_id, deserialized.session_id);
    }
}

#[test]
fn test_keycode_coverage() {
    let test_keys = vec![
        KeyCode::A,
        KeyCode::Z,
        KeyCode::Key0,
        KeyCode::Key9,
        KeyCode::F1,
        KeyCode::F12,
        KeyCode::Space,
        KeyCode::Enter,
        KeyCode::ArrowUp,
        KeyCode::ArrowDown,
        KeyCode::LeftShift,
        KeyCode::RightControl,
    ];

    for key in test_keys {
        let event = HidEvent::KeyEvent { key, pressed: true, modifiers: KeyModifiers::default() };
        let message = Message::hid_event(new_id(), event);
        let _deserialized = received(message);
    }
}

#[test]
fn test_mouse_events() {
    let mouse_events = vec![
        HidEvent::MouseMove { x: 0, y: 0, absolute: true },
        HidEvent::MouseMove { x: -10, y: 5, absolute: false },
        HidEvent::MouseClick { button: MouseButton::Left, pressed: true, x: Some(100), y: Some(200) },
        HidEvent::MouseClick { button: MouseButton::Right, pressed: false, x: None, y: None },
        HidEvent::MouseScroll { delta_x: 0, delta_y: 3, x: Some(150), y: Some(250) },
    ];

    for event in mouse_events {
        let message = Message::hid_event(new_id(), event);
        let _deserialized = received(message);
    }
}

#[test]
fn envelope_that_did_not_decode_is_malformed() {
    assert_eq!(check_envelope(None).unwrap_err(), ProtocolError::MalformedEnvelope);
}

#[test]
fn envelope_with_payload_of_another_kind_is_a_mismatch() {
    let timestamp = Timestamp::new(1_700_000_000, 0);
    let message = Message::stamped(
        MessageType::HidEvent,
        None,
        timestamp,
        MessagePayload::Status(StatusMessage::Heartbeat),
    );
    assert!(!message.is_consistent());
    assert_eq!(check_envelope(Some(message)).unwrap_err(), ProtocolError::PayloadMismatch);
}

#[test]
fn every_payload_has_the_kind_of_its_variant() {
    assert_eq!(MessagePayload::Status(StatusMessage::Heartbeat).kind(), MessageType::Status);
    assert_eq!(MessagePayload::Auth(AuthMessage::Logout).kind(), MessageType::Auth);
    assert_eq!(
        MessagePayload::SessionControl(SessionControlMessage::ListClients).kind(),
        MessageType::SessionControl
    );
    assert_eq!(
        MessagePayload::HidEvent(HidEvent::MouseMove { x: 1, y: 2, absolute: false }).kind(),
        MessageType::HidEvent
    );
}

#[test]
fn stamped_message_keeps_every_field() {
    let id = SessionId::from_u128(7);
    let timestamp = Timestamp::new(12, 34);
    let message = Message::stamped(
        MessageType::Status,
        Some(id),
        timestamp,
        MessagePayload::Status(StatusMessage::Heartbeat),
    );
    assert_eq!(message.message_type, MessageType::Status);
    assert_eq!(message.session_id, Some(id));
    assert_eq!(message.timestamp, timestamp);
    assert!(message.is_consistent());
}

#[test]
fn session_id_text_is_the_hyphenated_uuid() {
    let id = SessionId::from_u128(0xa1a2a3a4b1b2c1c2d1d2d3d4d5d6d7d8);
    assert_eq!(id.to_text(), "a1a2a3a4-b1b2-c1c2-d1d2-d3d4d5d6d7d8");
    assert_eq!(id.as_u128(), 0xa1a2a3a4b1b2c1c2d1d2d3d4d5d6d7d8);
}

#[test]
fn random_session_id_is_a_version_four_uuid() {
    let id = SessionId::random();
    let uuid = Uuid::from_u128(id.as_u128());
    assert_eq!(uuid.get_version_num(), 4);
    assert_ne!(SessionId::random(), id);
}

#[test]
fn timestamps_compare_by_nanoseconds() {
    let early = Timestamp::new(10, 999_999_999);
    let late = Timestamp::new(11, 0);
    assert!(late.is_after(&early));
    assert!(!early.is_after(&late));
    assert!(!early.is_after(&early));
    assert_eq!(late.nanos_since(&early), 1);
    assert_eq!(early.nanos_since(&late), -1);
    assert_eq!(Timestamp::new(-1, 500_000_000).total_nanos(), -500_000_000);
    assert_eq!(Timestamp::new(2, 5).total_nanos(), 2_000_000_005);
}

#[test]
fn idle_means_strictly_more_than_the_timeout() {
    let since = Timestamp::new(1000, 0);
    assert!(!since.idle_at(&Timestamp::new(1060, 0), 1));
    assert!(since.idle_at(&Timestamp::new(1060, 1), 1));
    assert!(!since.idle_at(&Timestamp::new(1000, 0), 0));
    assert!(since.idle_at(&Timestamp::new(1000, 1), 0));
    assert!(!since.idle_at(&Timestamp::new(900, 0), 0));
    assert!(!since.idle_at(&Timestamp::new(i64::MAX, 0), u64::MAX));
}

#[test]
fn session_id_text_has_thirty_six_characters_with_hyphens_in_place() {
    for bits in [0u128, 1, 0xf, 0x10, u128::MAX, 0x0123_4567_89ab_cdef_0123_4567_89ab_cdef] {
        let text = SessionId::from_u128(bits).to_text();
        assert_eq!(text.len(), 36);
        assert_eq!(text, Uuid::from_u128(bits).hyphenated().to_string());
        let digits: String = text.chars().filter(|c| *c != '-').collect();
        assert_eq!(digits, format!("{:032x}", bits));
        for at in [8, 13, 18, 23] {
            assert_eq!(text.as_bytes()[at], b'-');
        }
    }
    assert_eq!(SessionId::from_u128(0).to_text(), "00000000-0000-0000-0000-000000000000");
    assert_eq!(SessionId::from_u128(0x1f).to_text(), "00000000-0000-0000-0000-00000000001f");
}
