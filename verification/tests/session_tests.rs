use remote_hid::config::Config;
use remote_hid::ident::SessionId;
use remote_hid::protocol::{
    check_envelope, HidEvent, KeyCode, KeyModifiers, Message, MessagePayload, MessageType, MouseButton,
    SessionControlMessage, StatusMessage,
};
use remote_hid::server::SessionServer;
use remote_hid::session::{PairingError, Session, SessionManager};
use remote_hid::time::Timestamp;
use uuid::Uuid;

fn new_id() -> SessionId {
    SessionId::from_u128(Uuid::new_v4().as_u128())
}

fn received(message: Message) -> Message {
    check_envelope(Some(message)).expect("a consistent message is accepted")
}

#[test]
fn test_session_manager_creation() {
    let manager = SessionManager::new();
    assert_eq!(manager.list_sessions().len(), 0);
}

#[test]
fn test_session_creation() {
    let mut manager = SessionManager::new();

    let result = manager.create_session("commander1".to_string(), "client1".to_string());

    assert!(result.is_ok());
    let session_id = result.unwrap();

    let session = manager.get_session(session_id);
    assert!(session.is_some());

    let session = session.unwrap();
    assert_eq!(session.commander_id, "commander1");
    assert_eq!(session.hid_client_id, "client1");

    let sessions = manager.list_sessions();
    assert_eq!(sessions.len(), 1);
    assert_eq!(sessions[0].id, session_id);
}

#[test]
fn test_session_creation_duplicate_client() {
    let mut manager = SessionManager::new();

    let result1 = manager.create_session("commander1".to_string(), "client1".to_string());
    assert!(result1.is_ok());

    let result2 = manager.create_session("commander2".to_string(), "client1".to_string());
    assert!(result2.is_err());
    assert_eq!(result2.unwrap_err(), PairingError::TargetAlreadyPaired);

    assert_eq!(manager.list_sessions().len(), 1);
}

#[test]
fn test_session_end() {
    let mut manager = SessionManager::new();

    let session_id = manager.create_session("commander1".to_string(), "client1".to_string()).unwrap();

    let ended_session = manager.end_session(session_id);
    assert!(ended_session.is_some());

    let ended = ended_session.unwrap();
    assert_eq!(ended.id, session_id);

    assert!(manager.get_session(session_id).is_none());
    assert_eq!(manager.list_sessions().len(), 0);
}

#[test]
fn test_get_session_by_client() {
    let mut manager = SessionManager::new();

    let _session_id = manager.create_session("commander1".to_string(), "client1".to_string()).unwrap();

    let session = manager.get_session_by_client("client1");
    assert!(session.is_some());

    let session = session.unwrap();
    assert_eq!(session.hid_client_id, "client1");
    assert_eq!(session.commander_id, "commander1");

    assert!(manager.get_session_by_client("nonexistent").is_none());
}

#[test]
fn test_session_activity_update() {
    let mut manager = SessionManager::new();

    let session_id = manager.create_session("commander1".to_string(), "client1".to_string()).unwrap();

    let original_activity = manager.get_session(session_id).unwrap().last_activity;

    // Wait until the clock has moved on.
    while !Timestamp::now().is_after(&original_activity) {}

    manager.update_session_activity(session_id);

    let updated_activity = manager.get_session(session_id).unwrap().last_activity;
    assert!(updated_activity.is_after(&original_activity));
}

#[test]
fn test_cleanup_expired_sessions() {
    let mut manager = SessionManager::new();

    let session_id = manager.create_session("commander1".to_string(), "client1".to_string()).unwrap();

    let expired = manager.cleanup_expired_sessions(1);
    assert_eq!(expired.len(), 0);
    assert_eq!(manager.list_sessions().len(), 1);

    let expired = manager.cleanup_expired_sessions(0);
    assert_eq!(expired.len(), 1);
    assert_eq!(expired[0].id, session_id);
    assert_eq!(manager.list_sessions().len(), 0);
}

#[test]
fn test_multiple_sessions() {
    let mut manager = SessionManager::new();

    let session1 = manager.create_session("commander1".to_string(), "client1".to_string()).unwrap();
    let session2 = manager.create_session("commander2".to_string(), "client2".to_string()).unwrap();

    let sessions = manager.list_sessions();
    assert_eq!(sessions.len(), 2);

    assert_ne!(session1, session2);
    assert!(manager.get_session(session1).is_some());
    assert!(manager.get_session(session2).is_some());
}

fn create_test_config() -> Config {
    let mut config = Config::default();
    config.server.host = "127.0.0.1".to_string();
    config.server.port = 8080;
    config.server.max_connections = 100;
    config.server.heartbeat_interval_secs = 30;
    config.auth.jwt_secret = "test_secret".to_string();
    config.auth.token_expiry_hours = 24;
    config.auth.max_failed_attempts = 3;
    config.auth.lockout_duration_mins = 15;
    config.session.max_sessions = 10;
    config.session.session_timeout_mins = 30;
    config.session.cleanup_interval_secs = 60;
    config
}

#[test]
fn test_server_state_creation() {
    let config = create_test_config();
    let server = SessionServer::new(config);
    assert_eq!(server.registry().len(), 0);
    assert_eq!(server.sessions().list_sessions().len(), 0);
    assert_eq!(server.config().session.session_timeout_mins, 30);
    assert!(server.can_accept());
}

#[test]
fn test_config_default() {
    let config = Config::default();

    assert_eq!(config.server.host, "127.0.0.1");
    assert_eq!(config.server.port, 8080);
    assert_eq!(config.server.max_connections, 1000);
    assert_eq!(config.server.heartbeat_interval_secs, 30);
    assert_eq!(config.auth.max_failed_attempts, 3);
    assert_eq!(config.session.max_sessions, 100);
}

#[test]
fn default_config_is_what_a_new_file_starts_with() {
    let config = Config::create_default_config();
    assert_eq!(config.server.host, "127.0.0.1");
    assert_eq!(config.server.port, 8080);
    assert_eq!(config.auth.jwt_secret, "your-secret-key-change-this-in-production");
    assert_eq!(config.auth.token_expiry_hours, 24);
    assert_eq!(config.auth.lockout_duration_mins, 15);
    assert_eq!(config.session.session_timeout_mins, 60);
    assert_eq!(config.session.cleanup_interval_secs, 300);
}

#[test]
fn test_hid_event_message_creation() {
    let session_id = new_id();
    let mouse_event = HidEvent::MouseMove { x: 100, y: 200, absolute: true };

    let message = Message::hid_event(session_id, mouse_event);

    assert!(matches!(message.message_type, MessageType::HidEvent));
    assert_eq!(message.session_id, Some(session_id));

    match message.payload {
        MessagePayload::HidEvent(HidEvent::MouseMove { x, y, absolute }) => {
            assert_eq!(x, 100);
            assert_eq!(y, 200);
            assert!(absolute);
        }
        _ => panic!("Wrong payload type"),
    }
}

#[test]
fn test_session_control_message_creation() {
    let create_session = SessionControlMessage::CreateSession {
        client_id: "test_client".to_string(),
        client_name: Some("Test Client".to_string()),
    };

    let message = Message::session_control(None, create_session);

    assert!(matches!(message.message_type, MessageType::SessionControl));
    assert!(message.session_id.is_none());

    match message.payload {
        MessagePayload::SessionControl(SessionControlMessage::CreateSession { client_id, client_name }) => {
            assert_eq!(client_id, "test_client");
            assert_eq!(client_name, Some("Test Client".to_string()));
        }
        _ => panic!("Wrong payload type"),
    }
}

#[test]
fn test_keyboard_event_message() {
    let session_id = new_id();
    let key_event = HidEvent::KeyEvent {
        key: KeyCode::Space,
        pressed: true,
        modifiers: KeyModifiers { shift: false, control: true, alt: false, super_key: false },
    };

    let message = Message::hid_event(session_id, key_event);
    let deserialized = received(message);

    match deserialized.payload {
        MessagePayload::HidEvent(HidEvent::KeyEvent { key, pressed, modifiers }) => {
            assert!(matches!(key, KeyCode::Space));
            assert!(pressed);
            assert!(!modifiers.shift);
            assert!(modifiers.control);
            assert!(!modifiers.alt);
            assert!(!modifiers.super_key);
        }
        _ => panic!("Wrong event type"),
    }
}

#[test]
fn test_mouse_click_event_message() {
    let session_id = new_id();
    let click_event = HidEvent::MouseClick { button: MouseButton::Right, pressed: false, x: Some(150), y: Some(250) };

    let message = Message::hid_event(session_id, click_event);
    let deserialized = received(message);

    match deserialized.payload {
        MessagePayload::HidEvent(HidEvent::MouseClick { button, pressed, x, y }) => {
            assert!(matches!(button, MouseButton::Right));
            assert!(!pressed);
            assert_eq!(x, Some(150));
            assert_eq!(y, Some(250));
        }
        _ => panic!("Wrong event type"),
    }
}

#[test]
fn test_status_message_types() {
    let heartbeat_msg = Message::status(None, StatusMessage::Heartbeat);
    assert!(matches!(heartbeat_msg.message_type, MessageType::Status));

    let status_msg =
        Message::status(Some(new_id()), StatusMessage::ConnectionStatus { connected: true, latency_ms: Some(25) });

    let deserialized = received(status_msg);

    match deserialized.payload {
        MessagePayload::Status(StatusMessage::ConnectionStatus { connected, latency_ms }) => {
            assert!(connected);
            assert_eq!(latency_ms, Some(25));
        }
        _ => panic!("Wrong status message type"),
    }

    let error_msg = Message::status(
        None,
        StatusMessage::Error { error_code: "TIMEOUT".to_string(), error_message: "Connection timed out".to_string() },
    );

    let deserialized = received(error_msg);

    match deserialized.payload {
        MessagePayload::Status(StatusMessage::Error { error_code, error_message }) => {
            assert_eq!(error_code, "TIMEOUT");
            assert_eq!(error_message, "Connection timed out");
        }
        _ => panic!("Wrong status message type"),
    }
}

#[test]
fn session_opened_at_an_instant_starts_its_clock_there() {
    let now = Timestamp::new(1_700_000_000, 42);
    let session = Session::opened_at(SessionId::from_u128(9), "c".to_string(), "t".to_string(), now);
    assert_eq!(session.id, SessionId::from_u128(9));
    assert_eq!(session.commander_id, "c");
    assert_eq!(session.hid_client_id, "t");
    assert_eq!(session.created_at, now);
    assert_eq!(session.last_activity, now);
}

#[test]
fn new_session_has_a_random_identifier_and_one_clock() {
    let session = Session::new("c".to_string(), "t".to_string());
    assert_eq!(session.created_at, session.last_activity);
    assert_eq!(Uuid::from_u128(session.id.as_u128()).get_version_num(), 4);
    assert!(!session.is_expired(1));
}

#[test]
fn session_expires_strictly_after_the_timeout() {
    let start = Timestamp::new(5000, 0);
    let mut session = Session::opened_at(SessionId::from_u128(1), "c".to_string(), "t".to_string(), start);
    assert!(!session.is_expired_at(&Timestamp::new(5000 + 120, 0), 2));
    assert!(session.is_expired_at(&Timestamp::new(5000 + 120, 1), 2));
    session.update_activity_at(Timestamp::new(5100, 0));
    assert_eq!(session.created_at, start);
    assert_eq!(session.last_activity, Timestamp::new(5100, 0));
    assert!(!session.is_expired_at(&Timestamp::new(5000 + 120, 1), 2));
}

#[test]
fn create_session_with_refuses_a_paired_target_before_it_looks_at_the_identifier() {
    let mut manager = SessionManager::new();
    let now = Timestamp::new(100, 0);
    let first = SessionId::from_u128(1);
    assert_eq!(manager.create_session_with(first, "c1".to_string(), "t1".to_string(), now), Ok(first));
    assert_eq!(
        manager.create_session_with(first, "c2".to_string(), "t1".to_string(), now),
        Err(PairingError::TargetAlreadyPaired)
    );
    assert_eq!(
        manager.create_session_with(SessionId::from_u128(2), "c2".to_string(), "t1".to_string(), now),
        Err(PairingError::TargetAlreadyPaired)
    );
    assert_eq!(
        manager.create_session_with(first, "c2".to_string(), "t2".to_string(), now),
        Err(PairingError::IdCollision)
    );
    assert_eq!(manager.list_sessions().len(), 1);
    assert_eq!(manager.list_sessions()[0].commander_id, "c1");
}

#[test]
fn ending_a_session_twice_is_ending_it_once() {
    let mut manager = SessionManager::new();
    let now = Timestamp::new(100, 0);
    let a = SessionId::from_u128(1);
    let b = SessionId::from_u128(2);
    manager.create_session_with(a, "c1".to_string(), "t1".to_string(), now).unwrap();
    manager.create_session_with(b, "c2".to_string(), "t2".to_string(), now).unwrap();
    let ended = manager.end_session(a).unwrap();
    assert_eq!(ended.hid_client_id, "t1");
    assert!(manager.end_session(a).is_none());
    assert_eq!(manager.list_sessions().len(), 1);
    assert_eq!(manager.list_sessions()[0].id, b);
    // The target is free again.
    assert_eq!(manager.create_session_with(a, "c3".to_string(), "t1".to_string(), now), Ok(a));
}

#[test]
fn sweep_removes_exactly_the_idle_sessions_in_order() {
    let mut manager = SessionManager::new();
    let ids: Vec<SessionId> = (1..=4u128).map(SessionId::from_u128).collect();
    manager.create_session_with(ids[0], "c1".to_string(), "t1".to_string(), Timestamp::new(0, 0)).unwrap();
    manager.create_session_with(ids[1], "c2".to_string(), "t2".to_string(), Timestamp::new(600, 0)).unwrap();
    manager.create_session_with(ids[2], "c3".to_string(), "t3".to_string(), Timestamp::new(10, 0)).unwrap();
    manager.create_session_with(ids[3], "c4".to_string(), "t4".to_string(), Timestamp::new(601, 0)).unwrap();

    // At 1200 s with a timeout of ten minutes: idle for more than 600 s.
    let expired = manager.cleanup_expired_sessions_at(Timestamp::new(1200, 0), 10);
    let gone: Vec<SessionId> = expired.iter().map(|s| s.id).collect();
    assert_eq!(gone, vec![ids[0], ids[2]]);
    let left: Vec<SessionId> = manager.list_sessions().iter().map(|s| s.id).collect();
    assert_eq!(left, vec![ids[1], ids[3]]);
    assert!(manager.get_session_by_client("t1").is_none());
    assert!(manager.get_session_by_client("t2").is_some());

    // A second sweep at the same instant finds nothing.
    assert!(manager.cleanup_expired_sessions_at(Timestamp::new(1200, 0), 10).is_empty());
}

#[test]
fn session_touched_within_the_timeout_survives_the_sweep() {
    let mut manager = SessionManager::new();
    let a = SessionId::from_u128(1);
    let b = SessionId::from_u128(2);
    manager.create_session_with(a, "c1".to_string(), "t1".to_string(), Timestamp::new(0, 0)).unwrap();
    manager.create_session_with(b, "c2".to_string(), "t2".to_string(), Timestamp::new(0, 0)).unwrap();
    manager.update_session_activity_at(a, Timestamp::new(100, 0));
    // Activity on a session that is not there is no error.
    manager.update_session_activity_at(SessionId::from_u128(99), Timestamp::new(100, 0));
    assert_eq!(manager.get_session(a).unwrap().last_activity, Timestamp::new(100, 0));
    assert_eq!(manager.get_session(a).unwrap().created_at, Timestamp::new(0, 0));
    assert_eq!(manager.get_session(b).unwrap().last_activity, Timestamp::new(0, 0));

    let expired = manager.cleanup_expired_sessions_at(Timestamp::new(130, 0), 1);
    assert_eq!(expired.len(), 1);
    assert_eq!(expired[0].id, b);
    assert!(manager.get_session(a).is_some());
    assert!(manager.get_session_by_client("t1").is_some());
    assert!(manager.get_session_by_client("t2").is_none());
}

#[test]
fn first_pairing_on_a_new_table_succeeds() {
    for _ in 0..20 {
        let mut manager = SessionManager::new();
        let id = manager.create_session("commander1".to_string(), "client1".to_string()).unwrap();
        assert_eq!(Uuid::from_u128(id.as_u128()).get_version_num(), 4);
        assert_eq!(manager.list_sessions().len(), 1);
        assert_eq!(manager.list_sessions()[0].id, id);
    }
}

#[test]
fn pairing_on_a_table_without_random_identifiers_succeeds() {
    let mut manager = SessionManager::new();
    // Identifiers that are no version-4 UUIDs: no draw can collide with them.
    for n in 0..8u128 {
        manager
            .create_session_with(SessionId::from_u128(n), format!("c{}", n), format!("t{}", n), Timestamp::new(0, 0))
            .unwrap();
    }
    let id = manager.create_session("commander".to_string(), "target".to_string()).unwrap();
    assert!(manager.get_session(id).is_some());
    assert_eq!(manager.list_sessions().len(), 9);
    assert_eq!(
        manager.create_session("other".to_string(), "target".to_string()),
        Err(PairingError::TargetAlreadyPaired)
    );
}
