use quest_presence::errors::DecodeError;
use quest_presence::events::EventKind;
use quest_presence::events::disconnect_signal_name;
use quest_presence::greet;
use quest_presence::lifecycle::connect_command;
use quest_presence::lifecycle::on_connect_success;
use quest_presence::lifecycle::on_disconnect_signal;
use quest_presence::session::ClientSlot;
use quest_presence::session::Session;
use quest_presence::session::get_discord_client;

fn session(application_id: u64, connection: u64) -> Session {
    Session { application_id, connection, user: "user".to_string() }
}

#[test]
fn slot_starts_empty() {
    let mut slot: ClientSlot = get_discord_client();
    assert!(!slot.is_occupied());
    assert!(slot.take().is_none());
}

#[test]
fn take_empties_the_slot() {
    let mut slot = get_discord_client();
    slot.replace(session(1, 10));
    let first = slot.take();
    assert_eq!(first.map(|s| s.connection), Some(10));
    // The same installed session can never be observed by a second take.
    assert!(slot.take().is_none());
    assert!(slot.take().is_none());
}

#[test]
fn replace_overwrites() {
    let mut slot = get_discord_client();
    slot.replace(session(1, 10));
    slot.replace(session(2, 20));
    let got = slot.take().unwrap();
    assert_eq!(got.application_id, 2);
    assert_eq!(got.connection, 20);
}

#[test]
fn connect_emits_connecting_then_connected() {
    let mut slot = get_discord_client();
    let start = connect_command(
        &mut slot,
        "{\"app_id\":\"123\",\"details\":\"D\"}".to_string(),
        "connect".to_string(),
    )
    .unwrap();
    assert_eq!(start.app_id, 123);
    assert_eq!(start.connecting.kind, EventKind::ClientConnecting);
    assert_eq!(start.connecting.application_id, 123);
    assert_eq!(start.connecting.name(), "client_connecting");
    assert!(start.evicted.is_none());
    assert_eq!(start.descriptor.details.as_deref(), Some("D"));
    assert!(!slot.is_occupied());

    let ev = on_connect_success(&mut slot, session(123, 1));
    assert_eq!(ev.kind, EventKind::ClientConnected);
    assert_eq!(ev.application_id, 123);
    assert_eq!(ev.name(), "client_connected");
    assert!(slot.is_occupied());

    let closed = on_disconnect_signal(&mut slot);
    assert_eq!(closed.map(|s| s.application_id), Some(123));
    assert!(!slot.is_occupied());
}

#[test]
fn decode_failure_leaves_slot_untouched() {
    let mut slot = get_discord_client();
    slot.replace(session(7, 70));
    let r = connect_command(&mut slot, "nonsense".to_string(), "connect".to_string());
    assert_eq!(r.err(), Some(DecodeError::Malformed));
    assert!(slot.is_occupied());
    assert_eq!(slot.take().map(|s| s.connection), Some(70));
}

#[test]
fn connect_evicts_previous_session() {
    let mut slot = get_discord_client();
    slot.replace(session(7, 70));
    let start = connect_command(
        &mut slot,
        "{\"app_id\":\"8\"}".to_string(),
        "connect".to_string(),
    )
    .unwrap();
    assert_eq!(start.evicted.map(|s| s.connection), Some(70));
    assert!(!slot.is_occupied());
}

#[test]
fn disconnect_on_empty_slot_is_noop() {
    let mut slot = get_discord_client();
    assert!(on_disconnect_signal(&mut slot).is_none());
    assert!(!slot.is_occupied());
}

#[test]
fn disconnect_signal_name_is_fixed() {
    assert_eq!(disconnect_signal_name(), "event_disconnect");
}

#[test]
fn greet_formats_the_name() {
    assert_eq!(greet("World"), "Hello, World! You've been greeted from Rust!");
}
