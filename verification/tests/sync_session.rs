use clippi::clipboard::ClipboardFile;
use clippi::sync::{should_relay, ConnectRequest, Envelope, IncomingAction, RelayRequest, SyncSession};

fn envelope(kind: &str, room: &str, sender: &str, text: &str) -> Envelope {
    Envelope { kind: kind.into(), room: room.into(), sender_id: sender.into(), text: text.into() }
}

fn file(path: &str) -> ClipboardFile {
    ClipboardFile { path: path.into(), name: "n".into(), size: 1, mime: "text/plain".into() }
}

#[test]
fn join_announces_the_client() {
    let s = SyncSession::new("sala".into(), "me".into());
    assert_eq!(s.join_envelope(), envelope("join", "sala", "me", ""));
}

#[test]
fn new_text_is_sent_once() {
    let mut s = SyncSession::new("sala".into(), "me".into());
    let e = s.outgoing_text("hola").expect("new text is sent");
    assert_eq!(e, envelope("clipboard", "sala", "me", "hola"));
    assert!(s.record_send("hola".into(), true));
    assert_eq!(s.outgoing_text("hola"), None);
    assert!(s.outgoing_text("chau").is_some());
}

#[test]
fn failed_send_stops_and_is_retried() {
    let mut s = SyncSession::new("sala".into(), "me".into());
    assert!(!s.record_send("hola".into(), false));
    assert!(s.outgoing_text("hola").is_some());
}

#[test]
fn received_text_is_not_echoed() {
    let mut s = SyncSession::new("sala".into(), "me".into());
    let p = envelope("clipboard", "sala", "other", "desde otro");
    assert_eq!(s.incoming(&p), IncomingAction::WriteClipboard);
    s.record_applied(p.text.clone(), true);
    assert_eq!(s.outgoing_text("desde otro"), None);
    let mut t = SyncSession::new("sala".into(), "me".into());
    t.record_applied("x".into(), false);
    assert!(t.outgoing_text("x").is_some());
}

#[test]
fn only_foreign_messages_of_the_room_matter() {
    let s = SyncSession::new("sala".into(), "me".into());
    assert_eq!(s.incoming(&envelope("join", "sala", "other", "")), IncomingAction::Echo);
    assert_eq!(s.incoming(&envelope("join", "sala", "me", "")), IncomingAction::Ignore);
    assert_eq!(s.incoming(&envelope("clipboard", "sala", "me", "x")), IncomingAction::Ignore);
    assert_eq!(s.incoming(&envelope("clipboard", "otra", "other", "x")), IncomingAction::Ignore);
    assert_eq!(s.incoming(&envelope("ping", "sala", "other", "x")), IncomingAction::Ignore);
}

#[test]
fn clipboard_files_are_reported_when_new() {
    let mut s = SyncSession::new("sala".into(), "me".into());
    let files = vec![file("/a"), file("/b")];
    assert!(s.observe_files(&files));
    assert!(!s.observe_files(&files));
    assert!(s.observe_files(&files));
    assert!(!s.observe_files(&Vec::new()));
    assert!(s.observe_files(&vec![file("/c")]));
    assert!(s.observe_files(&files));
}

#[test]
fn connect_requests_are_checked() {
    let ok = ConnectRequest { endpoint: "ws://192.168.1.20:8787".into(), room: "casa".into(), client_id: "c".into() };
    assert_eq!(ok.check(), Ok(()));
    let secure = ConnectRequest { endpoint: "wss://relay".into(), room: "casa".into(), client_id: "c".into() };
    assert_eq!(secure.check(), Ok(()));
    let bad = ConnectRequest { endpoint: "http://x".into(), room: "casa".into(), client_id: "c".into() };
    assert_eq!(bad.check(), Err("La dirección debe comenzar con ws:// o wss://".to_string()));
    let blank = ConnectRequest { endpoint: "ws://x".into(), room: " \t ".into(), client_id: "c".into() };
    assert_eq!(blank.check(), Err("La sala no puede estar vacía".to_string()));
}

#[test]
fn relay_requests_are_checked() {
    let ok = RelayRequest { port: 8787, room: "casa".into(), client_id: "c".into() };
    assert_eq!(ok.check(), Ok(()));
    let zero = RelayRequest { port: 0, room: "casa".into(), client_id: "c".into() };
    assert_eq!(zero.check(), Err("El puerto debe estar entre 1 y 65535".to_string()));
    let blank = RelayRequest { port: 1, room: "".into(), client_id: "c".into() };
    assert_eq!(blank.check(), Err("La sala no puede estar vacía".to_string()));
    let local = ok.local_connect_request();
    assert_eq!(local.endpoint, "ws://127.0.0.1:8787");
    assert_eq!(local.room, "casa");
    assert_eq!(local.client_id, "c");
}

#[test]
fn relay_passes_on_join_and_clipboard_only() {
    assert!(should_relay("join"));
    assert!(should_relay("clipboard"));
    assert!(!should_relay(""));
    assert!(!should_relay("Join"));
}
