use dezap::crypto::encrypt_text;
use dezap::protocol::{FileChunk, FileMetadata};
use dezap::service::{first_frame_action, StreamAction};
use dezap::addr::{IpAddress, PeerAddr};
use dezap::config::LimitsConfig;
use dezap::crypto::CryptoCtx;
use dezap::peers::SavedPeersStore;
use dezap::protocol::{ControlMessage, FileAccept, FileOffer, FileReject, HelloMessage, TextMessage, WireMessage};
use dezap::service::{
    discovery_events, handle_control, text_received, ConnectionMeta, DiscoveryEvent, ServiceError, ServiceEvent,
    ServiceState,
};
use dezap::transfer::{register_outgoing, PreparedTransfer, TransferBook};

fn peer() -> PeerAddr {
    PeerAddr { ip: IpAddress::V4(u32::from_be_bytes([127, 0, 0, 1])), port: 5001 }
}

fn hello(password: Option<&str>, key: [u8; 32]) -> ControlMessage {
    ControlMessage::Hello(HelloMessage { username: "bob".into(), password: password.map(String::from), public_key: key })
}

fn parts() -> (ConnectionMeta, TransferBook, SavedPeersStore) {
    (ConnectionMeta::new(CryptoCtx::new().unwrap()), TransferBook::new(), SavedPeersStore::new(Vec::new()))
}

#[test]
fn wrong_or_missing_password_is_denied() {
    for offered in [None, Some("guess")] {
        let (mut meta, mut book, mut peers) = parts();
        let r = handle_control(&mut meta, &mut book, &mut peers, &Some("s3cret".into()), peer(), "127.0.0.1:5001", hello(offered, [1; 32]));
        assert!(matches!(r.reply, Some(ControlMessage::Denied(ref d)) if d == "Senha incorreta"));
        assert_eq!(r.close.as_deref(), Some("invalid password"));
        assert_eq!(r.failure, Some(ServiceError::PasswordRejected));
        assert!(r.events.is_empty());
        assert!(meta.crypto.shared_key().is_none());
        assert_eq!(meta.name, "???");
        assert!(peers.list().is_empty());
    }
}

#[test]
fn right_password_completes_hello() {
    let (mut meta, mut book, mut peers) = parts();
    let remote = CryptoCtx::new().unwrap();
    let r = handle_control(&mut meta, &mut book, &mut peers, &Some("s3cret".into()), peer(), "127.0.0.1:5001", hello(Some("s3cret"), remote.public_key()));
    assert!(r.reply.is_none() && r.close.is_none() && r.failure.is_none());
    assert!(r.persist_peers);
    assert_eq!(meta.name, "bob");
    assert!(meta.crypto.shared_key().is_some());
    assert_eq!(r.events.len(), 2);
    assert!(matches!(&r.events[0], ServiceEvent::SavedPeers(l) if l.len() == 1 && l[0].name == "bob"));
    assert!(matches!(&r.events[1], ServiceEvent::PeerProfile { peer: p, username } if *p == peer() && username == "bob"));
}

#[test]
fn no_password_required_accepts_any() {
    let (mut meta, mut book, mut peers) = parts();
    let r = handle_control(&mut meta, &mut book, &mut peers, &None, peer(), "p", hello(Some("x"), [2; 32]));
    assert!(r.failure.is_none());
    assert_eq!(r.events.len(), 2);
}

fn prepared(id: u64) -> PreparedTransfer {
    PreparedTransfer {
        offer: FileOffer { id, name: "data.bin".into(), original_size: 1_048_576, compressed_size: 1_100 },
        original_path: "/tmp/data.bin".into(),
        compressed_path: "/tmp/.tmpXYZ".into(),
    }
}

#[test]
fn declined_offer_reports_the_file() {
    let (mut meta, mut book, mut peers) = parts();
    let (offer, progress) = register_outgoing(&mut book, prepared(9));
    assert!(matches!(offer, ControlMessage::FileOffer(ref o) if o.id == 9 && o.name == "data.bin"));
    assert_eq!(progress.transferred, 0);
    assert_eq!(progress.total, 1_100);
    assert!(!progress.completed);
    let reject = ControlMessage::FileReject(FileReject { id: 9, reason: Some("Recipient declined".into()) });
    let r = handle_control(&mut meta, &mut book, &mut peers, &None, peer(), "p", reject);
    assert_eq!(r.events.len(), 1);
    assert!(matches!(&r.events[0], ServiceEvent::Error { message } if message == "File 'data.bin' was rejected: Recipient declined"));
    assert_eq!(r.discard.as_deref(), Some("/tmp/.tmpXYZ"));
    assert!(book.pending.is_empty());
}

#[test]
fn reject_without_reason_uses_default() {
    let (mut meta, mut book, mut peers) = parts();
    register_outgoing(&mut book, prepared(3));
    let r = handle_control(&mut meta, &mut book, &mut peers, &None, peer(), "p", ControlMessage::FileReject(FileReject { id: 3, reason: None }));
    assert!(matches!(&r.events[0], ServiceEvent::Error { message } if message == "File 'data.bin' was rejected: peer declined the transfer"));
}

#[test]
fn accepted_offer_is_handed_over() {
    let (mut meta, mut book, mut peers) = parts();
    register_outgoing(&mut book, prepared(4));
    let r = handle_control(&mut meta, &mut book, &mut peers, &None, peer(), "p", ControlMessage::FileAccept(FileAccept { id: 4 }));
    assert_eq!(r.transmit.unwrap().offer.id, 4);
    let r = handle_control(&mut meta, &mut book, &mut peers, &None, peer(), "p", ControlMessage::FileAccept(FileAccept { id: 4 }));
    assert!(r.transmit.is_none());
}

#[test]
fn incoming_offer_is_recorded_and_surfaced() {
    let (mut meta, mut book, mut peers) = parts();
    let offer = FileOffer { id: 11, name: "data.bin".into(), original_size: 1_048_576, compressed_size: 77 };
    let r = handle_control(&mut meta, &mut book, &mut peers, &None, peer(), "p", ControlMessage::FileOffer(offer));
    assert!(matches!(&r.events[0], ServiceEvent::FileOffer(n) if n.id == 11 && n.name == "data.bin" && n.original_size == 1_048_576 && n.compressed_size == 77 && n.peer == peer()));
    assert!(book.offers.contains_key(&11));
}

#[test]
fn denied_and_info_become_errors() {
    let (mut meta, mut book, mut peers) = parts();
    let r = handle_control(&mut meta, &mut book, &mut peers, &None, peer(), "127.0.0.1:5001", ControlMessage::Denied("Senha incorreta".into()));
    assert!(matches!(&r.events[0], ServiceEvent::Error { message } if message.contains("127.0.0.1:5001")));
    assert_eq!(r.close.as_deref(), Some("remote denied"));
    let r = handle_control(&mut meta, &mut book, &mut peers, &None, peer(), "q", ControlMessage::Info("hey".into()));
    assert!(matches!(&r.events[0], ServiceEvent::Error { message } if message == "mensagem de q: hey"));
    assert!(r.close.is_none());
}

fn state() -> ServiceState {
    ServiceState::new("alice".into(), None, LimitsConfig::default())
}

#[test]
fn listen_twice_is_refused() {
    let mut s = state();
    let pw = s.begin_listen(Some("s3cret".into())).unwrap();
    let a = PeerAddr { ip: IpAddress::V4(0), port: 5000 };
    let ev = s.listening_started(a, pw);
    assert!(matches!(ev, ServiceEvent::Listening { addr, password_protected: true } if addr == a));
    assert_eq!(s.begin_listen(None).unwrap_err(), ServiceError::AlreadyListening);
    assert!(matches!(s.stop_listening(), Some(ServiceEvent::ListenerStopped)));
    assert!(s.stop_listening().is_none());
}

#[test]
fn listen_falls_back_to_configured_password() {
    let s = ServiceState::new("a".into(), Some("cfg".into()), LimitsConfig::default());
    assert_eq!(s.begin_listen(None).unwrap().as_deref(), Some("cfg"));
    assert_eq!(s.begin_listen(Some("cli".into())).unwrap().as_deref(), Some("cli"));
}

#[test]
fn attach_announces_and_greets() {
    let mut s = state();
    let (events, hello) = s.attach(peer(), Some("pw".into()), [5; 32]);
    assert_eq!(events.len(), 1);
    assert!(matches!(&events[0], ServiceEvent::Connected { peer: p, name } if *p == peer() && name == "???"));
    match hello {
        WireMessage::Control(ControlMessage::Hello(h)) => {
            assert_eq!(h.username, "alice");
            assert_eq!(h.password.as_deref(), Some("pw"));
            assert_eq!(h.public_key, [5; 32]);
        }
        _ => panic!("not a hello"),
    }
    let (events, _) = s.attach(peer(), None, [5; 32]);
    assert!(matches!(events[0], ServiceEvent::Disconnected));
    assert!(s.connection_closed(PeerAddr { ip: IpAddress::V4(1), port: 1 }).is_none());
    assert!(matches!(s.connection_closed(peer()), Some(ServiceEvent::Disconnected)));
    assert!(s.connection.is_none());
}

#[test]
fn text_needs_connection_and_content() {
    let mut s = state();
    assert_eq!(s.compose_text("hi", 1, 2).unwrap_err(), ServiceError::NoConnection);
    s.attach(peer(), None, [0; 32]);
    assert_eq!(s.compose_text("   \n", 1, 2).unwrap_err(), ServiceError::EmptyMessage);
    let long = "x".repeat(16 * 1024 + 1);
    assert_eq!(s.compose_text(&long, 1, 2).unwrap_err(), ServiceError::MessageTooLong);
    let m = s.compose_text("  hi  ", 7, 9).unwrap();
    assert_eq!((m.id, m.author.as_str(), m.body.as_str(), m.timestamp), (7, "alice", "hi", 9));
    let (ev, line, entry) = s.text_sent(&m, 10);
    assert!(matches!(ev, ServiceEvent::MessageSent { ref author, ref text } if author == "alice" && text == "hi"));
    assert_eq!(line, "alice (you): hi");
    assert!(entry.outgoing && entry.timestamp == 10);
}

#[test]
fn received_text_is_logged_for_the_peer() {
    let m = TextMessage { id: 1, author: "bob".into(), body: "hi".into(), timestamp: 5 };
    let (ev, line, entry) = text_received(&m, peer());
    assert!(matches!(ev, ServiceEvent::MessageReceived { peer: p, ref author, ref text } if p == peer() && author == "bob" && text == "hi"));
    assert_eq!(format!("{line}\n"), "bob -> you: hi\n");
    assert!(!entry.outgoing && entry.timestamp == 5 && entry.author == "bob");
}

#[test]
fn discovery_always_completes() {
    let evs = discovery_events(&vec![]);
    assert_eq!(evs.len(), 1);
    assert!(matches!(evs[0], ServiceEvent::Discovery(DiscoveryEvent::Completed)));
    let evs = discovery_events(&vec![peer()]);
    assert!(matches!(evs[0], ServiceEvent::Discovery(DiscoveryEvent::PeerFound(p)) if p == peer()));
    assert!(matches!(evs[1], ServiceEvent::Discovery(DiscoveryEvent::Completed)));
}

#[test]
fn error_texts() {
    assert_eq!(ServiceError::NoConnection.message(), "no active connection");
    assert_eq!(ServiceError::AlreadyListening.message(), "listener already active");
}

#[test]
fn first_frames_are_dispatched() {
    let mut a = ConnectionMeta::new(CryptoCtx::new().unwrap());
    let mut b = ConnectionMeta::new(CryptoCtx::new().unwrap());
    let (pa, pb) = (a.crypto.public_key(), b.crypto.public_key());
    a.crypto.accept_remote(&pb).unwrap();
    let m = TextMessage { id: 1, author: "bob".into(), body: "hi".into(), timestamp: 5 };
    let sealed = encrypt_text(&a.crypto, &m).unwrap();
    assert!(matches!(first_frame_action(&b, sealed.clone(), "p"), StreamAction::Report(ServiceEvent::Error { ref message }) if message == "decryption error from p"));
    b.crypto.accept_remote(&pa).unwrap();
    assert!(matches!(first_frame_action(&b, sealed, "p"), StreamAction::Deliver(ref t) if t.body == "hi" && t.author == "bob"));
    assert!(matches!(first_frame_action(&b, WireMessage::Text(m), "p"), StreamAction::Deliver(_)));
    let meta = FileMetadata { id: 1, name: "x".into(), original_size: 1, compressed_size: 1 };
    assert!(matches!(first_frame_action(&b, WireMessage::FileMeta(meta), "p"), StreamAction::ReceiveFile(ref f) if f.id == 1));
    let chunk = FileChunk { id: 1, offset: 0, bytes: vec![], last: true };
    assert!(matches!(first_frame_action(&b, WireMessage::FileChunk(chunk), "p"), StreamAction::Ignore));
    assert!(matches!(first_frame_action(&b, WireMessage::Control(ControlMessage::Info("x".into())), "p"), StreamAction::Control(_)));
}

#[test]
fn trimmed_body_rules() {
    let mut s = state();
    assert_eq!(s.compose_trimmed("hi".into(), 1, 2).unwrap_err(), ServiceError::NoConnection);
    s.attach(peer(), None, [0; 32]);
    assert_eq!(s.compose_trimmed(String::new(), 1, 2).unwrap_err(), ServiceError::EmptyMessage);
    assert_eq!(s.compose_trimmed(" hi ".into(), 1, 2).unwrap().body, " hi ");
}

#[test]
fn offer_keeps_both_sizes_and_other_maps() {
    let (mut meta, mut book, mut peers) = parts();
    register_outgoing(&mut book, prepared(2));
    let offer = FileOffer { id: 12, name: "data.bin".into(), original_size: 1_048_576, compressed_size: 99 };
    let r = handle_control(&mut meta, &mut book, &mut peers, &None, peer(), "p", ControlMessage::FileOffer(offer));
    assert!(r.failure.is_none() && r.discard.is_none());
    let n = &book.offers[&12];
    assert_eq!((n.original_size, n.compressed_size, n.peer), (1_048_576, 99, peer()));
    assert_eq!(book.pending.len(), 1);
    assert!(book.incoming.is_empty());
}

#[test]
fn denied_leaves_state_alone() {
    let (mut meta, mut book, mut peers) = parts();
    register_outgoing(&mut book, prepared(2));
    let r = handle_control(&mut meta, &mut book, &mut peers, &None, peer(), "1.2.3.4:5", ControlMessage::Denied("no".into()));
    assert!(r.failure.is_none() && !r.persist_peers);
    assert!(meta.crypto.shared_key().is_none());
    assert_eq!(meta.name, "???");
    assert!(peers.list().is_empty());
    assert_eq!(book.pending.len(), 1);
}
