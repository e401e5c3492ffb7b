use std::io::{Read, Write};
use dezap::addr::{IpAddress, PeerAddr};
use dezap::protocol::{ControlMessage, FileChunk, FileMetadata, FileOffer, WireMessage};
use dezap::transfer::{
    begin_receive, decline_offer, register_incoming, register_offer, target_is_directory, transfer_name,
    validate_source, PreparedTransfer, ReceiveError, ReceiveProgress, ReceiveStep, SendProgress, TransferBook,
    TransferDirection, TransferError,
};

fn peer() -> PeerAddr {
    PeerAddr { ip: IpAddress::V4(1), port: 2 }
}

#[test]
fn sources_are_checked() {
    assert_eq!(validate_source(false, 1, 10), Err(TransferError::NotAFile));
    assert_eq!(validate_source(true, 11, 10), Err(TransferError::TooLarge));
    assert_eq!(validate_source(true, 10, 10), Ok(()));
    assert_eq!(transfer_name(None), "file.bin");
    assert_eq!(transfer_name(Some("data.bin".into())), "data.bin");
}

#[test]
fn sender_frames_chunks_in_order() {
    let t = PreparedTransfer {
        offer: FileOffer { id: 5, name: "data.bin".into(), original_size: 1_048_576, compressed_size: 10 },
        original_path: "/tmp/data.bin".into(),
        compressed_path: "/tmp/c".into(),
    };
    let mut p = SendProgress::start(&t);
    assert!(matches!(p.meta(1_048_576), WireMessage::FileMeta(ref m) if m.id == 5 && m.compressed_size == 10 && m.original_size == 1_048_576));
    let (c1, e1) = p.next_chunk(vec![1; 6]);
    assert!(matches!(c1, WireMessage::FileChunk(ref c) if c.offset == 0 && !c.last && c.bytes.len() == 6));
    assert!(!e1.completed && e1.transferred == 6 && e1.direction == TransferDirection::Outgoing);
    let (c2, e2) = p.next_chunk(vec![2; 4]);
    assert!(matches!(c2, WireMessage::FileChunk(ref c) if c.offset == 6 && c.last));
    assert!(e2.completed && e2.transferred == 10 && e2.total == 10);
}

#[test]
fn receiver_accepts_only_approved_streams() {
    let mut book = TransferBook::new();
    let offer = FileOffer { id: 8, name: "data.bin".into(), original_size: 1_048_576, compressed_size: 10 };
    let notice = register_offer(&mut book, &offer, peer());
    let (accept, progress) = register_incoming(&mut book, &notice, "/tmp/out.bin".into(), "/tmp/t".into());
    assert!(matches!(accept, ControlMessage::FileAccept(a) if a.id == 8));
    assert!(progress.direction == TransferDirection::Incoming && progress.transferred == 0 && progress.total == 10);
    let meta = FileMetadata { id: 8, name: "data.bin".into(), original_size: 1_048_576, compressed_size: 10 };
    assert_eq!(begin_receive(&mut book, &meta, 100).unwrap_err(), ReceiveError::TooLarge);
    let t = begin_receive(&mut book, &meta, 2_000_000).unwrap();
    assert_eq!(t.target_path, "/tmp/out.bin");
    assert_eq!(begin_receive(&mut book, &meta, 2_000_000).unwrap_err(), ReceiveError::NotApproved);

    let mut rx = ReceiveProgress::start(&meta, &t);
    let other = WireMessage::FileChunk(FileChunk { id: 9, offset: 0, bytes: vec![0; 3], last: true });
    assert!(matches!(rx.on_frame(other), ReceiveStep::Skip));
    assert!(!rx.done);
    let first = WireMessage::FileChunk(FileChunk { id: 8, offset: 0, bytes: vec![0xA5; 4], last: false });
    assert!(matches!(rx.on_frame(first), ReceiveStep::Write(ref b, ref p) if b.len() == 4 && p.transferred == 4));
    assert!(!rx.done);
    let second = WireMessage::FileChunk(FileChunk { id: 8, offset: 4, bytes: vec![0xA5; 6], last: false });
    rx.on_frame(second);
    assert!(rx.done);
    let done = rx.completed();
    assert!(done.completed && done.transferred == 10 && done.total == 10);
    assert_eq!(done.path.as_deref(), Some("/tmp/out.bin"));
}

#[test]
fn declining_sends_refusal_once() {
    let mut book = TransferBook::new();
    let offer = FileOffer { id: 1, name: "a".into(), original_size: 1, compressed_size: 1 };
    register_offer(&mut book, &offer, peer());
    let r = decline_offer(&mut book, 1);
    assert!(matches!(r, Some(ControlMessage::FileReject(ref j)) if j.id == 1 && j.reason.as_deref() == Some("Recipient declined")));
    assert!(decline_offer(&mut book, 1).is_none());
}

#[test]
fn directory_targets() {
    assert!(target_is_directory("/tmp/", false));
    assert!(target_is_directory("/tmp", true));
    assert!(!target_is_directory("/tmp/out.bin", false));
    assert!(!target_is_directory("", false));
}

#[test]
fn five_mib_file_round_trips_through_the_stream() {
    let original: Vec<u8> = (0..5 * 1024 * 1024).map(|_| rand::random::<u8>()).collect();
    let mut enc = flate2::write::GzEncoder::new(Vec::new(), flate2::Compression::default());
    enc.write_all(&original).unwrap();
    let compressed = enc.finish().unwrap();

    let mut book = TransferBook::new();
    let offer = FileOffer { id: 77, name: "big.bin".into(), original_size: original.len() as u64, compressed_size: compressed.len() as u64 };
    let notice = register_offer(&mut book, &offer, peer());
    register_incoming(&mut book, &notice, "/tmp/big.bin".into(), "/tmp/big.tmp".into());

    let prepared = PreparedTransfer { offer, original_path: "/src/big.bin".into(), compressed_path: "/tmp/c".into() };
    let mut tx = SendProgress::start(&prepared);
    let mut wire = Vec::new();
    dezap::protocol::write_message(&mut wire, &tx.meta(prepared.offer.original_size)).unwrap();
    let mut last_event = None;
    for piece in compressed.chunks(64 * 1024) {
        let (chunk, event) = tx.next_chunk(piece.to_vec());
        dezap::protocol::write_message(&mut wire, &chunk).unwrap();
        last_event = Some(event);
    }
    let last_event = last_event.unwrap();
    assert!(last_event.completed);
    assert_eq!(last_event.transferred, compressed.len() as u64);

    let (first, mut pos) = dezap::protocol::read_message(&wire).unwrap().unwrap();
    let meta = match first {
        WireMessage::FileMeta(m) => m,
        _ => panic!("stream must open with metadata"),
    };
    let transfer = begin_receive(&mut book, &meta, 1 << 30).unwrap();
    let mut rx = ReceiveProgress::start(&meta, &transfer);
    let mut received = Vec::new();
    while !rx.done {
        let (frame, used) = dezap::protocol::read_message(&wire[pos..]).unwrap().unwrap();
        pos += used;
        if let ReceiveStep::Write(bytes, _) = rx.on_frame(frame) {
            received.extend_from_slice(&bytes);
        }
    }
    assert_eq!(pos, wire.len());
    assert_eq!(received, compressed);
    let mut restored = Vec::new();
    flate2::read::GzDecoder::new(&received[..]).read_to_end(&mut restored).unwrap();
    assert_eq!(restored, original);
    assert!(rx.completed().completed);
}
