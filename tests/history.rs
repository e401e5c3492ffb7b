use dezap::history::{adopt_key, open_record, HistoryEntry, HistoryError, HistoryWriter};

fn entry(text: &str) -> HistoryEntry {
    HistoryEntry { timestamp: 1_700_000_000, outgoing: true, author: "alice".into(), text: text.into() }
}

#[test]
fn two_records_open_independently() {
    let writer = HistoryWriter::new([8u8; 32]);
    let first = writer.record(&entry("one")).unwrap();
    let second = writer.record(&entry("two")).unwrap();
    assert_ne!(first[..12], second[..12]);
    let mut file = first.clone();
    file.extend_from_slice(&second);
    let (a, used) = open_record(&writer.key(), &file).unwrap();
    assert_eq!(used, first.len());
    let (b, used2) = open_record(&writer.key(), &file[used..]).unwrap();
    assert_eq!(used2, second.len());
    assert_eq!(a.text, "one");
    assert_eq!(b.text, "two");
    assert_eq!(a.author, "alice");
    assert!(a.outgoing);
    assert_eq!(a.timestamp, 1_700_000_000);
}

#[test]
fn record_layout_is_nonce_length_ciphertext() {
    let writer = HistoryWriter::new([8u8; 32]);
    let rec = writer.seal_record(&entry("x"), [2u8; 12]).unwrap();
    assert_eq!(&rec[..12], &[2u8; 12]);
    let len = u32::from_be_bytes([rec[12], rec[13], rec[14], rec[15]]) as usize;
    assert_eq!(rec.len(), 16 + len);
}

#[test]
fn wrong_key_or_short_input_fails() {
    let writer = HistoryWriter::new([8u8; 32]);
    let rec = writer.record(&entry("x")).unwrap();
    assert_eq!(open_record(&[9u8; 32], &rec).unwrap_err(), HistoryError::Decryption);
    assert_eq!(open_record(&[8u8; 32], &rec[..10]).unwrap_err(), HistoryError::Truncated);
    assert_eq!(open_record(&[8u8; 32], &rec[..rec.len() - 1]).unwrap_err(), HistoryError::Truncated);
}

#[test]
fn key_file_is_adopted_when_long_enough() {
    let mut data: Vec<u8> = (0u8..40).collect();
    let key = adopt_key(Some(data.clone())).unwrap();
    assert_eq!(key.to_vec(), data[..32].to_vec());
    data.truncate(31);
    assert_eq!(adopt_key(Some(data)), None);
    assert_eq!(adopt_key(None), None);
}

#[test]
fn framing_and_entry_decoding() {
    let framed = dezap::history::frame_record([1u8; 12], &vec![9u8, 8, 7]).unwrap();
    assert_eq!(framed, vec![1u8, 1, 1, 1, 1, 1, 1, 1, 1, 1, 1, 1, 0, 0, 0, 3, 9, 8, 7]);
    assert!(dezap::history::decode_entry(&[1, 2, 3]).is_none());
}
