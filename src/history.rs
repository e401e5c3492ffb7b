//! The per-peer chat history record format: each entry is encoded,
//! gzip-compressed and sealed under the store key, and framed as
//! `nonce[12] ‖ u32-BE(len) ‖ ciphertext(len)`.
use crate::bytes::{append_bytes, be32, be32_bytes, be32_read, be32_value, copy_range, lemma_be32_round_trip};
use crate::crypto::{aead_open, aead_seal, chacha_open, chacha_seal, os_random_bytes};
use crate::fields::{
    enc_bool, enc_i64, enc_str, get_bool, get_i64, get_str, lemma_bool, lemma_i64, lemma_str, parse_bool,
    parse_i64, parse_str,
    put_bool, put_i64, put_str, to_array, Parsed,
};
use flate2::read::GzDecoder;
use flate2::write::GzEncoder;
use flate2::Compression;
use std::io::{Read, Write};
use crate::protocol::str_fits;
use vstd::prelude::*;

verus! {

broadcast use vstd::array::array_len_matches_n;

/// The gzip stream that `flate2` produces for `data` at the default level.
pub uninterp spec fn gzip_of(data: Seq<u8>) -> Seq<u8>;

/// What `flate2` decompresses from a gzip stream, if it is one.
pub uninterp spec fn gunzip_of(data: Seq<u8>) -> Option<Seq<u8>>;

/// Relies on `flate2::write::GzEncoder` into a `Vec` at `Compression::default()`:
/// the output depends on the input alone, and writing into a `Vec` never fails.
#[verifier::external_body]
fn gzip(data: &[u8]) -> (r: Option<Vec<u8>>)
    ensures
        r is Some,
        r matches Some(v) ==> v@ == gzip_of(data@),
{
    let mut encoder = GzEncoder::new(Vec::new(), Compression::default());
    match encoder.write_all(data) {
        Ok(()) => encoder.finish().ok(),
        Err(_) => None,
    }
}

/// Relies on `flate2::read::GzDecoder` read to the end: the decompressed
/// bytes, or an error when the input is not a gzip stream.
#[verifier::external_body]
fn gunzip(data: &[u8]) -> (r: Option<Vec<u8>>)
    ensures
        r is Some <==> gunzip_of(data@) is Some,
        r matches Some(v) ==> gunzip_of(data@) == Some(v@),
{
    let mut out = Vec::new();
    match GzDecoder::new(data).read_to_end(&mut out) {
        Ok(_) => Some(out),
        Err(_) => None,
    }
}

/// One line of chat history.
#[derive(Debug, Clone)]
pub struct HistoryEntry {
    pub timestamp: i64,
    pub outgoing: bool,
    pub author: String,
    pub text: String,
}

pub struct HistoryEntryModel {
    pub timestamp: i64,
    pub outgoing: bool,
    pub author: Seq<char>,
    pub text: Seq<char>,
}

impl View for HistoryEntry {
    type V = HistoryEntryModel;

    open spec fn view(&self) -> HistoryEntryModel {
        HistoryEntryModel {
            timestamp: self.timestamp,
            outgoing: self.outgoing,
            author: self.author@,
            text: self.text@,
        }
    }
}

/// Why a history record could not be made or read.
#[derive(Debug, Clone, Copy, PartialEq, Eq, Structural)]
pub enum HistoryError {
    Compression,
    Encryption,
    Decryption,
    TooLarge,
    Truncated,
    Malformed,
    RandomFailure,
}

pub open spec fn enc_entry(e: HistoryEntryModel) -> Seq<u8> {
    enc_i64(e.timestamp) + (enc_bool(e.outgoing) + (enc_str(e.author) + enc_str(e.text)))
}

pub open spec fn parse_entry(s: Seq<u8>) -> Parsed<HistoryEntryModel> {
    match parse_i64(s) {
        None => None,
        Some((timestamp, s1)) => match parse_bool(s1) {
            None => None,
            Some((outgoing, s2)) => match parse_str(s2) {
                None => None,
                Some((author, s3)) => match parse_str(s3) {
                    None => None,
                    Some((text, s4)) => Some(
                        (HistoryEntryModel { timestamp, outgoing, author, text }, s4),
                    ),
                },
            },
        },
    }
}

/// The record for an entry sealed under `key` with `nonce`.
pub open spec fn spec_record(key: Seq<u8>, nonce: Seq<u8>, e: HistoryEntryModel) -> Seq<u8> {
    let ct = aead_seal(key, nonce, gzip_of(enc_entry(e)));
    nonce + be32(ct.len() as u32) + ct
}

/// The entry a sealed payload holds under `key` and `nonce`.
pub open spec fn spec_open_sealed(key: Seq<u8>, nonce: Seq<u8>, ct: Seq<u8>) -> Option<HistoryEntryModel> {
    match aead_open(key, nonce, ct) {
        None => None,
        Some(p) => match gunzip_of(p) {
            None => None,
            Some(z) => match parse_entry(z) {
                Some((e, rest)) => if rest.len() == 0 {
                    Some(e)
                } else {
                    None
                },
                None => None,
            },
        },
    }
}

/// What the record at the front of `b` holds under `key`, and its length.
pub open spec fn spec_open_record(key: Seq<u8>, b: Seq<u8>) -> Option<(HistoryEntryModel, int)> {
    if b.len() < 16 {
        None
    } else {
        let n = be32_value(b.skip(12)) as int;
        if b.len() < 16 + n {
            None
        } else {
            match spec_open_sealed(key, b.take(12), b.subrange(16, 16 + n)) {
                Some(e) => Some((e, 16 + n)),
                None => None,
            }
        }
    }
}

/// The entry encoding reads back as the entry.
pub proof fn lemma_entry_round_trip(e: HistoryEntryModel)
    requires
        str_fits(e.author),
        str_fits(e.text),
    ensures
        parse_entry(enc_entry(e)) == Some((e, Seq::<u8>::empty())),
{
    let rest = Seq::<u8>::empty();
    let s3 = enc_str(e.text) + rest;
    let s2 = enc_str(e.author) + s3;
    let s1 = enc_bool(e.outgoing) + s2;
    lemma_str(e.text, rest);
    lemma_str(e.author, s3);
    lemma_bool(e.outgoing, s2);
    lemma_i64(e.timestamp, s1);
    assert(enc_entry(e) =~= enc_i64(e.timestamp) + s1);
}

/// A record is found again in a history file whatever follows it: its nonce
/// and ciphertext are split back out, so it holds exactly what its sealed
/// payload opens to.
pub proof fn lemma_record_framing(key: Seq<u8>, nonce: Seq<u8>, e: HistoryEntryModel, rest: Seq<u8>)
    requires
        nonce.len() == 12,
        aead_seal(key, nonce, gzip_of(enc_entry(e))).len() <= u32::MAX,
    ensures
        spec_open_record(key, spec_record(key, nonce, e) + rest) == match spec_open_sealed(
            key,
            nonce,
            aead_seal(key, nonce, gzip_of(enc_entry(e))),
        ) {
            Some(x) => Some((x, spec_record(key, nonce, e).len() as int)),
            None => None,
        },
{
    let ct = aead_seal(key, nonce, gzip_of(enc_entry(e)));
    let b = spec_record(key, nonce, e) + rest;
    lemma_be32_round_trip(ct.len() as u32);
    assert(b.take(12) =~= nonce);
    assert(b.skip(12).take(4) =~= be32(ct.len() as u32));
    assert(be32_value(b.skip(12)) == be32_value(be32(ct.len() as u32)));
    assert(b.subrange(16, 16 + ct.len() as int) =~= ct);
}

/// The history key kept in `history.key`: its first 32 bytes when it holds
/// that many; otherwise a new key must be made and stored.
pub fn adopt_key(existing: Option<Vec<u8>>) -> (r: Option<[u8; 32]>)
    ensures
        match existing {
            Some(d) => if d@.len() >= 32 {
                r matches Some(k) && k@ == d@.take(32)
            } else {
                r is None
            },
            None => r is None,
        },
{
    match existing {
        Some(d) => {
            if d.len() >= 32 {
                let first = copy_range(d.as_slice(), 0, 32);
                let k: [u8; 32] = to_array(&first);
                assert(k@ =~= d@.take(32));
                Some(k)
            } else {
                None
            }
        },
        None => None,
    }
}

/// Frames a sealed entry as a record: the nonce, the ciphertext's length as
/// four big-endian bytes, then the ciphertext; refused when that length does
/// not fit 32 bits.
pub fn frame_record(nonce: [u8; 12], ct: &Vec<u8>) -> (r: Result<Vec<u8>, HistoryError>)
    ensures
        ct@.len() > u32::MAX ==> r == Err::<Vec<u8>, HistoryError>(HistoryError::TooLarge),
        ct@.len() <= u32::MAX ==> (r matches Ok(v) && v@ == nonce@ + be32(ct@.len() as u32) + ct@),
{
    if ct.len() > 0xffff_ffffusize {
        return Err(HistoryError::TooLarge);
    }
    let mut out: Vec<u8> = Vec::new();
    append_bytes(&mut out, nonce.as_slice());
    let header = be32_bytes(ct.len() as u32);
    append_bytes(&mut out, header.as_slice());
    append_bytes(&mut out, ct.as_slice());
    Ok(out)
}

/// Reads an entry from exactly its encoded bytes.
pub fn decode_entry(z: &[u8]) -> (r: Option<HistoryEntry>)
    ensures
        match parse_entry(z@) {
            Some((e, rest)) => if rest.len() == 0 {
                r matches Some(x) && x@ == e
            } else {
                r is None
            },
            None => r is None,
        },
{
    assert(z@.skip(0) =~= z@);
    let (timestamp, p1) = match get_i64(z, 0) { Some(x) => x, None => return None };
    let (outgoing, p2) = match get_bool(z, p1) { Some(x) => x, None => return None };
    let (author, p3) = match get_str(z, p2) { Some(x) => x, None => return None };
    let (text, p4) = match get_str(z, p3) { Some(x) => x, None => return None };
    if p4 != z.len() {
        return None;
    }
    Some(HistoryEntry { timestamp, outgoing, author, text })
}

/// Seals history entries under one store key.
pub struct HistoryWriter {
    key: [u8; 32],
}

impl HistoryWriter {
    pub fn new(key: [u8; 32]) -> (r: HistoryWriter)
        ensures
            r.spec_key() == key@,
    {
        HistoryWriter { key }
    }

    pub closed spec fn spec_key(&self) -> Seq<u8> {
        self.key@
    }

    pub fn key(&self) -> (r: [u8; 32])
        ensures
            r@ == self.spec_key(),
    {
        self.key
    }

    /// The record for `entry` under the store key and the given nonce.
    pub fn seal_record(&self, entry: &HistoryEntry, nonce: [u8; 12]) -> (r: Result<Vec<u8>, HistoryError>)
        ensures
            gzip_of(enc_entry(entry@)).len() + 16 <= u32::MAX ==> r is Ok,
            r matches Ok(v) ==> v@ == spec_record(self.spec_key(), nonce@, entry@),
            r matches Err(e) ==> e == HistoryError::Encryption || e == HistoryError::TooLarge,
    {
        let mut encoded: Vec<u8> = Vec::new();
        put_i64(&mut encoded, entry.timestamp);
        put_bool(&mut encoded, entry.outgoing);
        put_str(&mut encoded, &entry.author);
        put_str(&mut encoded, &entry.text);
        assert(encoded@ =~= enc_entry(entry@));
        let compressed = match gzip(encoded.as_slice()) {
            Some(c) => c,
            None => return Err(HistoryError::Compression),
        };
        let ct = match chacha_seal(&self.key, &nonce, compressed.as_slice()) {
            Some(c) => c,
            None => return Err(HistoryError::Encryption),
        };
        frame_record(nonce, &ct)
    }

    /// The record for `entry` under a fresh random nonce, ready to be appended
    /// to the peer's history file.
    pub fn record(&self, entry: &HistoryEntry) -> (r: Result<Vec<u8>, HistoryError>)
        ensures
            r matches Ok(v) ==> v@.len() >= 16 && v@ == spec_record(self.spec_key(), v@.take(12), entry@),
            gzip_of(enc_entry(entry@)).len() + 16 <= u32::MAX ==> (r is Ok || r == Err::<
                Vec<u8>,
                HistoryError,
            >(HistoryError::RandomFailure)),
    {
        let nonce = match os_random_bytes::<12>() {
            Some(n) => n,
            None => return Err(HistoryError::RandomFailure),
        };
        let r = self.seal_record(entry, nonce);
        proof {
            if let Ok(v) = &r {
                assert(v@.take(12) =~= nonce@);
            }
        }
        r
    }
}

/// Opens the record at the front of `bytes` under `key`: the entry and the
/// record's length.
pub fn open_record(key: &[u8; 32], bytes: &[u8]) -> (r: Result<(HistoryEntry, usize), HistoryError>)
    ensures
        r is Ok <==> spec_open_record(key@, bytes@) is Some,
        r matches Ok((e, n)) ==> spec_open_record(key@, bytes@) == Some((e@, n as int)),
{
    if bytes.len() < 16 {
        return Err(HistoryError::Truncated);
    }
    let nonce_bytes = copy_range(bytes, 0, 12);
    let nonce: [u8; 12] = to_array(&nonce_bytes);
    let tail = vstd::slice::slice_subrange(bytes, 12, 16);
    assert(tail@ =~= bytes@.skip(12).take(4));
    let n = be32_read(tail) as usize;
    if bytes.len() - 16 < n {
        return Err(HistoryError::Truncated);
    }
    let ct = vstd::slice::slice_subrange(bytes, 16, 16 + n);
    assert(nonce@ =~= bytes@.take(12));
    let p = match chacha_open(key, &nonce, ct) {
        Some(p) => p,
        None => return Err(HistoryError::Decryption),
    };
    let z = match gunzip(p.as_slice()) {
        Some(z) => z,
        None => return Err(HistoryError::Compression),
    };
    let entry = match decode_entry(z.as_slice()) {
        Some(e) => e,
        None => return Err(HistoryError::Malformed),
    };
    Ok((entry, 16 + n))
}

} // verus!
