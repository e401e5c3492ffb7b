//! Wire messages, their payload encoding, and length-prefixed framing.
use crate::bytes::{append_bytes, be32, be32_bytes, be32_read, be32_value, lemma_be32_round_trip};
use crate::fields::{
    enc_bool, enc_bytes, enc_i64, enc_opt_str, enc_str, enc_u64, get_bool, get_bytes, get_fixed,
    get_i64, get_opt_str, get_str, get_u64, lemma_bool, lemma_bytes, lemma_fixed, lemma_i64,
    lemma_opt_str, lemma_str, lemma_u64, opt_view, parse_bool, parse_bytes, parse_fixed,
    parse_i64, parse_opt_str, parse_str, parse_u64, put_bool, put_bytes, put_i64, put_opt_str,
    put_str, put_u64, to_array, Parsed,
};
use vstd::prelude::*;
use vstd::utf8::encode_utf8;

verus! {

broadcast use vstd::array::array_len_matches_n;

/// Maximum frame payload supported by the framing helpers (256 KiB).
pub const MAX_FRAME_BYTES: usize = 262144;

/// Wire-level messages carried over QUIC streams.
#[derive(Debug, Clone, PartialEq)]
pub enum WireMessage {
    Text(TextMessage),
    FileMeta(FileMetadata),
    FileChunk(FileChunk),
    Control(ControlMessage),
    Ciphertext(CipherFrame),
}

/// Text chat payload.
#[derive(Debug, Clone, PartialEq)]
pub struct TextMessage {
    pub id: u64,
    pub author: String,
    pub body: String,
    pub timestamp: i64,
}

/// Metadata that opens an incoming file stream.
#[derive(Debug, Clone, PartialEq)]
pub struct FileMetadata {
    pub id: u64,
    pub name: String,
    pub original_size: u64,
    pub compressed_size: u64,
}

/// One slice of a compressed file.
#[derive(Debug, Clone, PartialEq)]
pub struct FileChunk {
    pub id: u64,
    pub offset: u64,
    pub bytes: Vec<u8>,
    pub last: bool,
}

/// Acknowledgement of a message by id.
#[derive(Debug, Clone, Copy, PartialEq, Eq, Structural)]
pub struct Ack {
    pub id: u64,
    pub kind: AckKind,
}

/// Acknowledgement kinds.
#[derive(Debug, Clone, Copy, PartialEq, Eq, Structural)]
pub enum AckKind {
    Received,
    Completed,
}

/// Control messages: handshake and transfer negotiation.
#[derive(Debug, Clone, PartialEq)]
pub enum ControlMessage {
    Hello(HelloMessage),
    FileOffer(FileOffer),
    FileAccept(FileAccept),
    FileReject(FileReject),
    Denied(String),
    Info(String),
}

/// Hello handshake contents.
#[derive(Debug, Clone, PartialEq)]
pub struct HelloMessage {
    pub username: String,
    pub password: Option<String>,
    pub public_key: [u8; 32],
}

/// Invitation to receive a file.
#[derive(Debug, Clone, PartialEq)]
pub struct FileOffer {
    pub id: u64,
    pub name: String,
    pub original_size: u64,
    pub compressed_size: u64,
}

/// Acceptance of an offer.
#[derive(Debug, Clone, Copy, PartialEq, Eq, Structural)]
pub struct FileAccept {
    pub id: u64,
}

/// Refusal of an offer, with an optional reason.
#[derive(Debug, Clone, PartialEq)]
pub struct FileReject {
    pub id: u64,
    pub reason: Option<String>,
}

/// An encrypted text: the nonce and the AEAD output.
#[derive(Debug, Clone, PartialEq)]
pub struct CipherFrame {
    pub nonce: [u8; 12],
    pub body: Vec<u8>,
}

/// Why a frame could not be written or read.
#[derive(Debug, Clone, Copy, PartialEq, Eq, Structural)]
pub enum ProtocolError {
    /// The payload exceeds `MAX_FRAME_BYTES`.
    FrameTooLarge,
    /// The input ended inside a frame.
    Truncated,
    /// The payload is not the encoding of a message.
    Malformed,
}

// ---- mathematical models ----

pub struct TextModel {
    pub id: u64,
    pub author: Seq<char>,
    pub body: Seq<char>,
    pub timestamp: i64,
}

/// Model shared by `FileMetadata` and `FileOffer`.
pub struct FileInfoModel {
    pub id: u64,
    pub name: Seq<char>,
    pub original_size: u64,
    pub compressed_size: u64,
}

pub struct ChunkModel {
    pub id: u64,
    pub offset: u64,
    pub bytes: Seq<u8>,
    pub last: bool,
}

pub struct HelloModel {
    pub username: Seq<char>,
    pub password: Option<Seq<char>>,
    pub public_key: Seq<u8>,
}

pub enum ControlModel {
    Hello(HelloModel),
    FileOffer(FileInfoModel),
    FileAccept(u64),
    FileReject(u64, Option<Seq<char>>),
    Denied(Seq<char>),
    Info(Seq<char>),
}

pub struct CipherModel {
    pub nonce: Seq<u8>,
    pub body: Seq<u8>,
}

pub enum MessageModel {
    Text(TextModel),
    FileMeta(FileInfoModel),
    FileChunk(ChunkModel),
    Control(ControlModel),
    Ciphertext(CipherModel),
}

impl View for TextMessage {
    type V = TextModel;

    open spec fn view(&self) -> TextModel {
        TextModel { id: self.id, author: self.author@, body: self.body@, timestamp: self.timestamp }
    }
}

impl View for FileMetadata {
    type V = FileInfoModel;

    open spec fn view(&self) -> FileInfoModel {
        FileInfoModel {
            id: self.id,
            name: self.name@,
            original_size: self.original_size,
            compressed_size: self.compressed_size,
        }
    }
}

impl View for FileOffer {
    type V = FileInfoModel;

    open spec fn view(&self) -> FileInfoModel {
        FileInfoModel {
            id: self.id,
            name: self.name@,
            original_size: self.original_size,
            compressed_size: self.compressed_size,
        }
    }
}

impl View for FileChunk {
    type V = ChunkModel;

    open spec fn view(&self) -> ChunkModel {
        ChunkModel { id: self.id, offset: self.offset, bytes: self.bytes@, last: self.last }
    }
}

impl View for HelloMessage {
    type V = HelloModel;

    open spec fn view(&self) -> HelloModel {
        HelloModel {
            username: self.username@,
            password: opt_view(&self.password),
            public_key: self.public_key@,
        }
    }
}

impl View for ControlMessage {
    type V = ControlModel;

    open spec fn view(&self) -> ControlModel {
        match self {
            ControlMessage::Hello(h) => ControlModel::Hello(h@),
            ControlMessage::FileOffer(o) => ControlModel::FileOffer(o@),
            ControlMessage::FileAccept(a) => ControlModel::FileAccept(a.id),
            ControlMessage::FileReject(r) => ControlModel::FileReject(r.id, opt_view(&r.reason)),
            ControlMessage::Denied(s) => ControlModel::Denied(s@),
            ControlMessage::Info(s) => ControlModel::Info(s@),
        }
    }
}

impl View for CipherFrame {
    type V = CipherModel;

    open spec fn view(&self) -> CipherModel {
        CipherModel { nonce: self.nonce@, body: self.body@ }
    }
}

impl View for WireMessage {
    type V = MessageModel;

    open spec fn view(&self) -> MessageModel {
        match self {
            WireMessage::Text(t) => MessageModel::Text(t@),
            WireMessage::FileMeta(f) => MessageModel::FileMeta(f@),
            WireMessage::FileChunk(c) => MessageModel::FileChunk(c@),
            WireMessage::Control(c) => MessageModel::Control(c@),
            WireMessage::Ciphertext(c) => MessageModel::Ciphertext(c@),
        }
    }
}


// ---- payload encoding ----

/// Bounded strings fit their `u64` length prefix.
pub open spec fn str_fits(c: Seq<char>) -> bool {
    encode_utf8(c).len() <= u64::MAX
}

pub open spec fn opt_fits(o: Option<Seq<char>>) -> bool {
    o matches Some(c) ==> str_fits(c)
}

pub open spec fn file_info_fits(f: FileInfoModel) -> bool {
    str_fits(f.name)
}

/// The models that come from real values: every length fits its prefix and
/// the fixed-size fields have their sizes.
pub open spec fn control_fits(c: ControlModel) -> bool {
    match c {
        ControlModel::Hello(h) => str_fits(h.username) && opt_fits(h.password) && h.public_key.len()
            == 32,
        ControlModel::FileOffer(f) => file_info_fits(f),
        ControlModel::FileAccept(_) => true,
        ControlModel::FileReject(_, r) => opt_fits(r),
        ControlModel::Denied(t) => str_fits(t),
        ControlModel::Info(t) => str_fits(t),
    }
}

pub open spec fn message_fits(m: MessageModel) -> bool {
    match m {
        MessageModel::Text(t) => str_fits(t.author) && str_fits(t.body),
        MessageModel::FileMeta(f) => file_info_fits(f),
        MessageModel::FileChunk(c) => c.bytes.len() <= u64::MAX,
        MessageModel::Control(c) => control_fits(c),
        MessageModel::Ciphertext(c) => c.nonce.len() == 12 && c.body.len() <= u64::MAX,
    }
}

pub open spec fn enc_text(t: TextModel) -> Seq<u8> {
    enc_u64(t.id) + (enc_str(t.author) + (enc_str(t.body) + enc_i64(t.timestamp)))
}

pub open spec fn enc_file_info(f: FileInfoModel) -> Seq<u8> {
    enc_u64(f.id) + (enc_str(f.name) + (enc_u64(f.original_size) + enc_u64(f.compressed_size)))
}

pub open spec fn enc_chunk(c: ChunkModel) -> Seq<u8> {
    enc_u64(c.id) + (enc_u64(c.offset) + (enc_bytes(c.bytes) + enc_bool(c.last)))
}

pub open spec fn enc_control(c: ControlModel) -> Seq<u8> {
    match c {
        ControlModel::Hello(h) => seq![0u8] + (enc_str(h.username) + (enc_opt_str(h.password)
            + h.public_key)),
        ControlModel::FileOffer(f) => seq![1u8] + enc_file_info(f),
        ControlModel::FileAccept(id) => seq![2u8] + enc_u64(id),
        ControlModel::FileReject(id, r) => seq![3u8] + (enc_u64(id) + enc_opt_str(r)),
        ControlModel::Denied(t) => seq![4u8] + enc_str(t),
        ControlModel::Info(t) => seq![5u8] + enc_str(t),
    }
}

/// The payload of a message: a one-byte variant tag in declaration order,
/// then the fields in order; integers as 8 little-endian bytes, texts and
/// byte strings prefixed by their length, fixed arrays raw, options and
/// booleans as one byte.
pub open spec fn spec_encode(m: MessageModel) -> Seq<u8> {
    match m {
        MessageModel::Text(t) => seq![0u8] + enc_text(t),
        MessageModel::FileMeta(f) => seq![1u8] + enc_file_info(f),
        MessageModel::FileChunk(c) => seq![2u8] + enc_chunk(c),
        MessageModel::Control(c) => seq![3u8] + enc_control(c),
        MessageModel::Ciphertext(c) => seq![4u8] + (c.nonce + enc_bytes(c.body)),
    }
}

pub open spec fn parse_text(s: Seq<u8>) -> Parsed<TextModel> {
    match parse_u64(s) {
        None => None,
        Some((id, s1)) => match parse_str(s1) {
            None => None,
            Some((author, s2)) => match parse_str(s2) {
                None => None,
                Some((body, s3)) => match parse_i64(s3) {
                    None => None,
                    Some((timestamp, s4)) => Some(
                        (TextModel { id, author, body, timestamp }, s4),
                    ),
                },
            },
        },
    }
}

pub open spec fn parse_file_info(s: Seq<u8>) -> Parsed<FileInfoModel> {
    match parse_u64(s) {
        None => None,
        Some((id, s1)) => match parse_str(s1) {
            None => None,
            Some((name, s2)) => match parse_u64(s2) {
                None => None,
                Some((original_size, s3)) => match parse_u64(s3) {
                    None => None,
                    Some((compressed_size, s4)) => Some(
                        (FileInfoModel { id, name, original_size, compressed_size }, s4),
                    ),
                },
            },
        },
    }
}

pub open spec fn parse_chunk(s: Seq<u8>) -> Parsed<ChunkModel> {
    match parse_u64(s) {
        None => None,
        Some((id, s1)) => match parse_u64(s1) {
            None => None,
            Some((offset, s2)) => match parse_bytes(s2) {
                None => None,
                Some((bytes, s3)) => match parse_bool(s3) {
                    None => None,
                    Some((last, s4)) => Some((ChunkModel { id, offset, bytes, last }, s4)),
                },
            },
        },
    }
}

pub open spec fn parse_hello(s: Seq<u8>) -> Parsed<HelloModel> {
    match parse_str(s) {
        None => None,
        Some((username, s1)) => match parse_opt_str(s1) {
            None => None,
            Some((password, s2)) => match parse_fixed(s2, 32) {
                None => None,
                Some((public_key, s3)) => Some(
                    (HelloModel { username, password, public_key }, s3),
                ),
            },
        },
    }
}

pub open spec fn parse_control(s: Seq<u8>) -> Parsed<ControlModel> {
    if s.len() == 0 {
        None
    } else {
        let r = s.skip(1);
        if s[0] == 0 {
            match parse_hello(r) {
                Some((h, t)) => Some((ControlModel::Hello(h), t)),
                None => None,
            }
        } else if s[0] == 1 {
            match parse_file_info(r) {
                Some((f, t)) => Some((ControlModel::FileOffer(f), t)),
                None => None,
            }
        } else if s[0] == 2 {
            match parse_u64(r) {
                Some((id, t)) => Some((ControlModel::FileAccept(id), t)),
                None => None,
            }
        } else if s[0] == 3 {
            match parse_u64(r) {
                None => None,
                Some((id, t)) => match parse_opt_str(t) {
                    Some((reason, u)) => Some((ControlModel::FileReject(id, reason), u)),
                    None => None,
                },
            }
        } else if s[0] == 4 {
            match parse_str(r) {
                Some((c, t)) => Some((ControlModel::Denied(c), t)),
                None => None,
            }
        } else if s[0] == 5 {
            match parse_str(r) {
                Some((c, t)) => Some((ControlModel::Info(c), t)),
                None => None,
            }
        } else {
            None
        }
    }
}

pub open spec fn parse_message(s: Seq<u8>) -> Parsed<MessageModel> {
    if s.len() == 0 {
        None
    } else {
        let r = s.skip(1);
        if s[0] == 0 {
            match parse_text(r) {
                Some((t, u)) => Some((MessageModel::Text(t), u)),
                None => None,
            }
        } else if s[0] == 1 {
            match parse_file_info(r) {
                Some((f, u)) => Some((MessageModel::FileMeta(f), u)),
                None => None,
            }
        } else if s[0] == 2 {
            match parse_chunk(r) {
                Some((c, u)) => Some((MessageModel::FileChunk(c), u)),
                None => None,
            }
        } else if s[0] == 3 {
            match parse_control(r) {
                Some((c, u)) => Some((MessageModel::Control(c), u)),
                None => None,
            }
        } else if s[0] == 4 {
            match parse_fixed(r, 12) {
                None => None,
                Some((nonce, t)) => match parse_bytes(t) {
                    Some((body, u)) => Some((MessageModel::Ciphertext(CipherModel { nonce, body }), u)),
                    None => None,
                },
            }
        } else {
            None
        }
    }
}

/// The message a payload encodes, if it encodes one with no bytes left over.
pub open spec fn spec_decode(b: Seq<u8>) -> Option<MessageModel> {
    match parse_message(b) {
        Some((m, rest)) => if rest.len() == 0 {
            Some(m)
        } else {
            None
        },
        None => None,
    }
}

proof fn lemma_tag(tag: u8, body: Seq<u8>, rest: Seq<u8>)
    ensures
        (seq![tag] + body + rest).len() > 0,
        (seq![tag] + body + rest)[0] == tag,
        (seq![tag] + body + rest).skip(1) == body + rest,
{
    assert((seq![tag] + body + rest).skip(1) =~= body + rest);
}

proof fn lemma_text(t: TextModel, rest: Seq<u8>)
    requires
        str_fits(t.author),
        str_fits(t.body),
    ensures
        parse_text(enc_text(t) + rest) == Some((t, rest)),
{
    let s3 = enc_i64(t.timestamp) + rest;
    let s2 = enc_str(t.body) + s3;
    let s1 = enc_str(t.author) + s2;
    lemma_i64(t.timestamp, rest);
    lemma_str(t.body, s3);
    lemma_str(t.author, s2);
    lemma_u64(t.id, s1);
    assert(enc_text(t) + rest =~= enc_u64(t.id) + s1);
}

proof fn lemma_file_info(f: FileInfoModel, rest: Seq<u8>)
    requires
        file_info_fits(f),
    ensures
        parse_file_info(enc_file_info(f) + rest) == Some((f, rest)),
{
    let s3 = enc_u64(f.compressed_size) + rest;
    let s2 = enc_u64(f.original_size) + s3;
    let s1 = enc_str(f.name) + s2;
    lemma_u64(f.compressed_size, rest);
    lemma_u64(f.original_size, s3);
    lemma_str(f.name, s2);
    lemma_u64(f.id, s1);
    assert(enc_file_info(f) + rest =~= enc_u64(f.id) + s1);
}

proof fn lemma_chunk(c: ChunkModel, rest: Seq<u8>)
    requires
        c.bytes.len() <= u64::MAX,
    ensures
        parse_chunk(enc_chunk(c) + rest) == Some((c, rest)),
{
    let s3 = enc_bool(c.last) + rest;
    let s2 = enc_bytes(c.bytes) + s3;
    let s1 = enc_u64(c.offset) + s2;
    lemma_bool(c.last, rest);
    lemma_bytes(c.bytes, s3);
    lemma_u64(c.offset, s2);
    lemma_u64(c.id, s1);
    assert(enc_chunk(c) + rest =~= enc_u64(c.id) + s1);
}

proof fn lemma_control(c: ControlModel, rest: Seq<u8>)
    requires
        control_fits(c),
    ensures
        parse_control(enc_control(c) + rest) == Some((c, rest)),
{
    match c {
        ControlModel::Hello(h) => {
            let s2 = h.public_key + rest;
            let s1 = enc_opt_str(h.password) + s2;
            lemma_fixed(h.public_key, rest);
            lemma_opt_str(h.password, s2);
            lemma_str(h.username, s1);
            let body = enc_str(h.username) + (enc_opt_str(h.password) + h.public_key);
            lemma_tag(0u8, body, rest);
            assert(body + rest =~= enc_str(h.username) + s1);
        },
        ControlModel::FileOffer(f) => {
            lemma_tag(1u8, enc_file_info(f), rest);
            lemma_file_info(f, rest);
        },
        ControlModel::FileAccept(id) => {
            lemma_tag(2u8, enc_u64(id), rest);
            lemma_u64(id, rest);
        },
        ControlModel::FileReject(id, r) => {
            lemma_tag(3u8, enc_u64(id) + enc_opt_str(r), rest);
            lemma_opt_str(r, rest);
            lemma_u64(id, enc_opt_str(r) + rest);
            assert(enc_u64(id) + enc_opt_str(r) + rest =~= enc_u64(id) + (enc_opt_str(r) + rest));
        },
        ControlModel::Denied(t) => {
            lemma_tag(4u8, enc_str(t), rest);
            lemma_str(t, rest);
        },
        ControlModel::Info(t) => {
            lemma_tag(5u8, enc_str(t), rest);
            lemma_str(t, rest);
        },
    }
}

/// Every message decodes back from its encoding: the codec is lossless for
/// each variant.
pub proof fn lemma_decode_encode(m: MessageModel)
    requires
        message_fits(m),
    ensures
        spec_decode(spec_encode(m)) == Some(m),
{
    let e = Seq::<u8>::empty();
    assert(spec_encode(m) + e =~= spec_encode(m));
    match m {
        MessageModel::Text(t) => {
            lemma_tag(0u8, enc_text(t), e);
            lemma_text(t, e);
        },
        MessageModel::FileMeta(f) => {
            lemma_tag(1u8, enc_file_info(f), e);
            lemma_file_info(f, e);
        },
        MessageModel::FileChunk(c) => {
            lemma_tag(2u8, enc_chunk(c), e);
            lemma_chunk(c, e);
        },
        MessageModel::Control(c) => {
            lemma_tag(3u8, enc_control(c), e);
            lemma_control(c, e);
        },
        MessageModel::Ciphertext(c) => {
            lemma_tag(4u8, c.nonce + enc_bytes(c.body), e);
            lemma_bytes(c.body, e);
            lemma_fixed(c.nonce, enc_bytes(c.body) + e);
            assert(c.nonce + enc_bytes(c.body) + e =~= c.nonce + (enc_bytes(c.body) + e));
        },
    }
}


// ---- executable encoding ----

pub fn put_text(out: &mut Vec<u8>, t: &TextMessage)
    ensures
        final(out)@ == old(out)@ + enc_text(t@),
        str_fits(t.author@) && str_fits(t.body@),
{
    put_u64(out, t.id);
    put_str(out, &t.author);
    put_str(out, &t.body);
    put_i64(out, t.timestamp);
    assert(final(out)@ =~= old(out)@ + enc_text(t@));
}

fn put_file_info(out: &mut Vec<u8>, id: u64, name: &String, original_size: u64, compressed_size: u64)
    ensures
        final(out)@ == old(out)@ + enc_file_info(
            FileInfoModel { id, name: name@, original_size, compressed_size },
        ),
        str_fits(name@),
{
    put_u64(out, id);
    put_str(out, name);
    put_u64(out, original_size);
    put_u64(out, compressed_size);
    assert(final(out)@ =~= old(out)@ + enc_file_info(
        FileInfoModel { id, name: name@, original_size, compressed_size },
    ));
}

fn put_control(out: &mut Vec<u8>, c: &ControlMessage)
    ensures
        final(out)@ == old(out)@ + enc_control(c@),
        control_fits(c@),
{
    match c {
        ControlMessage::Hello(h) => {
            out.push(0u8);
            put_str(out, &h.username);
            put_opt_str(out, &h.password);
            append_bytes(out, h.public_key.as_slice());
        },
        ControlMessage::FileOffer(f) => {
            out.push(1u8);
            put_file_info(out, f.id, &f.name, f.original_size, f.compressed_size);
        },
        ControlMessage::FileAccept(a) => {
            out.push(2u8);
            put_u64(out, a.id);
        },
        ControlMessage::FileReject(r) => {
            out.push(3u8);
            put_u64(out, r.id);
            put_opt_str(out, &r.reason);
        },
        ControlMessage::Denied(t) => {
            out.push(4u8);
            put_str(out, t);
        },
        ControlMessage::Info(t) => {
            out.push(5u8);
            put_str(out, t);
        },
    }
    assert(final(out)@ =~= old(out)@ + enc_control(c@));
}

/// Serializes a message into its payload bytes.
pub fn encode_message(message: &WireMessage) -> (r: Vec<u8>)
    ensures
        r@ == spec_encode(message@),
        message_fits(message@),
{
    let mut out: Vec<u8> = Vec::new();
    match message {
        WireMessage::Text(t) => {
            out.push(0u8);
            put_text(&mut out, t);
        },
        WireMessage::FileMeta(f) => {
            out.push(1u8);
            put_file_info(&mut out, f.id, &f.name, f.original_size, f.compressed_size);
        },
        WireMessage::FileChunk(c) => {
            out.push(2u8);
            put_u64(&mut out, c.id);
            put_u64(&mut out, c.offset);
            put_bytes(&mut out, c.bytes.as_slice());
            put_bool(&mut out, c.last);
        },
        WireMessage::Control(c) => {
            out.push(3u8);
            put_control(&mut out, c);
        },
        WireMessage::Ciphertext(c) => {
            out.push(4u8);
            append_bytes(&mut out, c.nonce.as_slice());
            put_bytes(&mut out, c.body.as_slice());
        },
    }
    assert(out@ =~= spec_encode(message@));
    out
}

// ---- executable decoding ----

pub fn get_text(b: &[u8], pos: usize) -> (r: Option<(TextMessage, usize)>)
    requires
        pos <= b@.len(),
    ensures
        r is Some <==> parse_text(b@.skip(pos as int)) is Some,
        r matches Some((v, p)) ==> p <= b@.len() && parse_text(b@.skip(pos as int)) == Some(
            (v@, b@.skip(p as int)),
        ),
{
    let (id, p1) = match get_u64(b, pos) { Some(x) => x, None => return None };
    let (author, p2) = match get_str(b, p1) { Some(x) => x, None => return None };
    let (body, p3) = match get_str(b, p2) { Some(x) => x, None => return None };
    let (timestamp, p4) = match get_i64(b, p3) { Some(x) => x, None => return None };
    Some((TextMessage { id, author, body, timestamp }, p4))
}

fn get_file_info(b: &[u8], pos: usize) -> (r: Option<(FileMetadata, usize)>)
    requires
        pos <= b@.len(),
    ensures
        r is Some <==> parse_file_info(b@.skip(pos as int)) is Some,
        r matches Some((v, p)) ==> p <= b@.len() && parse_file_info(b@.skip(pos as int)) == Some(
            (v@, b@.skip(p as int)),
        ),
{
    let (id, p1) = match get_u64(b, pos) { Some(x) => x, None => return None };
    let (name, p2) = match get_str(b, p1) { Some(x) => x, None => return None };
    let (original_size, p3) = match get_u64(b, p2) { Some(x) => x, None => return None };
    let (compressed_size, p4) = match get_u64(b, p3) { Some(x) => x, None => return None };
    Some((FileMetadata { id, name, original_size, compressed_size }, p4))
}

fn get_chunk(b: &[u8], pos: usize) -> (r: Option<(FileChunk, usize)>)
    requires
        pos <= b@.len(),
    ensures
        r is Some <==> parse_chunk(b@.skip(pos as int)) is Some,
        r matches Some((v, p)) ==> p <= b@.len() && parse_chunk(b@.skip(pos as int)) == Some(
            (v@, b@.skip(p as int)),
        ),
{
    let (id, p1) = match get_u64(b, pos) { Some(x) => x, None => return None };
    let (offset, p2) = match get_u64(b, p1) { Some(x) => x, None => return None };
    let (bytes, p3) = match get_bytes(b, p2) { Some(x) => x, None => return None };
    let (last, p4) = match get_bool(b, p3) { Some(x) => x, None => return None };
    Some((FileChunk { id, offset, bytes, last }, p4))
}

fn get_hello(b: &[u8], pos: usize) -> (r: Option<(HelloMessage, usize)>)
    requires
        pos <= b@.len(),
    ensures
        r is Some <==> parse_hello(b@.skip(pos as int)) is Some,
        r matches Some((v, p)) ==> p <= b@.len() && parse_hello(b@.skip(pos as int)) == Some(
            (v@, b@.skip(p as int)),
        ),
{
    let (username, p1) = match get_str(b, pos) { Some(x) => x, None => return None };
    let (password, p2) = match get_opt_str(b, p1) { Some(x) => x, None => return None };
    let (key, p3) = match get_fixed(b, p2, 32) { Some(x) => x, None => return None };
    let public_key: [u8; 32] = to_array(&key);
    Some((HelloMessage { username, password, public_key }, p3))
}

fn get_control(b: &[u8], pos: usize) -> (r: Option<(ControlMessage, usize)>)
    requires
        pos <= b@.len(),
    ensures
        r is Some <==> parse_control(b@.skip(pos as int)) is Some,
        r matches Some((v, p)) ==> p <= b@.len() && parse_control(b@.skip(pos as int)) == Some(
            (v@, b@.skip(p as int)),
        ),
{
    if pos >= b.len() {
        return None;
    }
    let tag = b[pos];
    let q = pos + 1;
    assert(b@.skip(pos as int).skip(1) =~= b@.skip(q as int));
    if tag == 0 {
        match get_hello(b, q) {
            Some((h, p)) => Some((ControlMessage::Hello(h), p)),
            None => None,
        }
    } else if tag == 1 {
        match get_file_info(b, q) {
            Some((f, p)) => Some((
                ControlMessage::FileOffer(
                    FileOffer {
                        id: f.id,
                        name: f.name,
                        original_size: f.original_size,
                        compressed_size: f.compressed_size,
                    },
                ),
                p,
            )),
            None => None,
        }
    } else if tag == 2 {
        match get_u64(b, q) {
            Some((id, p)) => Some((ControlMessage::FileAccept(FileAccept { id }), p)),
            None => None,
        }
    } else if tag == 3 {
        let (id, p1) = match get_u64(b, q) { Some(x) => x, None => return None };
        match get_opt_str(b, p1) {
            Some((reason, p)) => Some((ControlMessage::FileReject(FileReject { id, reason }), p)),
            None => None,
        }
    } else if tag == 4 {
        match get_str(b, q) {
            Some((t, p)) => Some((ControlMessage::Denied(t), p)),
            None => None,
        }
    } else if tag == 5 {
        match get_str(b, q) {
            Some((t, p)) => Some((ControlMessage::Info(t), p)),
            None => None,
        }
    } else {
        None
    }
}

fn get_message(b: &[u8]) -> (r: Option<(WireMessage, usize)>)
    ensures
        r is Some <==> parse_message(b@) is Some,
        r matches Some((v, p)) ==> p <= b@.len() && parse_message(b@) == Some(
            (v@, b@.skip(p as int)),
        ),
{
    if b.len() == 0 {
        return None;
    }
    let tag = b[0];
    assert(b@.skip(0) =~= b@);
    if tag == 0 {
        match get_text(b, 1) {
            Some((t, p)) => Some((WireMessage::Text(t), p)),
            None => None,
        }
    } else if tag == 1 {
        match get_file_info(b, 1) {
            Some((f, p)) => Some((WireMessage::FileMeta(f), p)),
            None => None,
        }
    } else if tag == 2 {
        match get_chunk(b, 1) {
            Some((c, p)) => Some((WireMessage::FileChunk(c), p)),
            None => None,
        }
    } else if tag == 3 {
        match get_control(b, 1) {
            Some((c, p)) => Some((WireMessage::Control(c), p)),
            None => None,
        }
    } else if tag == 4 {
        let (nonce_bytes, p1) = match get_fixed(b, 1, 12) { Some(x) => x, None => return None };
        let nonce: [u8; 12] = to_array(&nonce_bytes);
        match get_bytes(b, p1) {
            Some((body, p)) => Some((WireMessage::Ciphertext(CipherFrame { nonce, body }), p)),
            None => None,
        }
    } else {
        None
    }
}

/// Deserializes a message from exactly the bytes of its payload.
pub fn decode_message(bytes: &[u8]) -> (r: Result<WireMessage, ProtocolError>)
    ensures
        match spec_decode(bytes@) {
            Some(m) => r matches Ok(v) && v@ == m,
            None => r == Err::<WireMessage, ProtocolError>(ProtocolError::Malformed),
        },
{
    match get_message(bytes) {
        Some((m, p)) => {
            if p == bytes.len() {
                Ok(m)
            } else {
                Err(ProtocolError::Malformed)
            }
        },
        None => Err(ProtocolError::Malformed),
    }
}


// ---- framing ----

/// A frame: the payload length as four big-endian bytes, then the payload.
pub open spec fn spec_frame(payload: Seq<u8>) -> Seq<u8> {
    be32(payload.len() as u32) + payload
}

/// What reading one frame from the front of `b` yields: nothing on empty
/// input, an error on a cut-off or oversized frame or an undecodable payload,
/// else the message and the number of bytes the frame took.
pub open spec fn spec_read_frame(b: Seq<u8>) -> Result<Option<(MessageModel, int)>, ProtocolError> {
    if b.len() == 0 {
        Ok(None)
    } else if b.len() < 4 {
        Err(ProtocolError::Truncated)
    } else {
        let n = be32_value(b) as int;
        if n > MAX_FRAME_BYTES {
            Err(ProtocolError::FrameTooLarge)
        } else if b.len() < 4 + n {
            Err(ProtocolError::Truncated)
        } else {
            match spec_decode(b.subrange(4, 4 + n)) {
                Some(m) => Ok(Some((m, 4 + n))),
                None => Err(ProtocolError::Malformed),
            }
        }
    }
}

/// Whether an executable read result is the one `spec_read_frame` gives.
pub open spec fn read_matches(
    r: Result<Option<(WireMessage, usize)>, ProtocolError>,
    s: Result<Option<(MessageModel, int)>, ProtocolError>,
) -> bool {
    match (r, s) {
        (Ok(Some((v, k))), Ok(Some((m, n)))) => v@ == m && k == n,
        (Ok(None), Ok(None)) => true,
        (Err(e), Err(f)) => e == f,
        _ => false,
    }
}

/// Encodes `message` and appends it to `writer` as one frame. A payload over
/// `MAX_FRAME_BYTES` is refused and nothing is written.
pub fn write_message(writer: &mut Vec<u8>, message: &WireMessage) -> (r: Result<(), ProtocolError>)
    ensures
        message_fits(message@),
        spec_encode(message@).len() > MAX_FRAME_BYTES ==> r == Err::<(), ProtocolError>(
            ProtocolError::FrameTooLarge,
        ) && final(writer)@ == old(writer)@,
        spec_encode(message@).len() <= MAX_FRAME_BYTES ==> r is Ok && final(writer)@ == old(
            writer,
        )@ + spec_frame(spec_encode(message@)),
{
    let payload = encode_message(message);
    if payload.len() > MAX_FRAME_BYTES {
        return Err(ProtocolError::FrameTooLarge);
    }
    let header = be32_bytes(payload.len() as u32);
    append_bytes(writer, header.as_slice());
    append_bytes(writer, payload.as_slice());
    assert(writer@ =~= old(writer)@ + spec_frame(spec_encode(message@)));
    Ok(())
}

/// Reads the payload length from a four-byte frame header, refusing one over
/// `MAX_FRAME_BYTES` before any of the body is read.
pub fn frame_length(header: &[u8]) -> (r: Result<usize, ProtocolError>)
    requires
        header@.len() >= 4,
    ensures
        be32_value(header@) > MAX_FRAME_BYTES ==> r == Err::<usize, ProtocolError>(
            ProtocolError::FrameTooLarge,
        ),
        be32_value(header@) <= MAX_FRAME_BYTES ==> r == Ok::<usize, ProtocolError>(
            be32_value(header@) as usize,
        ),
{
    let n = be32_read(header);
    if n as usize > MAX_FRAME_BYTES {
        Err(ProtocolError::FrameTooLarge)
    } else {
        Ok(n as usize)
    }
}

/// Reads one frame from the front of `reader`: `None` on empty input, else the
/// message and how many bytes its frame took.
pub fn read_message(reader: &[u8]) -> (r: Result<Option<(WireMessage, usize)>, ProtocolError>)
    ensures
        read_matches(r, spec_read_frame(reader@)),
{
    if reader.len() == 0 {
        return Ok(None);
    }
    if reader.len() < 4 {
        return Err(ProtocolError::Truncated);
    }
    let n = match frame_length(reader) {
        Ok(n) => n,
        Err(e) => return Err(e),
    };
    if reader.len() - 4 < n {
        return Err(ProtocolError::Truncated);
    }
    let body = vstd::slice::slice_subrange(reader, 4, 4 + n);
    match decode_message(body) {
        Ok(m) => Ok(Some((m, 4 + n))),
        Err(e) => Err(e),
    }
}

/// A frame written for a message reads back as that message, whatever bytes
/// follow it, and takes exactly its own length.
pub proof fn lemma_frame_round_trip(m: MessageModel, rest: Seq<u8>)
    requires
        message_fits(m),
        spec_encode(m).len() <= MAX_FRAME_BYTES,
    ensures
        spec_read_frame(spec_frame(spec_encode(m)) + rest) == Ok::<
            Option<(MessageModel, int)>,
            ProtocolError,
        >(Some((m, spec_frame(spec_encode(m)).len() as int))),
{
    let p = spec_encode(m);
    let b = spec_frame(p) + rest;
    lemma_be32_round_trip(p.len() as u32);
    assert(b.subrange(0, 4) =~= be32(p.len() as u32));
    assert(be32_value(b) == be32_value(be32(p.len() as u32)));
    assert(b.subrange(4, 4 + p.len() as int) =~= p);
    lemma_decode_encode(m);
}

/// Empty input holds no frame, and a cut-off header is an error.
pub proof fn lemma_read_short_input(b: Seq<u8>)
    requires
        b.len() < 4,
    ensures
        b.len() == 0 ==> spec_read_frame(b) == Ok::<Option<(MessageModel, int)>, ProtocolError>(
            None,
        ),
        b.len() > 0 ==> spec_read_frame(b) == Err::<Option<(MessageModel, int)>, ProtocolError>(
            ProtocolError::Truncated,
        ),
{
}


/// Relies on `SystemTime::elapsed` from `UNIX_EPOCH`: whole seconds since
/// the epoch, or nothing when the clock is before it.
#[verifier::external_body]
fn seconds_since_epoch() -> (r: Option<u64>) {
    std::time::UNIX_EPOCH.elapsed().ok().map(|d| d.as_secs())
}

/// A Unix timestamp in seconds from a clock reading; 0 before the epoch.
pub fn timestamp_from(seconds: Option<u64>) -> (r: i64)
    ensures
        r == match seconds {
            Some(s) => s as i64,
            None => 0i64,
        },
{
    match seconds {
        Some(s) => s as i64,
        None => 0,
    }
}

/// The current Unix timestamp in seconds.
pub fn utc_timestamp() -> (r: i64) {
    timestamp_from(seconds_since_epoch())
}

} // verus!
