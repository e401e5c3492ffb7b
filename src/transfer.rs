//! File-transfer bookkeeping: the three transfer maps, and the sender's and
//! receiver's per-stream progress.
use crate::addr::PeerAddr;
use crate::protocol::{ControlMessage, FileAccept, FileChunk, FileMetadata, FileOffer, FileReject, WireMessage};
use std::collections::HashMap;
use vstd::prelude::*;
use vstd::string::{StringExecFns, StringSliceAdditionalSpecFns};

verus! {

broadcast use vstd::std_specs::hash::group_hash_axioms;

/// Direction of a transfer, seen from this endpoint.
#[derive(Debug, Clone, Copy, PartialEq, Eq, Structural)]
pub enum TransferDirection {
    Incoming,
    Outgoing,
}

/// Transfer progress reported to the UI.
#[derive(Debug, Clone)]
pub struct FileTransferProgress {
    pub id: u64,
    pub name: String,
    pub transferred: u64,
    pub total: u64,
    pub direction: TransferDirection,
    pub path: Option<String>,
    pub completed: bool,
}

/// An offer received from the peer, awaiting the user's answer.
#[derive(Debug, Clone)]
pub struct FileOfferNotice {
    pub id: u64,
    pub name: String,
    pub original_size: u64,
    pub compressed_size: u64,
    pub peer: PeerAddr,
}

/// An outgoing file compressed on disk, awaiting the peer's answer.
#[derive(Debug)]
pub struct PreparedTransfer {
    pub offer: FileOffer,
    pub original_path: String,
    pub compressed_path: String,
}

/// An accepted incoming file, awaiting its stream.
#[derive(Debug)]
pub struct IncomingTransfer {
    pub target_path: String,
    pub temp_path: String,
    pub original_name: String,
}

/// The transfer maps shared by the actor and the stream handlers, each keyed
/// by transfer id.
pub struct TransferBook {
    pub pending: HashMap<u64, PreparedTransfer>,
    pub offers: HashMap<u64, FileOfferNotice>,
    pub incoming: HashMap<u64, IncomingTransfer>,
}

impl TransferBook {
    pub fn new() -> (r: TransferBook)
        ensures
            r.pending@ == Map::<u64, PreparedTransfer>::empty(),
            r.offers@ == Map::<u64, FileOfferNotice>::empty(),
            r.incoming@ == Map::<u64, IncomingTransfer>::empty(),
    {
        TransferBook { pending: HashMap::new(), offers: HashMap::new(), incoming: HashMap::new() }
    }

    /// Removes and returns the prepared transfer with this id.
    pub fn take_prepared(&mut self, id: u64) -> (r: Option<PreparedTransfer>)
        ensures
            final(self).pending@ == old(self).pending@.remove(id),
            final(self).offers@ == old(self).offers@,
            final(self).incoming@ == old(self).incoming@,
            match r {
                Some(t) => old(self).pending@.contains_key(id) && t == old(self).pending@[id],
                None => !old(self).pending@.contains_key(id),
            },
    {
        self.pending.remove(&id)
    }

    /// Removes and returns the offer with this id.
    pub fn take_offer(&mut self, id: u64) -> (r: Option<FileOfferNotice>)
        ensures
            final(self).offers@ == old(self).offers@.remove(id),
            final(self).pending@ == old(self).pending@,
            final(self).incoming@ == old(self).incoming@,
            match r {
                Some(t) => old(self).offers@.contains_key(id) && t == old(self).offers@[id],
                None => !old(self).offers@.contains_key(id),
            },
    {
        self.offers.remove(&id)
    }

    /// Removes and returns the accepted incoming transfer with this id.
    pub fn take_incoming(&mut self, id: u64) -> (r: Option<IncomingTransfer>)
        ensures
            final(self).incoming@ == old(self).incoming@.remove(id),
            final(self).pending@ == old(self).pending@,
            final(self).offers@ == old(self).offers@,
            match r {
                Some(t) => old(self).incoming@.contains_key(id) && t == old(self).incoming@[id],
                None => !old(self).incoming@.contains_key(id),
            },
    {
        self.incoming.remove(&id)
    }
}

/// Why a transfer step was refused.
#[derive(Debug, Clone, Copy, PartialEq, Eq, Structural)]
pub enum TransferError {
    /// The source is not a regular file.
    NotAFile,
    /// The file is larger than the configured limit.
    TooLarge,
    /// No offer with this id is pending.
    NoOffer,
}

/// Checks a source file before it is compressed and offered.
pub fn validate_source(is_file: bool, len: u64, max_file_bytes: u64) -> (r: Result<(), TransferError>)
    ensures
        !is_file ==> r == Err::<(), TransferError>(TransferError::NotAFile),
        is_file && len > max_file_bytes ==> r == Err::<(), TransferError>(TransferError::TooLarge),
        is_file && len <= max_file_bytes ==> r is Ok,
{
    if !is_file {
        Err(TransferError::NotAFile)
    } else if len > max_file_bytes {
        Err(TransferError::TooLarge)
    } else {
        Ok(())
    }
}

/// The name offered for a file: its UTF-8 base name, else `file.bin`.
pub fn transfer_name(base_name: Option<String>) -> (r: String)
    ensures
        match base_name {
            Some(n) => r@ == n@,
            None => r@ == "file.bin"@,
        },
{
    match base_name {
        Some(n) => n,
        None => <String as StringExecFns>::from_str("file.bin"),
    }
}

/// Records a prepared transfer and yields the offer to send and the first
/// progress event (nothing sent yet).
pub fn register_outgoing(book: &mut TransferBook, transfer: PreparedTransfer) -> (r: (
    ControlMessage,
    FileTransferProgress,
))
    ensures
        final(book).pending@ == old(book).pending@.insert(transfer.offer.id, transfer),
        final(book).offers@ == old(book).offers@,
        final(book).incoming@ == old(book).incoming@,
        r.0 matches ControlMessage::FileOffer(o) && o@ == transfer.offer@,
        r.1.id == transfer.offer.id && r.1.name@ == transfer.offer.name@ && r.1.transferred == 0
            && r.1.total == transfer.offer.compressed_size && r.1.direction
            == TransferDirection::Outgoing && !r.1.completed && (r.1.path matches Some(p) && p@ == transfer.original_path@),
{
    let offer = FileOffer {
        id: transfer.offer.id,
        name: transfer.offer.name.clone(),
        original_size: transfer.offer.original_size,
        compressed_size: transfer.offer.compressed_size,
    };
    let progress = FileTransferProgress {
        id: transfer.offer.id,
        name: transfer.offer.name.clone(),
        transferred: 0,
        total: transfer.offer.compressed_size,
        direction: TransferDirection::Outgoing,
        path: Some(transfer.original_path.clone()),
        completed: false,
    };
    book.pending.insert(transfer.offer.id, transfer);
    (ControlMessage::FileOffer(offer), progress)
}

/// Records an offer from the peer.
pub fn register_offer(book: &mut TransferBook, offer: &FileOffer, peer: PeerAddr) -> (r: FileOfferNotice)
    ensures
        final(book).offers@ == old(book).offers@.insert(offer.id, r),
        final(book).pending@ == old(book).pending@,
        final(book).incoming@ == old(book).incoming@,
        r.id == offer.id && r.name@ == offer.name@ && r.original_size == offer.original_size
            && r.compressed_size == offer.compressed_size && r.peer == peer,
{
    let notice = FileOfferNotice {
        id: offer.id,
        name: offer.name.clone(),
        original_size: offer.original_size,
        compressed_size: offer.compressed_size,
        peer,
    };
    let copy = FileOfferNotice {
        id: offer.id,
        name: offer.name.clone(),
        original_size: offer.original_size,
        compressed_size: offer.compressed_size,
        peer,
    };
    book.offers.insert(offer.id, notice);
    copy
}

/// The path separator that marks a requested path as a directory.
pub const SEPARATOR: u8 = 47;

/// A requested destination is a directory when it is one on disk or ends
/// with the path separator; the offered name is then joined to it.
pub fn target_is_directory(requested: &str, is_dir: bool) -> (r: bool)
    ensures
        r == (is_dir || (requested.spec_bytes().len() > 0 && requested.spec_bytes().last()
            == SEPARATOR)),
{
    let b = requested.as_bytes();
    is_dir || (b.len() > 0 && b[b.len() - 1] == SEPARATOR)
}

/// Records an accepted offer and yields the acceptance to send and the first
/// incoming progress event.
pub fn register_incoming(
    book: &mut TransferBook,
    offer: &FileOfferNotice,
    target_path: String,
    temp_path: String,
) -> (r: (ControlMessage, FileTransferProgress))
    ensures
        final(book).incoming@.dom() == old(book).incoming@.dom().insert(offer.id),
        final(book).incoming@[offer.id].target_path@ == target_path@,
        final(book).incoming@[offer.id].temp_path@ == temp_path@,
        final(book).incoming@[offer.id].original_name@ == offer.name@,
        final(book).pending@ == old(book).pending@,
        final(book).offers@ == old(book).offers@,
        r.0 matches ControlMessage::FileAccept(a) && a.id == offer.id,
        r.1.id == offer.id && r.1.name@ == offer.name@ && r.1.transferred == 0 && r.1.total
            == offer.compressed_size && r.1.direction == TransferDirection::Incoming
            && !r.1.completed && (r.1.path matches Some(p) && p@ == target_path@),
{
    let progress = FileTransferProgress {
        id: offer.id,
        name: offer.name.clone(),
        transferred: 0,
        total: offer.compressed_size,
        direction: TransferDirection::Incoming,
        path: Some(target_path.clone()),
        completed: false,
    };
    let t = IncomingTransfer { target_path, temp_path, original_name: offer.name.clone() };
    book.incoming.insert(offer.id, t);
    (ControlMessage::FileAccept(FileAccept { id: offer.id }), progress)
}

/// Declines an offer: when it was pending, it is dropped and the refusal to
/// send is returned.
pub fn decline_offer(book: &mut TransferBook, id: u64) -> (r: Option<ControlMessage>)
    ensures
        final(book).offers@ == old(book).offers@.remove(id),
        final(book).pending@ == old(book).pending@,
        final(book).incoming@ == old(book).incoming@,
        old(book).offers@.contains_key(id) ==> (r matches Some(ControlMessage::FileReject(j)) && j.id
            == id && (j.reason matches Some(s) && s@ == "Recipient declined"@)),
        !old(book).offers@.contains_key(id) ==> r is None,
{
    match book.take_offer(id) {
        Some(_) => Some(
            ControlMessage::FileReject(
                FileReject {
                    id,
                    reason: Some(<String as StringExecFns>::from_str("Recipient declined")),
                },
            ),
        ),
        None => None,
    }
}

/// A chunk's `last` flag: the bytes reach the end of the compressed file.
pub open spec fn spec_is_last(offset: u64, len: nat, compressed_size: u64) -> bool {
    offset + len >= compressed_size
}

/// The sender's position in one outgoing file stream.
pub struct SendProgress {
    pub id: u64,
    pub name: String,
    pub total: u64,
    pub transferred: u64,
    pub path: String,
}

impl SendProgress {
    /// Progress at the start of a stream for an accepted transfer.
    pub fn start(transfer: &PreparedTransfer) -> (r: SendProgress)
        ensures
            r.id == transfer.offer.id && r.name@ == transfer.offer.name@ && r.total
                == transfer.offer.compressed_size && r.transferred == 0 && r.path@
                == transfer.original_path@,
    {
        SendProgress {
            id: transfer.offer.id,
            name: transfer.offer.name.clone(),
            total: transfer.offer.compressed_size,
            transferred: 0,
            path: transfer.original_path.clone(),
        }
    }

    /// The metadata frame that opens the stream.
    pub fn meta(&self, original_size: u64) -> (r: WireMessage)
        ensures
            r matches WireMessage::FileMeta(m) && m.id == self.id && m.name@ == self.name@
                && m.original_size == original_size && m.compressed_size == self.total,
    {
        WireMessage::FileMeta(
            FileMetadata {
                id: self.id,
                name: self.name.clone(),
                original_size,
                compressed_size: self.total,
            },
        )
    }

    /// Frames the next bytes read from the compressed file, and the progress
    /// after they are sent.
    pub fn next_chunk(&mut self, bytes: Vec<u8>) -> (r: (WireMessage, FileTransferProgress))
        requires
            old(self).transferred + bytes@.len() <= u64::MAX,
        ensures
            final(self).transferred == old(self).transferred + bytes@.len(),
            final(self).id == old(self).id && final(self).total == old(self).total
                && final(self).name@ == old(self).name@ && final(self).path@ == old(self).path@,
            r.0 matches WireMessage::FileChunk(c) && c.id == old(self).id && c.offset == old(self).transferred && c.bytes@ == bytes@ && c.last == spec_is_last(
                old(self).transferred,
                bytes@.len(),
                old(self).total,
            ),
            r.1.id == old(self).id && r.1.name@ == old(self).name@ && r.1.transferred == final(self).transferred && r.1.total == old(self).total && r.1.direction
                == TransferDirection::Outgoing && r.1.completed == (final(self).transferred >= old(self).total) && (r.1.path matches Some(p) && p@ == old(self).path@),
    {
        let len = bytes.len() as u64;
        let offset = self.transferred;
        let last = offset + len >= self.total;
        self.transferred = offset + len;
        let chunk = WireMessage::FileChunk(FileChunk { id: self.id, offset, bytes, last });
        let progress = FileTransferProgress {
            id: self.id,
            name: self.name.clone(),
            transferred: self.transferred,
            total: self.total,
            direction: TransferDirection::Outgoing,
            path: Some(self.path.clone()),
            completed: self.transferred >= self.total,
        };
        (chunk, progress)
    }
}

/// Why an incoming file stream is refused.
#[derive(Debug, Clone, Copy, PartialEq, Eq, Structural)]
pub enum ReceiveError {
    /// The announced original size is over the configured limit.
    TooLarge,
    /// No accepted transfer has this id.
    NotApproved,
}

/// Starts receiving the file a `FileMeta` frame announces: its size must be
/// within the limit and the transfer must have been accepted.
pub fn begin_receive(book: &mut TransferBook, meta: &FileMetadata, max_file_bytes: u64) -> (r: Result<
    IncomingTransfer,
    ReceiveError,
>)
    ensures
        meta.original_size > max_file_bytes ==> r == Err::<IncomingTransfer, ReceiveError>(
            ReceiveError::TooLarge,
        ) && final(book).incoming@ == old(book).incoming@,
        meta.original_size <= max_file_bytes ==> final(book).incoming@ == old(book).incoming@.remove(
            meta.id,
        ) && match r {
            Ok(t) => old(book).incoming@.contains_key(meta.id) && t == old(book).incoming@[meta.id],
            Err(e) => e == ReceiveError::NotApproved && !old(book).incoming@.contains_key(meta.id),
        },
        final(book).pending@ == old(book).pending@,
        final(book).offers@ == old(book).offers@,
{
    if meta.original_size > max_file_bytes {
        return Err(ReceiveError::TooLarge);
    }
    match book.take_incoming(meta.id) {
        Some(t) => Ok(t),
        None => Err(ReceiveError::NotApproved),
    }
}

/// What to do with one frame of an incoming file stream.
pub enum ReceiveStep {
    /// Write these bytes to the temporary file and report progress.
    Write(Vec<u8>, FileTransferProgress),
    /// The frame is not a chunk of this transfer: ignore it.
    Skip,
}

/// The receiver's position in one incoming file stream.
pub struct ReceiveProgress {
    pub id: u64,
    pub name: String,
    pub total: u64,
    pub transferred: u64,
    pub target_path: String,
    pub done: bool,
}

impl ReceiveProgress {
    pub fn start(meta: &FileMetadata, transfer: &IncomingTransfer) -> (r: ReceiveProgress)
        ensures
            r.id == meta.id && r.total == meta.compressed_size && r.transferred == 0 && !r.done
                && r.name@ == transfer.original_name@ && r.target_path@ == transfer.target_path@,
    {
        ReceiveProgress {
            id: meta.id,
            name: transfer.original_name.clone(),
            total: meta.compressed_size,
            transferred: 0,
            target_path: transfer.target_path.clone(),
            done: false,
        }
    }

    /// Takes one frame: a chunk of this transfer is written and counted, and
    /// the stream is done on its `last` flag or once the compressed size is
    /// reached; anything else is skipped.
    pub fn on_frame(&mut self, frame: WireMessage) -> (r: ReceiveStep)
        requires
            !old(self).done,
            frame matches WireMessage::FileChunk(c) ==> old(self).transferred + c.bytes@.len()
                <= u64::MAX,
        ensures
            final(self).id == old(self).id && final(self).total == old(self).total
                && final(self).name@ == old(self).name@ && final(self).target_path@ == old(self).target_path@,
            match frame {
                WireMessage::FileChunk(c) => if c.id == old(self).id {
                    &&& final(self).transferred == old(self).transferred + c.bytes@.len()
                    &&& final(self).done == (c.last || final(self).transferred >= old(self).total)
                    &&& r matches ReceiveStep::Write(b, p) && b@ == c.bytes@ && p.id == old(self).id
                        && p.transferred == final(self).transferred && p.total == old(self).total
                        && p.direction == TransferDirection::Incoming && !p.completed
                } else {
                    r is Skip && final(self).transferred == old(self).transferred && !final(self).done
                },
                _ => r is Skip && final(self).transferred == old(self).transferred && !final(self).done,
            },
    {
        match frame {
            WireMessage::FileChunk(c) => {
                if c.id != self.id {
                    return ReceiveStep::Skip;
                }
                self.transferred = self.transferred + c.bytes.len() as u64;
                self.done = c.last || self.transferred >= self.total;
                let p = FileTransferProgress {
                    id: self.id,
                    name: self.name.clone(),
                    transferred: self.transferred,
                    total: self.total,
                    direction: TransferDirection::Incoming,
                    path: Some(self.target_path.clone()),
                    completed: false,
                };
                ReceiveStep::Write(c.bytes, p)
            },
            _ => ReceiveStep::Skip,
        }
    }

    /// The event once the file is decompressed in place.
    pub fn completed(&self) -> (r: FileTransferProgress)
        ensures
            r.id == self.id && r.name@ == self.name@ && r.transferred == self.total && r.total
                == self.total && r.direction == TransferDirection::Incoming && r.completed
                && (r.path matches Some(p) && p@ == self.target_path@),
    {
        FileTransferProgress {
            id: self.id,
            name: self.name.clone(),
            transferred: self.total,
            total: self.total,
            direction: TransferDirection::Incoming,
            path: Some(self.target_path.clone()),
            completed: true,
        }
    }
}


/// Bytes sent after the first `k` chunks of the given lengths.
pub open spec fn sent_after(lens: Seq<nat>, k: int) -> nat
    decreases k,
{
    if k <= 0 {
        0
    } else {
        sent_after(lens, k - 1) + lens[k - 1]
    }
}

/// A whole outgoing stream: when the chunks read are non-empty and add up to
/// the compressed size, the progress reported after each grows strictly,
/// only the last reports completion, and it reports the full size.
pub proof fn lemma_send_stream(lens: Seq<nat>, total: nat)
    requires
        lens.len() > 0,
        forall|i: int| 0 <= i < lens.len() ==> lens[i] > 0,
        sent_after(lens, lens.len() as int) == total,
    ensures
        forall|k: int| 1 <= k < lens.len() ==> #[trigger] sent_after(lens, k) < sent_after(lens, k + 1),
        forall|k: int| 1 <= k < lens.len() ==> sent_after(lens, k) < total,
        sent_after(lens, lens.len() as int) == total,
{
    assert forall|k: int| 1 <= k < lens.len() implies sent_after(lens, k) < total by {
        lemma_sent_grows(lens, k, lens.len() as int);
    }
}

proof fn lemma_sent_grows(lens: Seq<nat>, k: int, m: int)
    requires
        0 <= k < m <= lens.len(),
        forall|i: int| 0 <= i < lens.len() ==> lens[i] > 0,
    ensures
        sent_after(lens, k) < sent_after(lens, m),
    decreases m - k,
{
    if k + 1 < m {
        lemma_sent_grows(lens, k + 1, m);
    }
}

} // verus!
