//! The service actor's decisions: commands, events, the actor-owned state,
//! and the handling of control messages from the peer. The runtime in `app/`
//! performs the I/O each decision calls for and feeds the results back.
use crate::addr::PeerAddr;
use crate::config::LimitsConfig;
use crate::crypto::{aead_open, decrypt_text, spec_accept, spec_decode_text, CryptoCtx};
use crate::fields::opt_view;
use crate::history::HistoryEntry;
use crate::peers::{first_with_addr, inserted, SavedPeerModel, SavedPeersStore};
use crate::protocol::{ControlMessage, FileMetadata, HelloMessage, TextMessage, WireMessage};
pub use crate::peers::SavedPeer;
pub use crate::transfer::{FileOfferNotice, FileTransferProgress, TransferDirection};
use crate::transfer::{register_offer, PreparedTransfer, TransferBook};
use vstd::prelude::*;
use vstd::string::StringExecFns;

verus! {

/// Commands that drive the service.
#[derive(Debug)]
pub enum ServiceCommand {
    Listen { addr: PeerAddr, password: Option<String> },
    StopListening,
    Connect { addr: PeerAddr, password: Option<String> },
    Disconnect,
    SendText { text: String },
    SendFile { path: String },
    Discover,
    SetUsername { username: String },
    SetDiscoveryTarget { target: Option<u32> },
    AcceptFile { id: u64, path: String },
    DeclineFile { id: u64 },
}

/// Peer discovery events.
#[derive(Debug, Clone, Copy, PartialEq, Eq, Structural)]
pub enum DiscoveryEvent {
    PeerFound(PeerAddr),
    Completed,
}

/// Events the service emits to the UI or CLI.
#[derive(Debug, Clone)]
pub enum ServiceEvent {
    Connected { peer: PeerAddr, name: String },
    Connecting { peer: PeerAddr },
    Listening { addr: PeerAddr, password_protected: bool },
    ListenerStopped,
    Disconnected,
    MessageReceived { peer: PeerAddr, author: String, text: String },
    MessageSent { author: String, text: String },
    PeerProfile { peer: PeerAddr, username: String },
    FileTransfer(FileTransferProgress),
    Discovery(DiscoveryEvent),
    SavedPeers(Vec<SavedPeer>),
    FileOffer(FileOfferNotice),
    Error { message: String },
}

/// Why a command or a control message was refused.
#[derive(Debug, Clone, Copy, PartialEq, Eq, Structural)]
pub enum ServiceError {
    AlreadyListening,
    NoConnection,
    EmptyMessage,
    MessageTooLong,
    NoPendingOffer,
    PasswordRejected,
}

impl ServiceError {
    /// The text of the `Error` event this failure becomes.
    pub fn message(&self) -> (r: String)
        ensures
            *self == ServiceError::AlreadyListening ==> r@ == "listener already active"@,
            *self == ServiceError::NoConnection ==> r@ == "no active connection"@,
            *self == ServiceError::EmptyMessage ==> r@ == "empty messages are ignored"@,
            *self == ServiceError::MessageTooLong ==> r@ == "message length exceeds configured limit"@,
            *self == ServiceError::NoPendingOffer ==> r@ == "no pending offer for that id"@,
            *self == ServiceError::PasswordRejected ==> r@ == "peer failed password validation"@,
    {
        let s = match self {
            ServiceError::AlreadyListening => "listener already active",
            ServiceError::NoConnection => "no active connection",
            ServiceError::EmptyMessage => "empty messages are ignored",
            ServiceError::MessageTooLong => "message length exceeds configured limit",
            ServiceError::NoPendingOffer => "no pending offer for that id",
            ServiceError::PasswordRejected => "peer failed password validation",
        };
        <String as StringExecFns>::from_str(s)
    }
}

/// A character with the Unicode `White_Space` property, as `char::is_whitespace` has it.
pub open spec fn is_whitespace(c: char) -> bool {
    let u = c as u32;
    (9 <= u <= 13) || u == 32 || u == 0x85 || u == 0xa0 || u == 0x1680 || (0x2000 <= u <= 0x200a) || u
        == 0x2028 || u == 0x2029 || u == 0x202f || u == 0x205f || u == 0x3000
}

/// The text without its leading whitespace.
pub open spec fn trim_start(s: Seq<char>) -> Seq<char>
    decreases s.len(),
{
    if s.len() > 0 && is_whitespace(s[0]) {
        trim_start(s.skip(1))
    } else {
        s
    }
}

/// The text without its trailing whitespace.
pub open spec fn trim_end(s: Seq<char>) -> Seq<char>
    decreases s.len(),
{
    if s.len() > 0 && is_whitespace(s.last()) {
        trim_end(s.drop_last())
    } else {
        s
    }
}

/// The text without leading and trailing whitespace.
pub open spec fn trim_of(s: Seq<char>) -> Seq<char> {
    trim_end(trim_start(s))
}

/// Relies on `str::trim`: it removes leading and trailing characters with
/// the `White_Space` property.
#[verifier::external_body]
fn trimmed(s: &str) -> (r: String)
    ensures
        r@ == trim_of(s@),
{
    s.trim().to_string()
}

fn clone_opt(o: &Option<String>) -> (r: Option<String>)
    ensures
        opt_view(&r) == opt_view(o),
{
    match o {
        Some(s) => Some(s.clone()),
        None => None,
    }
}

fn from_text(s: &str) -> (r: String)
    ensures
        r@ == s@,
{
    <String as StringExecFns>::from_str(s)
}

/// Name and key material of the active connection, shared with its reader.
pub struct ConnectionMeta {
    pub name: String,
    pub crypto: CryptoCtx,
}

impl ConnectionMeta {
    /// A connection whose peer has not said Hello yet: its name is `???`.
    pub fn new(crypto: CryptoCtx) -> (r: ConnectionMeta)
        ensures
            r.name@ == "???"@,
            r.crypto@ == crypto@,
    {
        ConnectionMeta { name: from_text("???"), crypto }
    }
}

/// What the runtime does after a control message.
pub struct ControlReaction {
    /// Events to emit, in order.
    pub events: Vec<ServiceEvent>,
    /// A control message to send back on a fresh stream.
    pub reply: Option<ControlMessage>,
    /// Close the connection with code 0 and this reason.
    pub close: Option<String>,
    /// An accepted outgoing transfer to stream.
    pub transmit: Option<PreparedTransfer>,
    /// A compressed file to delete.
    pub discard: Option<String>,
    /// The saved-peers list changed and is to be written out.
    pub persist_peers: bool,
    /// The failure to log, if the message was refused.
    pub failure: Option<ServiceError>,
}

/// A Hello is admitted when no password is required or it carries the
/// required one.
pub open spec fn password_ok(required: Option<Seq<char>>, offered: Option<Seq<char>>) -> bool {
    match required {
        None => true,
        Some(p) => offered == Some(p),
    }
}

fn password_matches(required: &Option<String>, offered: &Option<String>) -> (r: bool)
    ensures
        r == password_ok(opt_view(required), opt_view(offered)),
{
    match required {
        None => true,
        Some(p) => match offered {
            Some(q) => *p == *q,
            None => false,
        },
    }
}

/// `"File '{name}' was rejected: {reason}"`.
pub open spec fn rejection_text(name: Seq<char>, reason: Seq<char>) -> Seq<char> {
    "File '"@ + name + "' was rejected: "@ + reason
}

fn concat3(a: &str, b: &str, c: &str, d: &str) -> (r: String)
    ensures
        r@ == a@ + b@ + c@ + d@,
{
    let mut s = <String as StringExecFns>::from_str(a);
    s.append(b);
    s.append(c);
    s.append(d);
    s
}

fn empty_reaction() -> (r: ControlReaction)
    ensures
        r.events@.len() == 0 && r.reply is None && r.close is None && r.transmit is None
            && r.discard is None && !r.persist_peers && r.failure is None,
{
    ControlReaction {
        events: Vec::new(),
        reply: None,
        close: None,
        transmit: None,
        discard: None,
        persist_peers: false,
        failure: None,
    }
}

/// Handles a control message from the peer at `peer` (written `peer_text`).
///
/// Hello: refused with `Denied("Senha incorreta")` and a close for "invalid
/// password" when the password does not match; otherwise the peer's name is
/// taken, the shared key derived, the peer saved, and `SavedPeers` then
/// `PeerProfile` emitted. An offer is recorded and surfaced. An acceptance
/// hands the prepared transfer over for streaming; a refusal drops it,
/// reports it and discards its compressed file. `Denied` and `Info` are
/// reported as errors, and `Denied` closes the connection.
pub fn handle_control(
    meta: &mut ConnectionMeta,
    book: &mut TransferBook,
    peers: &mut SavedPeersStore,
    required_password: &Option<String>,
    peer: PeerAddr,
    peer_text: &str,
    control: ControlMessage,
) -> (r: ControlReaction)
    requires
        old(peers).wf(),
    ensures
        final(peers).wf(),
        !(control is Hello) ==> {
            &&& final(meta).name@ == old(meta).name@ && final(meta).crypto@ == old(meta).crypto@
            &&& final(peers)@ == old(peers)@ && !r.persist_peers && r.failure is None
        },
        control is Hello ==> {
            &&& final(book).pending@ == old(book).pending@ && final(book).offers@ == old(book).offers@
            &&& final(book).incoming@ == old(book).incoming@
            &&& r.transmit is None && r.discard is None
        },
        (control is Denied || control is Info) ==> {
            &&& final(book).pending@ == old(book).pending@ && final(book).offers@ == old(book).offers@
            &&& final(book).incoming@ == old(book).incoming@
            &&& r.discard is None && r.transmit is None
        },
        (control is FileAccept || control is FileReject) ==> {
            &&& final(book).offers@ == old(book).offers@ && final(book).incoming@ == old(book).incoming@
        },
        match control {
            ControlMessage::Hello(h) => if !password_ok(opt_view(required_password), opt_view(&h.password)) {
                &&& r.reply matches Some(ControlMessage::Denied(d)) && d@ == "Senha incorreta"@
                &&& r.close matches Some(c) && c@ == "invalid password"@
                &&& r.failure == Some(ServiceError::PasswordRejected)
                &&& r.events@.len() == 0 && !r.persist_peers
                &&& final(meta).name@ == old(meta).name@ && final(meta).crypto@ == old(meta).crypto@
                &&& final(peers)@ == old(peers)@
            } else {
                &&& final(meta).name@ == h.username@
                &&& final(meta).crypto@ == spec_accept(old(meta).crypto@, h.public_key@)
                &&& (forall|k: int| 0 <= k < old(peers)@.len() ==> old(peers)@[k].addr != peer) ==> inserted(
                    old(peers)@,
                    SavedPeerModel { addr: peer, name: h.username@ },
                    final(peers)@,
                )
                &&& forall|i: int| first_with_addr(old(peers)@, peer, i) ==> inserted(
                    old(peers)@.remove(i),
                    SavedPeerModel { addr: peer, name: h.username@ },
                    final(peers)@,
                )
                &&& r.persist_peers && r.reply is None && r.close is None && r.failure is None
                &&& r.events@.len() == 2
                &&& r.events@[0] matches ServiceEvent::SavedPeers(l) && l@.map_values(
                    |p: SavedPeer| p@,
                ) == final(peers)@
                &&& r.events@[1] matches ServiceEvent::PeerProfile { peer: pp, username: u } && pp
                    == peer && u@ == h.username@
            },
            ControlMessage::FileOffer(o) => {
                &&& final(book).offers@.contains_key(o.id)
                &&& final(book).offers@[o.id].id == o.id && final(book).offers@[o.id].name@ == o.name@
                &&& final(book).offers@[o.id].peer == peer
                &&& final(book).offers@[o.id].original_size == o.original_size
                &&& final(book).offers@[o.id].compressed_size == o.compressed_size
                &&& final(book).offers@.remove(o.id) == old(book).offers@.remove(o.id)
                &&& final(book).pending@ == old(book).pending@
                &&& final(book).incoming@ == old(book).incoming@
                &&& r.discard is None
                &&& r.events@.len() == 1
                &&& r.events@[0] matches ServiceEvent::FileOffer(n) && n.id == o.id
                    && n.name@ == o.name@ && n.original_size == o.original_size && n.compressed_size
                    == o.compressed_size && n.peer == peer
                &&& r.reply is None && r.close is None && r.transmit is None
            },
            ControlMessage::FileAccept(a) => {
                &&& final(book).pending@ == old(book).pending@.remove(a.id)
                &&& old(book).pending@.contains_key(a.id) ==> r.transmit == Some(old(book).pending@[a.id])
                &&& !old(book).pending@.contains_key(a.id) ==> r.transmit is None
                &&& r.events@.len() == 0 && r.reply is None && r.close is None && r.discard is None
            },
            ControlMessage::FileReject(j) => {
                &&& final(book).pending@ == old(book).pending@.remove(j.id)
                &&& r.transmit is None && r.reply is None && r.close is None
                &&& !old(book).pending@.contains_key(j.id) ==> r.events@.len() == 0 && r.discard is None
                &&& old(book).pending@.contains_key(j.id) ==> {
                    let t = old(book).pending@[j.id];
                    &&& r.discard matches Some(d) && d@ == t.compressed_path@
                    &&& r.events@.len() == 1
                    &&& r.events@[0] matches ServiceEvent::Error { message: m } && m@ == rejection_text(
                        t.offer.name@,
                        match j.reason {
                            Some(s) => s@,
                            None => "peer declined the transfer"@,
                        },
                    )
                }
            },
            ControlMessage::Denied(reason) => {
                &&& r.events@.len() == 1
                &&& r.events@[0] matches ServiceEvent::Error { message: m } && m@
                    == "conexão recusada por "@ + peer_text@ + ": "@ + reason@
                &&& r.close matches Some(c) && c@ == "remote denied"@
                &&& r.reply is None && r.transmit is None
            },
            ControlMessage::Info(text) => {
                &&& r.events@.len() == 1
                &&& r.events@[0] matches ServiceEvent::Error { message: m } && m@ == "mensagem de "@
                    + peer_text@ + ": "@ + text@
                &&& r.close is None && r.reply is None && r.transmit is None
            },
        },
{
    let mut r = empty_reaction();
    match control {
        ControlMessage::Hello(h) => {
            if !password_matches(required_password, &h.password) {
                r.reply = Some(ControlMessage::Denied(from_text("Senha incorreta")));
                r.close = Some(from_text("invalid password"));
                r.failure = Some(ServiceError::PasswordRejected);
                return r;
            }
            meta.name = h.username.clone();
            let _ = meta.crypto.accept_remote(h.public_key.as_slice());
            let list = peers.record(peer, h.username.as_str());
            r.events.push(ServiceEvent::SavedPeers(list));
            r.events.push(ServiceEvent::PeerProfile { peer, username: h.username });
            r.persist_peers = true;
        },
        ControlMessage::FileOffer(o) => {
            let notice = register_offer(book, &o, peer);
            r.events.push(ServiceEvent::FileOffer(notice));
        },
        ControlMessage::FileAccept(a) => {
            r.transmit = book.take_prepared(a.id);
        },
        ControlMessage::FileReject(j) => {
            match book.take_prepared(j.id) {
                Some(t) => {
                    let reason = match j.reason {
                        Some(s) => s,
                        None => from_text("peer declined the transfer"),
                    };
                    let message = concat3("File '", t.offer.name.as_str(), "' was rejected: ", reason.as_str());
                    r.events.push(ServiceEvent::Error { message });
                    r.discard = Some(t.compressed_path);
                },
                None => {},
            }
        },
        ControlMessage::Denied(reason) => {
            let message = concat3("conexão recusada por ", peer_text, ": ", reason.as_str());
            r.events.push(ServiceEvent::Error { message });
            r.close = Some(from_text("remote denied"));
        },
        ControlMessage::Info(text) => {
            let message = concat3("mensagem de ", peer_text, ": ", text.as_str());
            r.events.push(ServiceEvent::Error { message });
        },
    }
    r
}


/// The state the actor alone owns.
pub struct ServiceState {
    /// The address the listener is bound to, while listening.
    pub listening: Option<PeerAddr>,
    /// The peer of the active connection.
    pub connection: Option<PeerAddr>,
    pub username: String,
    /// The password inbound peers must present.
    pub listener_password: Option<String>,
    /// The configured listener password, used when `Listen` gives none.
    pub config_password: Option<String>,
    /// Where discovery probes go instead of the configured address.
    pub discovery_override: Option<u32>,
    pub limits: LimitsConfig,
}

/// The events of a finished discovery round: one per peer found, then `Completed`.
pub open spec fn spec_discovery_events(peers: Seq<PeerAddr>, events: Seq<ServiceEvent>) -> bool {
    &&& events.len() == peers.len() + 1
    &&& forall|i: int| 0 <= i < peers.len() ==> (#[trigger] events[i]) == ServiceEvent::Discovery(
        DiscoveryEvent::PeerFound(peers[i]),
    )
    &&& events.last() == ServiceEvent::Discovery(DiscoveryEvent::Completed)
}

pub fn discovery_events(peers: &Vec<PeerAddr>) -> (r: Vec<ServiceEvent>)
    ensures
        spec_discovery_events(peers@, r@),
{
    let mut out: Vec<ServiceEvent> = Vec::new();
    let mut i: usize = 0;
    while i < peers.len()
        invariant
            i <= peers@.len(),
            out@.len() == i,
            forall|k: int| 0 <= k < i ==> (#[trigger] out@[k]) == ServiceEvent::Discovery(
                DiscoveryEvent::PeerFound(peers@[k]),
            ),
        decreases peers@.len() - i,
    {
        out.push(ServiceEvent::Discovery(DiscoveryEvent::PeerFound(peers[i])));
        i = i + 1;
    }
    out.push(ServiceEvent::Discovery(DiscoveryEvent::Completed));
    out
}

/// The chat-log line, event and history entry for a text received from `peer`.
pub fn text_received(message: &TextMessage, peer: PeerAddr) -> (r: (ServiceEvent, String, HistoryEntry))
    ensures
        r.0 matches ServiceEvent::MessageReceived { peer: p, author: a, text: t } && p == peer && a@
            == message.author@ && t@ == message.body@,
        r.1@ == message.author@ + " -> you: "@ + message.body@,
        r.2.timestamp == message.timestamp && !r.2.outgoing && r.2.author@ == message.author@
            && r.2.text@ == message.body@,
{
    let event = ServiceEvent::MessageReceived {
        peer,
        author: message.author.clone(),
        text: message.body.clone(),
    };
    let mut line = message.author.clone();
    line.append(" -> you: ");
    line.append(message.body.as_str());
    let entry = HistoryEntry {
        timestamp: message.timestamp,
        outgoing: false,
        author: message.author.clone(),
        text: message.body.clone(),
    };
    (event, line, entry)
}

impl ServiceState {
    pub fn new(username: String, config_password: Option<String>, limits: LimitsConfig) -> (r: ServiceState)
        ensures
            r.listening is None && r.connection is None && r.username@ == username@
                && opt_view(&r.listener_password) == opt_view(&config_password) && opt_view(
                &r.config_password,
            ) == opt_view(&config_password) && r.discovery_override is None && r.limits == limits,
    {
        let listener_password = clone_opt(&config_password);
        ServiceState {
            listening: None,
            connection: None,
            username,
            listener_password,
            config_password,
            discovery_override: None,
            limits,
        }
    }

    /// Checks a `Listen` command: refused while listening; otherwise the
    /// password to require, the command's own or else the configured one.
    pub fn begin_listen(&self, password: Option<String>) -> (r: Result<Option<String>, ServiceError>)
        ensures
            self.listening is Some ==> r == Err::<Option<String>, ServiceError>(
                ServiceError::AlreadyListening,
            ),
            self.listening is None ==> (r matches Ok(p) && opt_view(&p) == match password {
                Some(s) => Some(s@),
                None => opt_view(&self.config_password),
            }),
    {
        if self.listening.is_some() {
            return Err(ServiceError::AlreadyListening);
        }
        match password {
            Some(p) => Ok(Some(p)),
            None => Ok(clone_opt(&self.config_password)),
        }
    }

    /// Records that the listener is bound.
    pub fn listening_started(&mut self, addr: PeerAddr, password: Option<String>) -> (r: ServiceEvent)
        ensures
            final(self).listening == Some(addr),
            opt_view(&final(self).listener_password) == opt_view(&password),
            final(self).connection == old(self).connection,
            final(self).username@ == old(self).username@,
            r == (ServiceEvent::Listening { addr, password_protected: password is Some }),
    {
        let protected = password.is_some();
        self.listening = Some(addr);
        self.listener_password = password;
        ServiceEvent::Listening { addr, password_protected: protected }
    }

    /// Stops the listener, if there is one.
    pub fn stop_listening(&mut self) -> (r: Option<ServiceEvent>)
        ensures
            final(self).listening is None,
            final(self).connection == old(self).connection,
            old(self).listening is Some ==> r == Some(ServiceEvent::ListenerStopped),
            old(self).listening is None ==> r is None,
    {
        match self.listening {
            Some(_) => {
                self.listening = None;
                Some(ServiceEvent::ListenerStopped)
            },
            None => None,
        }
    }

    /// Drops the active connection, if there is one.
    pub fn disconnect(&mut self) -> (r: Option<ServiceEvent>)
        ensures
            final(self).connection is None,
            final(self).listening == old(self).listening,
            final(self).username@ == old(self).username@,
            old(self).connection is Some ==> r == Some(ServiceEvent::Disconnected),
            old(self).connection is None ==> r is None,
    {
        match self.connection {
            Some(_) => {
                self.connection = None;
                Some(ServiceEvent::Disconnected)
            },
            None => None,
        }
    }

    /// Starts a `Connect`: announces it and drops any current connection.
    pub fn begin_connect(&mut self, addr: PeerAddr) -> (r: Vec<ServiceEvent>)
        ensures
            final(self).connection is None,
            final(self).listening == old(self).listening,
            final(self).username@ == old(self).username@,
            r@.len() >= 1 && r@[0] == (ServiceEvent::Connecting { peer: addr }),
            old(self).connection is Some ==> r@.len() == 2 && r@[1] == ServiceEvent::Disconnected,
            old(self).connection is None ==> r@.len() == 1,
    {
        let mut events: Vec<ServiceEvent> = Vec::new();
        events.push(ServiceEvent::Connecting { peer: addr });
        match self.disconnect() {
            Some(e) => events.push(e),
            None => {},
        }
        events
    }

    /// Makes `peer` the active connection, replacing any other: the events to
    /// emit and the Hello to send with the local public key.
    pub fn attach(&mut self, peer: PeerAddr, outgoing_password: Option<String>, public_key: [u8; 32]) -> (r: (
        Vec<ServiceEvent>,
        WireMessage,
    ))
        ensures
            final(self).connection == Some(peer),
            final(self).listening == old(self).listening,
            final(self).username@ == old(self).username@,
            old(self).connection is Some ==> r.0@.len() == 2 && r.0@[0] == ServiceEvent::Disconnected,
            old(self).connection is None ==> r.0@.len() == 1,
            r.0@.last() matches ServiceEvent::Connected { peer: p, name: n } && p == peer && n@
                == "???"@,
            r.1 matches WireMessage::Control(ControlMessage::Hello(h)) && h.username@ == old(
                self,
            ).username@ && opt_view(&h.password) == opt_view(&outgoing_password) && h.public_key@
                == public_key@,
    {
        let mut events: Vec<ServiceEvent> = Vec::new();
        match self.disconnect() {
            Some(e) => events.push(e),
            None => {},
        }
        self.connection = Some(peer);
        events.push(ServiceEvent::Connected { peer, name: from_text("???") });
        let hello = WireMessage::Control(
            ControlMessage::Hello(
                HelloMessage { username: self.username.clone(), password: outgoing_password, public_key },
            ),
        );
        (events, hello)
    }

    /// The password an inbound peer must present.
    pub fn inbound_password(&self) -> (r: Option<String>)
        ensures
            opt_view(&r) == opt_view(&self.listener_password),
    {
        clone_opt(&self.listener_password)
    }

    /// A connection reported closed: dropped if it is the active one.
    pub fn connection_closed(&mut self, peer: PeerAddr) -> (r: Option<ServiceEvent>)
        ensures
            old(self).connection == Some(peer) ==> final(self).connection is None && r == Some(
                ServiceEvent::Disconnected,
            ),
            old(self).connection != Some(peer) ==> final(self).connection == old(self).connection
                && r is None,
            final(self).listening == old(self).listening,
    {
        match self.connection {
            Some(p) => {
                if p == peer {
                    self.connection = None;
                    Some(ServiceEvent::Disconnected)
                } else {
                    None
                }
            },
            None => None,
        }
    }

    /// The active connection's peer, required by text and file commands.
    pub fn require_connection(&self) -> (r: Result<PeerAddr, ServiceError>)
        ensures
            match self.connection {
                Some(p) => r == Ok::<PeerAddr, ServiceError>(p),
                None => r == Err::<PeerAddr, ServiceError>(ServiceError::NoConnection),
            },
    {
        match self.connection {
            Some(p) => Ok(p),
            None => Err(ServiceError::NoConnection),
        }
    }

    /// Builds the text to send from its already trimmed body: it needs a
    /// connection, and the body must be non-empty and within the message limit.
    pub fn compose_trimmed(&self, body: String, id: u64, timestamp: i64) -> (r: Result<TextMessage, ServiceError>)
        ensures
            self.connection is None ==> r == Err::<TextMessage, ServiceError>(ServiceError::NoConnection),
            self.connection is Some && body@.len() == 0 ==> r == Err::<TextMessage, ServiceError>(
                ServiceError::EmptyMessage,
            ),
            self.connection is Some && body@.len() > 0 && vstd::utf8::encode_utf8(body@).len()
                > self.limits.max_message_bytes ==> r == Err::<TextMessage, ServiceError>(
                ServiceError::MessageTooLong,
            ),
            self.connection is Some && body@.len() > 0 && vstd::utf8::encode_utf8(body@).len()
                <= self.limits.max_message_bytes ==> (r matches Ok(m) && m.id == id && m.author@
                == self.username@ && m.body@ == body@ && m.timestamp == timestamp),
    {
        if self.connection.is_none() {
            return Err(ServiceError::NoConnection);
        }
        if body.as_str().is_empty() {
            return Err(ServiceError::EmptyMessage);
        }
        if body.as_str().as_bytes().len() > self.limits.max_message_bytes {
            return Err(ServiceError::MessageTooLong);
        }
        Ok(TextMessage { id, author: self.username.clone(), body, timestamp })
    }

    /// Builds the text to send: it needs a connection, and its trimmed body
    /// must be non-empty and within the message limit.
    pub fn compose_text(&self, text: &str, id: u64, timestamp: i64) -> (r: Result<TextMessage, ServiceError>)
        ensures
            self.connection is None ==> r == Err::<TextMessage, ServiceError>(ServiceError::NoConnection),
            self.connection is Some && trim_of(text@).len() == 0 ==> r == Err::<TextMessage, ServiceError>(
                ServiceError::EmptyMessage,
            ),
            self.connection is Some && trim_of(text@).len() > 0 && vstd::utf8::encode_utf8(
                trim_of(text@),
            ).len() > self.limits.max_message_bytes ==> r == Err::<TextMessage, ServiceError>(
                ServiceError::MessageTooLong,
            ),
            self.connection is Some && trim_of(text@).len() > 0 && vstd::utf8::encode_utf8(
                trim_of(text@),
            ).len() <= self.limits.max_message_bytes ==> (r matches Ok(m) && m.id == id && m.author@
                == self.username@ && m.body@ == trim_of(text@) && m.timestamp == timestamp),
    {
        if self.connection.is_none() {
            return Err(ServiceError::NoConnection);
        }
        self.compose_trimmed(trimmed(text), id, timestamp)
    }

    /// The event, chat-log line and history entry once a text has been sent.
    pub fn text_sent(&self, message: &TextMessage, timestamp: i64) -> (r: (ServiceEvent, String, HistoryEntry))
        ensures
            r.0 matches ServiceEvent::MessageSent { author: a, text: t } && a@ == self.username@ && t@
                == message.body@,
            r.1@ == self.username@ + " (you): "@ + message.body@,
            r.2.timestamp == timestamp && r.2.outgoing && r.2.author@ == self.username@ && r.2.text@
                == message.body@,
    {
        let event = ServiceEvent::MessageSent { author: self.username.clone(), text: message.body.clone() };
        let mut line = self.username.clone();
        line.append(" (you): ");
        line.append(message.body.as_str());
        let entry = HistoryEntry {
            timestamp,
            outgoing: true,
            author: self.username.clone(),
            text: message.body.clone(),
        };
        (event, line, entry)
    }

    pub fn set_username(&mut self, username: String)
        ensures
            final(self).username@ == username@,
            final(self).connection == old(self).connection,
            final(self).listening == old(self).listening,
    {
        self.username = username;
    }

    pub fn set_discovery_target(&mut self, target: Option<u32>)
        ensures
            final(self).discovery_override == target,
            final(self).connection == old(self).connection,
            final(self).listening == old(self).listening,
    {
        self.discovery_override = target;
    }

    /// Where probes go: the override when set, else the configured address.
    pub fn discovery_target(&self, configured: Option<u32>) -> (r: Option<u32>)
        ensures
            r == match self.discovery_override {
                Some(t) => Some(t),
                None => configured,
            },
    {
        match self.discovery_override {
            Some(t) => Some(t),
            None => configured,
        }
    }
}


/// What to do with the first frame of a stream from the peer.
pub enum StreamAction {
    /// A text to deliver: emit it, log it, record it.
    Deliver(TextMessage),
    /// A failure to report without tearing the connection down.
    Report(ServiceEvent),
    /// A file stream follows: receive it on this stream.
    ReceiveFile(FileMetadata),
    /// A control message to handle.
    Control(ControlMessage),
    /// Nothing to do with this frame.
    Ignore,
}

/// Dispatches a stream's first frame: texts are delivered, sealed texts are
/// opened with the connection's key first (a failure is reported), file
/// metadata starts a receive, control messages are handled, and a stray chunk
/// is ignored.
pub fn first_frame_action(meta: &ConnectionMeta, frame: WireMessage, peer_text: &str) -> (r: StreamAction)
    ensures
        match frame {
            WireMessage::Text(t) => r matches StreamAction::Deliver(d) && d@ == t@,
            WireMessage::Ciphertext(f) => match meta.crypto@.shared {
                Some(k) => match aead_open(k, f.nonce@, f.body@) {
                    Some(p) => match spec_decode_text(p) {
                        Some(t) => r matches StreamAction::Deliver(d) && d@ == t,
                        None => r is Report,
                    },
                    None => r is Report,
                },
                None => r is Report,
            },
            WireMessage::FileMeta(m) => r matches StreamAction::ReceiveFile(n) && n@ == m@,
            WireMessage::Control(c) => r matches StreamAction::Control(d) && d@ == c@,
            WireMessage::FileChunk(_) => r is Ignore,
        },
        r matches StreamAction::Report(e) ==> (e matches ServiceEvent::Error { message: m } && m@
            == "decryption error from "@ + peer_text@),
{
    match frame {
        WireMessage::Text(t) => StreamAction::Deliver(t),
        WireMessage::Ciphertext(f) => match decrypt_text(&meta.crypto, &f) {
            Ok(t) => StreamAction::Deliver(t),
            Err(_) => {
                let mut message = from_text("decryption error from ");
                message.append(peer_text);
                StreamAction::Report(ServiceEvent::Error { message })
            },
        },
        WireMessage::FileMeta(m) => StreamAction::ReceiveFile(m),
        WireMessage::Control(c) => StreamAction::Control(c),
        WireMessage::FileChunk(_) => StreamAction::Ignore,
    }
}

} // verus!
