//! Per-connection key agreement (X25519) and text sealing (ChaCha20-Poly1305).
use crate::protocol::{enc_text, get_text, parse_text, put_text, CipherFrame, TextMessage, TextModel, WireMessage};
use chacha20poly1305::aead::generic_array::GenericArray;
use chacha20poly1305::aead::{Aead, KeyInit};
use rand_core::RngCore;
use vstd::prelude::*;

verus! {

broadcast use vstd::array::array_len_matches_n;

/// The X25519 function on a scalar and a u-coordinate, as raw bytes.
pub uninterp spec fn x25519_of(scalar: Seq<u8>, point: Seq<u8>) -> Seq<u8>;

/// ChaCha20-Poly1305 encryption of a plaintext: ciphertext with the tag appended.
pub uninterp spec fn aead_seal(key: Seq<u8>, nonce: Seq<u8>, plaintext: Seq<u8>) -> Seq<u8>;

/// ChaCha20-Poly1305 decryption: the plaintext, or nothing when the tag fails.
pub uninterp spec fn aead_open(key: Seq<u8>, nonce: Seq<u8>, ciphertext: Seq<u8>) -> Option<Seq<u8>>;

/// Relies on `x25519_dalek::x25519`: the 32-byte output depends on the inputs alone.
#[verifier::external_body]
fn x25519(scalar: [u8; 32], point: [u8; 32]) -> (r: [u8; 32])
    ensures
        r@ == x25519_of(scalar@, point@),
{
    x25519_dalek::x25519(scalar, point)
}

/// Relies on `rand_core::OsRng::try_fill_bytes`: fills the array from the
/// operating system's generator, or reports that it could not.
#[verifier::external_body]
pub(crate) fn os_random_bytes<const N: usize>() -> (r: Option<[u8; N]>) {
    let mut buf = [0u8; N];
    match rand_core::OsRng.try_fill_bytes(&mut buf) {
        Ok(()) => Some(buf),
        Err(_) => None,
    }
}

/// Relies on `ChaCha20Poly1305::encrypt` (aead 0.5): the sealed bytes under
/// this key and nonce, the 16-byte tag appended to the ciphertext; it fails
/// only when the plaintext spans `u32::MAX` or more 64-byte blocks.
#[verifier::external_body]
pub(crate) fn chacha_seal(key: &[u8; 32], nonce: &[u8; 12], plaintext: &[u8]) -> (r: Option<Vec<u8>>)
    ensures
        plaintext@.len() / 64 < u32::MAX ==> r is Some,
        r matches Some(c) ==> c@ == aead_seal(key@, nonce@, plaintext@) && c@.len() == plaintext@.len()
            + 16,
{
    let cipher = chacha20poly1305::ChaCha20Poly1305::new(GenericArray::from_slice(key));
    cipher.encrypt(GenericArray::from_slice(nonce), plaintext).ok()
}

/// Relies on `ChaCha20Poly1305::decrypt` (aead 0.5): the plaintext when the
/// tag verifies under this key and nonce, an error otherwise.
#[verifier::external_body]
pub(crate) fn chacha_open(key: &[u8; 32], nonce: &[u8; 12], ciphertext: &[u8]) -> (r: Option<Vec<u8>>)
    ensures
        r is Some <==> aead_open(key@, nonce@, ciphertext@) is Some,
        r matches Some(p) ==> aead_open(key@, nonce@, ciphertext@) == Some(p@),
{
    let cipher = chacha20poly1305::ChaCha20Poly1305::new(GenericArray::from_slice(key));
    cipher.decrypt(GenericArray::from_slice(nonce), ciphertext).ok()
}

/// Why a cryptographic step failed.
#[derive(Debug, Clone, Copy, PartialEq, Eq, Structural)]
pub enum CryptoError {
    /// No shared key yet: the Hello exchange has not completed.
    NoKey,
    /// The remote public key is not 32 bytes long.
    BadKeyLength,
    /// Encryption failed, or the tag did not verify on decryption.
    AeadFailure,
    /// The decrypted bytes are not a text message.
    Malformed,
    /// The system's random generator failed.
    RandomFailure,
}

/// The X25519 base point (u = 9).
pub open spec fn base_point() -> Seq<u8> {
    Seq::new(32, |i: int| if i == 0 { 9u8 } else { 0u8 })
}

fn base_point_bytes() -> (r: [u8; 32])
    ensures
        r@ == base_point(),
{
    let mut b = [0u8; 32];
    b[0] = 9u8;
    assert(b@ =~= base_point());
    b
}

pub struct CryptoModel {
    pub secret: Seq<u8>,
    pub public: Seq<u8>,
    pub shared: Option<Seq<u8>>,
}

/// Key material of one connection: a fresh secret, its public key, and the
/// shared key once the peer's public key is known.
pub struct CryptoCtx {
    secret: [u8; 32],
    public: [u8; 32],
    shared: Option<[u8; 32]>,
}

impl View for CryptoCtx {
    type V = CryptoModel;

    closed spec fn view(&self) -> CryptoModel {
        CryptoModel {
            secret: self.secret@,
            public: self.public@,
            shared: match self.shared {
                Some(k) => Some(k@),
                None => None,
            },
        }
    }
}

/// The shared-key state after offering `remote` to a context in state `m`:
/// the first well-sized key derives it, everything after leaves it.
pub open spec fn spec_accept(m: CryptoModel, remote: Seq<u8>) -> CryptoModel {
    if m.shared is None && remote.len() == 32 {
        CryptoModel { shared: Some(x25519_of(m.secret, remote)), ..m }
    } else {
        m
    }
}

impl CryptoCtx {
    /// A context for the given secret; its public key is the secret times the base point.
    pub fn from_secret(secret: [u8; 32]) -> (r: CryptoCtx)
        ensures
            r@.secret == secret@,
            r@.public == x25519_of(secret@, base_point()),
            r@.shared is None,
            r.wf(),
    {
        let public = x25519(secret, base_point_bytes());
        CryptoCtx { secret, public, shared: None }
    }

    /// A context with a fresh random secret; `None` when the system's
    /// generator fails.
    pub fn new() -> (r: Option<CryptoCtx>)
        ensures
            r matches Some(c) ==> c@.public == x25519_of(c@.secret, base_point()) && c@.shared is None
                && c.wf(),
    {
        match os_random_bytes::<32>() {
            Some(secret) => Some(CryptoCtx::from_secret(secret)),
            None => None,
        }
    }

    /// Sizes of the key material.
    pub closed spec fn wf(&self) -> bool {
        &&& self@.secret.len() == 32
        &&& self@.public.len() == 32
        &&& self@.shared matches Some(k) ==> k.len() == 32
    }

    pub fn public_key(&self) -> (r: [u8; 32])
        ensures
            r@ == self@.public,
    {
        self.public
    }

    pub fn shared_key(&self) -> (r: Option<[u8; 32]>)
        ensures
            r is Some <==> self@.shared is Some,
            r matches Some(k) ==> self@.shared == Some(k@),
    {
        self.shared
    }

    /// Derives the shared key from the peer's public key on the first call;
    /// returns whether this call derived it. Once set, the key never changes.
    pub fn accept_remote(&mut self, remote: &[u8]) -> (r: Result<bool, CryptoError>)
        ensures
            final(self)@ == spec_accept(old(self)@, remote@),
            old(self).wf() ==> final(self).wf(),
            old(self)@.shared is Some ==> r == Ok::<bool, CryptoError>(false),
            old(self)@.shared is None && remote@.len() != 32 ==> r == Err::<bool, CryptoError>(
                CryptoError::BadKeyLength,
            ),
            old(self)@.shared is None && remote@.len() == 32 ==> r == Ok::<bool, CryptoError>(true),
    {
        if self.shared.is_some() {
            return Ok(false);
        }
        if remote.len() != 32 {
            return Err(CryptoError::BadKeyLength);
        }
        let mut buf = [0u8; 32];
        let mut i: usize = 0;
        while i < 32
            invariant
                remote@.len() == 32,
                i <= 32,
                forall|j: int| 0 <= j < i ==> buf@[j] == remote@[j],
            decreases 32 - i,
        {
            buf[i] = remote[i];
            i = i + 1;
        }
        assert(buf@ =~= remote@);
        let key = x25519(self.secret, buf);
        self.shared = Some(key);
        assert(self@ == spec_accept(old(self)@, remote@));
        Ok(true)
    }
}

/// The shared key is set at most once: offering any second key after the
/// first derivation leaves the state as the first one made it.
pub proof fn lemma_accept_first_wins(m: CryptoModel, first: Seq<u8>, second: Seq<u8>)
    requires
        first.len() == 32,
    ensures
        spec_accept(spec_accept(m, first), second) == spec_accept(m, first),
        spec_accept(m, first).shared is Some,
{
}

/// Seals a text under `key` with the given nonce: the frame carries the nonce
/// and the AEAD output over the text's payload encoding.
pub fn seal_text(key: &[u8; 32], nonce: [u8; 12], message: &TextMessage) -> (r: Result<
    WireMessage,
    CryptoError,
>)
    ensures
        enc_text(message@).len() / 64 < u32::MAX ==> r is Ok,
        r is Err ==> r == Err::<WireMessage, CryptoError>(CryptoError::AeadFailure),
        r matches Ok(w) ==> (w matches WireMessage::Ciphertext(f) && f.nonce@ == nonce@
            && f.body@ == aead_seal(key@, nonce@, enc_text(message@))),
{
    let mut plaintext: Vec<u8> = Vec::new();
    put_text(&mut plaintext, message);
    assert(plaintext@ =~= enc_text(message@));
    match chacha_seal(key, &nonce, plaintext.as_slice()) {
        Some(body) => Ok(WireMessage::Ciphertext(CipherFrame { nonce, body })),
        None => Err(CryptoError::AeadFailure),
    }
}

/// The text whose payload encoding is exactly `b`.
pub open spec fn spec_decode_text(b: Seq<u8>) -> Option<TextModel> {
    match parse_text(b) {
        Some((t, rest)) => if rest.len() == 0 {
            Some(t)
        } else {
            None
        },
        None => None,
    }
}

/// Opens a sealed text under `key`.
pub fn open_text(key: &[u8; 32], frame: &CipherFrame) -> (r: Result<TextMessage, CryptoError>)
    ensures
        aead_open(key@, frame.nonce@, frame.body@) is None ==> r == Err::<TextMessage, CryptoError>(
            CryptoError::AeadFailure,
        ),
        aead_open(key@, frame.nonce@, frame.body@) matches Some(p) ==> match spec_decode_text(p) {
            Some(t) => r matches Ok(m) && m@ == t,
            None => r == Err::<TextMessage, CryptoError>(CryptoError::Malformed),
        },
{
    let plaintext = match chacha_open(key, &frame.nonce, frame.body.as_slice()) {
        Some(p) => p,
        None => return Err(CryptoError::AeadFailure),
    };
    match decode_text(plaintext.as_slice()) {
        Some(t) => Ok(t),
        None => Err(CryptoError::Malformed),
    }
}

/// Reads a text from exactly its payload encoding.
pub fn decode_text(b: &[u8]) -> (r: Option<TextMessage>)
    ensures
        match spec_decode_text(b@) {
            Some(t) => r matches Some(m) && m@ == t,
            None => r is None,
        },
{
    assert(b@.skip(0) =~= b@);
    match get_text(b, 0) {
        Some((t, p)) => {
            if p == b.len() {
                Some(t)
            } else {
                None
            }
        },
        None => None,
    }
}

/// Encrypts a text for the connection's peer under a fresh random nonce.
pub fn encrypt_text(ctx: &CryptoCtx, message: &TextMessage) -> (r: Result<WireMessage, CryptoError>)
    ensures
        ctx@.shared is None <==> r == Err::<WireMessage, CryptoError>(CryptoError::NoKey),
        ctx@.shared is Some && enc_text(message@).len() / 64 < u32::MAX ==> (r is Ok || r == Err::<
            WireMessage,
            CryptoError,
        >(CryptoError::RandomFailure)),
        r matches Ok(w) ==> (w matches WireMessage::Ciphertext(f) && ctx@.shared matches Some(k)
            && f.body@ == aead_seal(k, f.nonce@, enc_text(message@))),
{
    let key = match ctx.shared_key() {
        Some(k) => k,
        None => return Err(CryptoError::NoKey),
    };
    let nonce = match os_random_bytes::<12>() {
        Some(n) => n,
        None => return Err(CryptoError::RandomFailure),
    };
    seal_text(&key, nonce, message)
}

/// Decrypts a text sealed by the connection's peer.
pub fn decrypt_text(ctx: &CryptoCtx, frame: &CipherFrame) -> (r: Result<TextMessage, CryptoError>)
    ensures
        ctx@.shared is None ==> r == Err::<TextMessage, CryptoError>(CryptoError::NoKey),
        ctx@.shared matches Some(k) ==> {
            &&& aead_open(k, frame.nonce@, frame.body@) is None ==> r == Err::<
                TextMessage,
                CryptoError,
            >(CryptoError::AeadFailure)
            &&& aead_open(k, frame.nonce@, frame.body@) matches Some(p) ==> match spec_decode_text(p) {
                Some(t) => r matches Ok(m) && m@ == t,
                None => r == Err::<TextMessage, CryptoError>(CryptoError::Malformed),
            }
        },
{
    match ctx.shared_key() {
        Some(key) => open_text(&key, frame),
        None => Err(CryptoError::NoKey),
    }
}


/// A Hello exchange between two fresh contexts: each derives its key from its
/// own secret and the other's public key, and keeps it from then on.
pub proof fn lemma_handshake(a: CryptoModel, b: CryptoModel)
    requires
        a.shared is None,
        b.shared is None,
        a.public.len() == 32,
        b.public.len() == 32,
    ensures
        spec_accept(a, b.public).shared == Some(x25519_of(a.secret, b.public)),
        spec_accept(b, a.public).shared == Some(x25519_of(b.secret, a.public)),
        spec_accept(spec_accept(a, b.public), b.public) == spec_accept(a, b.public),
        spec_accept(spec_accept(b, a.public), a.public) == spec_accept(b, a.public),
{
}

} // verus!
