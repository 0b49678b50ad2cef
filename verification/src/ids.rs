//! Identifiers and hello messages.
//!
//! A `ClientId` is the base64 text of 32 bytes: either random (anonymous
//! clients) or the SHA-256 digest of a secret key. A `SecretKey` is a
//! 22-character alphanumeric credential. The hello messages open a
//! control-channel session: the client sends a `ClientHello`, the server
//! answers with a `ServerHello`.

use vstd::prelude::*;
use crate::codec::ReconnectToken;
use base64::Engine;
use sha2::Digest;

verus! {

/// Base64 text (standard alphabet, no padding) of a byte sequence, as
/// `base64`'s `STANDARD_NO_PAD` engine produces it.
pub uninterp spec fn b64_std_nopad_of(b: Seq<u8>) -> Seq<char>;

/// Base64 text (URL-safe alphabet, no padding) of a byte sequence, as
/// `base64`'s `URL_SAFE_NO_PAD` engine produces it.
pub uninterp spec fn b64_url_nopad_of(b: Seq<u8>) -> Seq<char>;

/// Base64 text (standard alphabet, with padding) of a byte sequence, as
/// `base64`'s `STANDARD` engine produces it.
pub uninterp spec fn b64_std_of(b: Seq<u8>) -> Seq<char>;

/// The SHA-256 digest of a byte sequence.
pub uninterp spec fn sha256_of(b: Seq<u8>) -> Seq<u8>;

/// Relies on rand's `thread_rng` and `RngCore::fill_bytes`: fills the
/// whole buffer, so the result has exactly the requested length.
/// Nothing is promised of the bytes themselves.
#[verifier::external_body]
pub(crate) fn random_bytes(n: usize) -> (r: Vec<u8>)
    ensures
        r@.len() == n,
{
    let mut buf = vec![0u8; n];
    rand::RngCore::fill_bytes(&mut rand::thread_rng(), &mut buf);
    buf
}

/// Relies on rand's `Rng::gen_range`: the sample lies in the given
/// half-open range, which must not be empty. Nothing is promised of
/// which value comes back.
#[verifier::external_body]
pub(crate) fn random_below(bound: usize) -> (r: usize)
    requires
        bound > 0,
    ensures
        r < bound,
{
    rand::Rng::gen_range(&mut rand::thread_rng(), 0..bound)
}

/// Relies on `sha2::Sha256::digest`: the digest is 32 bytes and a
/// function of the input bytes alone.
#[verifier::external_body]
fn sha256(b: &[u8]) -> (r: Vec<u8>)
    ensures
        r@ == sha256_of(b@),
        r@.len() == 32,
{
    sha2::Sha256::digest(b).to_vec()
}

/// Relies on base64's `STANDARD_NO_PAD` engine: the text is a function
/// of the input bytes alone; an unpadded encoding of `n` bytes has
/// `(4 * n + 2) / 3` characters.
#[verifier::external_body]
fn b64_std_nopad(b: &[u8]) -> (r: String)
    ensures
        r@ == b64_std_nopad_of(b@),
        r@.len() == (4 * b@.len() + 2) / 3,
{
    base64::engine::general_purpose::STANDARD_NO_PAD.encode(b)
}

/// True of the characters the URL-safe base64 alphabet holds:
/// letters, digits, hyphen and underscore.
pub open spec fn is_b64url_char(c: char) -> bool {
    ('A' <= c && c <= 'Z') || ('a' <= c && c <= 'z') || ('0' <= c && c <= '9') || c == '-' || c
        == '_'
}

/// Relies on base64's `URL_SAFE_NO_PAD` engine: the text is a function
/// of the input bytes alone; an unpadded encoding of `n` bytes has
/// `(4 * n + 2) / 3` characters, each from the URL-safe alphabet
/// `A-Z a-z 0-9 - _`.
#[verifier::external_body]
fn b64_url_nopad(b: &[u8]) -> (r: String)
    ensures
        r@ == b64_url_nopad_of(b@),
        r@.len() == (4 * b@.len() + 2) / 3,
        forall|i: int| 0 <= i < r@.len() ==> is_b64url_char(#[trigger] r@[i]),
{
    base64::engine::general_purpose::URL_SAFE_NO_PAD.encode(b)
}

/// Relies on base64's `STANDARD` engine: the text is a function of the
/// input bytes alone; a padded encoding of `n` bytes has
/// `4 * ((n + 2) / 3)` characters.
#[verifier::external_body]
fn b64_std(b: &[u8]) -> (r: String)
    ensures
        r@ == b64_std_of(b@),
        r@.len() == 4 * ((b@.len() + 2) / 3),
{
    base64::engine::general_purpose::STANDARD.encode(b)
}

/// Relies on `String::from_utf8`: bytes below 128 are valid UTF-8 and
/// decode one byte to the character with the same code.
#[verifier::external_body]
pub(crate) fn ascii_to_string(v: Vec<u8>) -> (r: String)
    requires
        forall|i: int| 0 <= i < v@.len() ==> v@[i] < 128,
    ensures
        r@.len() == v@.len(),
        forall|i: int| 0 <= i < v@.len() ==> r@[i] == v@[i] as char,
{
    String::from_utf8(v).unwrap_or_default()
}

/// Opaque identifier of one tunnel client: 32 bytes, base64-encoded.
#[derive(Debug)]
pub struct ClientId(pub String);

impl View for ClientId {
    type V = Seq<char>;

    open spec fn view(&self) -> Seq<char> {
        self.0@
    }
}

impl Clone for ClientId {
    fn clone(&self) -> (r: Self)
        ensures
            r@ == self@,
    {
        ClientId(self.0.clone())
    }
}

impl PartialEq for ClientId {
    fn eq(&self, other: &Self) -> (r: bool)
        ensures
            r == (self@ == other@),
    {
        self.0 == other.0
    }
}

impl vstd::std_specs::cmp::PartialEqSpecImpl for ClientId {
    open spec fn obeys_eq_spec() -> bool {
        true
    }

    open spec fn eq_spec(&self, other: &Self) -> bool {
        self@ == other@
    }
}

impl ClientId {
    /// A client id from its text, as when a caller already holds one.
    pub fn from_name(s: &str) -> (r: Self)
        ensures
            r@ == s@,
    {
        ClientId(s.to_owned())
    }

    /// A fresh random id: the URL-safe base64 of 32 random bytes — a
    /// 43-character string over the URL-safe alphabet, always the
    /// encoding of some 32 bytes.
    pub fn generate() -> (r: Self)
        ensures
            r@.len() == 43,
            forall|i: int| 0 <= i < r@.len() ==> is_b64url_char(#[trigger] r@[i]),
            exists|b: Seq<u8>| b.len() == 32 && r@ == b64_url_nopad_of(b),
    {
        let bytes = random_bytes(32);
        let r = ClientId(b64_url_nopad(bytes.as_slice()));
        proof {
            assert(bytes@.len() == 32 && r@ == b64_url_nopad_of(bytes@));
        }
        r
    }

    /// A stable pseudonym for the id, safe to show: the padded base64
    /// of the SHA-256 digest of the id's text (44 characters).
    pub fn safe_id(self) -> (r: Self)
        ensures
            r@ == b64_std_of(sha256_of(vstd::utf8::encode_utf8(self@))),
            r@.len() == 44,
    {
        let digest = sha256(self.0.as_str().as_bytes());
        ClientId(b64_std(digest.as_slice()))
    }
}

/// A 22-character alphanumeric credential held by an authenticated
/// client; its SHA-256 digest names the client.
#[derive(Debug)]
pub struct SecretKey(pub String);

impl View for SecretKey {
    type V = Seq<char>;

    open spec fn view(&self) -> Seq<char> {
        self.0@
    }
}

impl Clone for SecretKey {
    fn clone(&self) -> (r: Self)
        ensures
            r@ == self@,
    {
        SecretKey(self.0.clone())
    }
}

/// True of the characters a generated key is drawn from.
pub open spec fn is_alnum_char(c: char) -> bool {
    ('a' <= c && c <= 'z') || ('A' <= c && c <= 'Z') || ('0' <= c && c <= '9')
}

/// The byte of the alphanumeric alphabet at index `i`: first the 26
/// lower-case letters, then the 26 upper-case, then the 10 digits.
pub open spec fn spec_alnum_byte(i: int) -> u8
    recommends
        0 <= i < 62,
{
    if i < 26 {
        (97 + i) as u8
    } else if i < 52 {
        (65 + (i - 26)) as u8
    } else {
        (48 + (i - 52)) as u8
    }
}

fn alnum_byte(i: usize) -> (r: u8)
    requires
        i < 62,
    ensures
        r == spec_alnum_byte(i as int),
        r < 128,
        is_alnum_char(r as char),
{
    if i < 26 {
        97 + (i as u8)
    } else if i < 52 {
        65 + ((i - 26) as u8)
    } else {
        48 + ((i - 52) as u8)
    }
}

impl SecretKey {
    /// A fresh key: 22 characters drawn from the alphanumeric alphabet.
    pub fn generate() -> (r: Self)
        ensures
            r@.len() == 22,
            forall|i: int| 0 <= i < r@.len() ==> is_alnum_char(#[trigger] r@[i]),
    {
        let mut buf: Vec<u8> = Vec::new();
        let mut k: usize = 0;
        while k < 22
            invariant
                k <= 22,
                buf@.len() == k,
                forall|i: int| 0 <= i < buf@.len() ==> buf@[i] < 128,
                forall|i: int|
                    0 <= i < buf@.len() ==> is_alnum_char(#[trigger] buf@[i] as char),
            decreases 22 - k,
        {
            let idx = random_below(62);
            buf.push(alnum_byte(idx));
            k = k + 1;
        }
        let s = ascii_to_string(buf);
        SecretKey(s)
    }

    /// The client id this key authenticates as: the unpadded standard
    /// base64 of the key's SHA-256 digest (43 characters).
    pub fn client_id(&self) -> (r: ClientId)
        ensures
            r@ == b64_std_nopad_of(sha256_of(vstd::utf8::encode_utf8(self@))),
            r@.len() == 43,
    {
        let digest = sha256(self.0.as_str().as_bytes());
        ClientId(b64_std_nopad(digest.as_slice()))
    }
}

impl crate::codec::StreamId {
    /// A fresh random stream id: the value of eight random bytes.
    pub fn generate() -> Self {
        let bytes = random_bytes(8);
        let mut x: u64 = 0;
        let mut i: usize = 0;
        while i < 8
            invariant
                i <= 8,
                bytes@.len() == 8,
            decreases 8 - i,
        {
            x = (x << 8) | (bytes[i] as u64);
            i = i + 1;
        }
        crate::codec::StreamId(x)
    }
}

/// How a connecting client authenticates.
#[derive(Debug, Clone)]
pub enum ClientType {
    Auth { key: SecretKey },
    Anonymous,
}

/// First message of a session, client to server.
#[derive(Debug, Clone)]
pub struct ClientHello {
    /// A random id; the server ignores it and assigns its own.
    pub id: ClientId,
    pub sub_domain: Option<String>,
    pub client_type: ClientType,
    pub reconnect_token: Option<ReconnectToken>,
}

impl ClientHello {
    /// A fresh hello, anonymous or key-bearing, with no reconnect token.
    pub fn generate(sub_domain: Option<String>, typ: ClientType) -> (r: Self)
        ensures
            r.sub_domain == sub_domain,
            r.client_type == typ,
            r.reconnect_token is None,
    {
        ClientHello { id: ClientId::generate(), client_type: typ, sub_domain, reconnect_token: None }
    }

    /// A hello that re-binds to a prior session by bearer token.
    pub fn reconnect(reconnect_token: ReconnectToken) -> (r: Self)
        ensures
            r.sub_domain is None,
            r.client_type is Anonymous,
            r.reconnect_token == Some(reconnect_token),
    {
        ClientHello {
            id: ClientId::generate(),
            sub_domain: None,
            client_type: ClientType::Anonymous,
            reconnect_token: Some(reconnect_token),
        }
    }
}

/// Server's answer to a `ClientHello`.
#[derive(Debug, Clone)]
pub enum ServerHello {
    Success { sub_domain: String, hostname: String, client_id: ClientId },
    SubDomainInUse,
    InvalidSubDomain,
    AuthFailed,
    Error(String),
}

impl ServerHello {
    /// A fresh tunnel name: eight random lower-case letters.
    pub fn random_domain() -> (r: String)
        ensures
            r@.len() == 8,
            forall|i: int| 0 <= i < r@.len() ==> 'a' <= #[trigger] r@[i] && r@[i] <= 'z',
    {
        let mut buf: Vec<u8> = Vec::new();
        let mut k: usize = 0;
        while k < 8
            invariant
                k <= 8,
                buf@.len() == k,
                forall|i: int| 0 <= i < buf@.len() ==> 97 <= #[trigger] buf@[i] <= 122,
            decreases 8 - k,
        {
            let idx = random_below(26);
            buf.push(97 + (idx as u8));
            k = k + 1;
        }
        ascii_to_string(buf)
    }

    /// The caller-chosen tunnel name, passed through unchanged.
    pub fn prefixed_random_domain(prefix: &str) -> (r: String)
        ensures
            r@ == prefix@,
    {
        prefix.to_owned()
    }
}

} // verus!
