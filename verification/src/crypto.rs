//! The master key and authenticated encryption of stored secrets.
use base64::Engine;
use chacha20poly1305::aead::{Aead, AeadCore, KeyInit};
use rand_core::RngCore;
use vstd::prelude::*;
use vstd::utf8::{decode_utf8, encode_utf8, valid_utf8};

use crate::text::{is_ws, trim_seq};

verus! {

/// Length of the master key in bytes.
pub const MASTER_KEY_BYTES: usize = 32;

/// Length of an XChaCha20-Poly1305 nonce in bytes.
pub const NONCE_BYTES: usize = 24;

/// Length of the Poly1305 authentication tag in bytes.
pub const TAG_BYTES: usize = 16;

// ---------------------------------------------------------------- outside calls

// XChaCha20-Poly1305 encryption of `plaintext` under `key` and `nonce`
// (ciphertext with the tag appended); `None` when the library reports an error.
pub uninterp spec fn xchacha_seal(key: Seq<u8>, nonce: Seq<u8>, plaintext: Seq<u8>) -> Option<Seq<u8>>;

// XChaCha20-Poly1305 decryption of `ciphertext` under `key` and `nonce`;
// `None` when authentication fails.
pub uninterp spec fn xchacha_open(key: Seq<u8>, nonce: Seq<u8>, ciphertext: Seq<u8>) -> Option<Seq<u8>>;

/// The character of the URL-safe base64 alphabet for the 6-bit value `v`:
/// `A`-`Z`, `a`-`z`, `0`-`9`, then `-` and `_`.
pub open spec fn base64_url_char(v: int) -> char {
    if v < 26 {
        (65 + v) as char
    } else if v < 52 {
        (97 + v - 26) as char
    } else if v < 62 {
        (48 + v - 52) as char
    } else if v == 62 {
        '-'
    } else {
        '_'
    }
}

/// URL-safe base64 encoding without padding (RFC 4648): every three bytes
/// give four characters of six bits each, high bits first; a last group of
/// one or two bytes gives two or three characters.
pub open spec fn base64_url(bytes: Seq<u8>) -> Seq<char>
    decreases bytes.len(),
{
    if bytes.len() == 0 {
        Seq::empty()
    } else {
        let b0 = bytes[0] as int;
        let b1 = if bytes.len() > 1 { bytes[1] as int } else { 0 };
        let b2 = if bytes.len() > 2 { bytes[2] as int } else { 0 };
        let group = seq![
            base64_url_char(b0 / 4),
            base64_url_char((b0 % 4) * 16 + b1 / 16),
            base64_url_char((b1 % 16) * 4 + b2 / 64),
            base64_url_char(b2 % 64),
        ];
        if bytes.len() == 1 {
            group.take(2)
        } else if bytes.len() == 2 {
            group.take(3)
        } else {
            group + base64_url(bytes.skip(3))
        }
    }
}

// URL-safe base64 decoding without padding; `None` for malformed text.
pub uninterp spec fn base64_url_decoded(text: Seq<char>) -> Option<Seq<u8>>;

/// A character of the URL-safe base64 alphabet.
pub open spec fn is_base64_url_char(c: char) -> bool {
    ('A' <= c && c <= 'Z') || ('a' <= c && c <= 'z') || ('0' <= c && c <= '9') || c == '-' || c
        == '_'
}

/// `len` bytes from the operating system's random source
/// (`OsRng::fill_bytes`). Nothing is known of the bytes but their number.
#[verifier::external_body]
pub(crate) fn random_bytes(len: usize) -> (r: Vec<u8>)
    ensures
        r@.len() == len,
{
    let mut bytes = vec![0u8; len];
    chacha20poly1305::aead::OsRng.fill_bytes(&mut bytes);
    bytes
}

/// A fresh random nonce (`XChaCha20Poly1305::generate_nonce` with `OsRng`):
/// 24 bytes, of unknown value.
#[verifier::external_body]
fn random_nonce() -> (r: Vec<u8>)
    ensures
        r@.len() == NONCE_BYTES,
{
    chacha20poly1305::XChaCha20Poly1305::generate_nonce(&mut chacha20poly1305::aead::OsRng).to_vec()
}

/// The encoding has four characters for every three bytes, the last group
/// cut to what its bytes need.
pub proof fn lemma_base64_url_len(bytes: Seq<u8>)
    ensures
        base64_url(bytes).len() == (4 * bytes.len() + 2) / 3,
    decreases bytes.len(),
{
    if bytes.len() >= 3 {
        lemma_base64_url_len(bytes.skip(3));
    }
}

/// The six-bit values of one encoded group give back its bytes.
proof fn lemma_base64_group(a0: int, a1: int, a2: int, b0: int, b1: int, b2: int)
    requires
        0 <= a0 < 256, 0 <= a1 < 256, 0 <= a2 < 256,
        0 <= b0 < 256, 0 <= b1 < 256, 0 <= b2 < 256,
        a0 / 4 == b0 / 4,
        (a0 % 4) * 16 + a1 / 16 == (b0 % 4) * 16 + b1 / 16,
    ensures
        a0 == b0,
        a1 / 16 == b1 / 16,
        (a1 % 16) * 4 + a2 / 64 == (b1 % 16) * 4 + b2 / 64 ==> a1 == b1 && a2 / 64 == b2 / 64,
        a2 / 64 == b2 / 64 && a2 % 64 == b2 % 64 ==> a2 == b2,
{
}

/// Different byte strings have different encodings: the encoding can be
/// decoded.
pub proof fn base64_url_is_injective(a: Seq<u8>, b: Seq<u8>)
    requires
        base64_url(a) == base64_url(b),
    ensures
        a == b,
    decreases a.len(),
{
    lemma_base64_url_len(a);
    lemma_base64_url_len(b);
    assert(a.len() == b.len()) by {
        if a.len() < b.len() {
            assert(4 * a.len() + 2 + 3 <= 4 * b.len() + 2);
        } else if a.len() > b.len() {
            assert(4 * b.len() + 2 + 3 <= 4 * a.len() + 2);
        }
    }
    if a.len() > 0 {
        let ea = base64_url(a);
        let eb = base64_url(b);
        let n = a.len();
        let a0 = a[0] as int;
        let b0 = b[0] as int;
        let a1 = if n > 1 { a[1] as int } else { 0 };
        let b1 = if n > 1 { b[1] as int } else { 0 };
        let a2 = if n > 2 { a[2] as int } else { 0 };
        let b2 = if n > 2 { b[2] as int } else { 0 };
        assert(ea[0] == eb[0]);
        assert(ea[1] == eb[1]);
        assert(a0 / 4 == b0 / 4);
        assert((a0 % 4) * 16 + a1 / 16 == (b0 % 4) * 16 + b1 / 16);
        if n >= 2 {
            assert(ea[2] == eb[2]);
            assert((a1 % 16) * 4 + a2 / 64 == (b1 % 16) * 4 + b2 / 64);
        }
        if n >= 3 {
            assert(ea[3] == eb[3]);
            assert(a2 % 64 == b2 % 64);
        }
        lemma_base64_group(a0, a1, a2, b0, b1, b2);
        if n >= 3 {
            assert(base64_url(a.skip(3)) =~= ea.skip(4));
            assert(base64_url(b.skip(3)) =~= eb.skip(4));
            base64_url_is_injective(a.skip(3), b.skip(3));
            assert forall|i: int| 0 <= i < n implies a[i] == b[i] by {
                if i >= 3 {
                    assert(a.skip(3)[i - 3] == b.skip(3)[i - 3]);
                }
            }
        }
        assert(a =~= b);
    }
}

/// Whether a message of `len` bytes is within what one XChaCha20-Poly1305
/// encryption takes: fewer than `u32::MAX` whole 64-byte blocks.
pub open spec fn within_cipher_limit(len: nat) -> bool {
    len / 64 < 0xFFFF_FFFF
}

/// `XChaCha20Poly1305::encrypt`: the result is named `xchacha_seal`; the
/// ciphertext is the plaintext's length plus the 16-byte tag, and decrypting
/// it with the same key and nonce gives the plaintext back (AEAD
/// correctness). The cipher refuses a message only when it holds
/// `u32::MAX` or more whole 64-byte blocks (`buffer.len() / BLOCK_SIZE >=
/// MAX_BLOCKS`); for the rest it succeeds.
#[verifier::external_body]
fn aead_seal(key: &[u8], nonce: &[u8], plaintext: &[u8]) -> (r: Option<Vec<u8>>)
    requires
        key@.len() == MASTER_KEY_BYTES,
        nonce@.len() == NONCE_BYTES,
    ensures
        r is Some == xchacha_seal(key@, nonce@, plaintext@) is Some,
        r is Some <==> within_cipher_limit(plaintext@.len()),
        r matches Some(c) ==> c@ == xchacha_seal(key@, nonce@, plaintext@)->0
            && c@.len() == plaintext@.len() + TAG_BYTES
            && xchacha_open(key@, nonce@, c@) == Some(plaintext@),
{
    let cipher = chacha20poly1305::XChaCha20Poly1305::new(chacha20poly1305::Key::from_slice(key));
    cipher.encrypt(chacha20poly1305::XNonce::from_slice(nonce), plaintext).ok()
}

/// `XChaCha20Poly1305::decrypt`: the result is named `xchacha_open`.
#[verifier::external_body]
fn aead_open(key: &[u8], nonce: &[u8], ciphertext: &[u8]) -> (r: Option<Vec<u8>>)
    requires
        key@.len() == MASTER_KEY_BYTES,
        nonce@.len() == NONCE_BYTES,
    ensures
        r is Some == xchacha_open(key@, nonce@, ciphertext@) is Some,
        r matches Some(p) ==> p@ == xchacha_open(key@, nonce@, ciphertext@)->0,
{
    let cipher = chacha20poly1305::XChaCha20Poly1305::new(chacha20poly1305::Key::from_slice(key));
    cipher.decrypt(chacha20poly1305::XNonce::from_slice(nonce), ciphertext).ok()
}

/// `URL_SAFE_NO_PAD.encode`: the encoding `base64_url` states; its
/// characters are from the URL-safe alphabet, four for every three bytes
/// with the last group cut to what its bytes need (no padding), and
/// decoding the text gives the bytes back.
#[verifier::external_body]
pub(crate) fn base64_url_encode(bytes: &[u8]) -> (r: String)
    ensures
        r@ == base64_url(bytes@),
        r@.len() == (4 * bytes@.len() + 2) / 3,
        forall|i: int| 0 <= i < r@.len() ==> is_base64_url_char(#[trigger] r@[i]),
        bytes@.len() > 0 ==> r@.len() > 0,
        base64_url_decoded(r@) == Some(bytes@),
{
    base64::engine::general_purpose::URL_SAFE_NO_PAD.encode(bytes)
}

/// `URL_SAFE_NO_PAD.decode`: named `base64_url_decoded`.
#[verifier::external_body]
fn base64_url_decode(text: &str) -> (r: Option<Vec<u8>>)
    ensures
        r is Some == base64_url_decoded(text@) is Some,
        r matches Some(b) ==> b@ == base64_url_decoded(text@)->0,
{
    base64::engine::general_purpose::URL_SAFE_NO_PAD.decode(text).ok()
}

/// `String::from_utf8`: the text of `bytes` when they are valid UTF-8.
#[verifier::external_body]
fn string_from_utf8(bytes: Vec<u8>) -> (r: Option<String>)
    ensures
        r is Some == valid_utf8(bytes@),
        r matches Some(s) ==> s@ == decode_utf8(bytes@),
{
    String::from_utf8(bytes).ok()
}

// ---------------------------------------------------------------- the key

/// The root secret that encrypts upstream secrets and payload archives.
#[derive(Debug)]
pub struct MasterKey {
    bytes: Vec<u8>,
}

impl Clone for MasterKey {
    fn clone(&self) -> (r: Self)
        ensures
            r@ == self@,
    {
        proof {
            use_type_invariant(self);
        }
        MasterKey { bytes: vstd::slice::slice_to_vec(self.bytes.as_slice()) }
    }
}

/// A value encrypted under the master key, with its nonce.
#[derive(Debug, Clone, PartialEq, Eq)]
pub struct EncryptedValue {
    pub ciphertext: Vec<u8>,
    pub nonce: Vec<u8>,
}

/// Why a key could not be loaded or a value could not be encrypted or
/// decrypted.
#[derive(Debug)]
#[allow(inconsistent_fields)]
pub enum CryptoError {
    Read { path: String, source: std::io::Error },
    Write { path: String, source: std::io::Error },
    InvalidKeyLength,
    InvalidKeyEncoding,
    Encrypt,
    Decrypt,
}

impl View for MasterKey {
    type V = Seq<u8>;

    closed spec fn view(&self) -> Seq<u8> {
        self.bytes@
    }
}

/// The text of a key file holding `key`: its URL-safe base64 encoding and a
/// newline.
pub open spec fn key_file_text(key: Seq<u8>) -> Seq<char> {
    base64_url(key).push('\n')
}

/// What a key file with contents `text` holds: the key, or why it is not one.
pub open spec fn key_from_file_text(text: Seq<char>) -> Result<Seq<u8>, ()> {
    match base64_url_decoded(trim_seq(text)) {
        Some(b) => if b.len() == MASTER_KEY_BYTES {
            Ok(b)
        } else {
            Err(())
        },
        None => Err(()),
    }
}

/// The plaintext bytes `ciphertext` decrypts to under `key` and `nonce`.
pub open spec fn decrypted_bytes(key: Seq<u8>, nonce: Seq<u8>, ciphertext: Seq<u8>) -> Option<Seq<u8>> {
    xchacha_open(key, nonce, ciphertext)
}

/// The text `ciphertext` decrypts to: the decrypted bytes read as UTF-8.
pub open spec fn decrypted_text(key: Seq<u8>, nonce: Seq<u8>, ciphertext: Seq<u8>) -> Option<Seq<char>> {
    match xchacha_open(key, nonce, ciphertext) {
        Some(b) => if valid_utf8(b) {
            Some(decode_utf8(b))
        } else {
            None
        },
        None => None,
    }
}

impl MasterKey {
    #[verifier::type_invariant]
    spec fn key_length(self) -> bool {
        self.bytes@.len() == MASTER_KEY_BYTES
    }

    /// A key is always 32 bytes long.
    pub fn key_len(&self) -> (n: usize)
        ensures
            n == self@.len(),
            n == MASTER_KEY_BYTES,
    {
        proof {
            use_type_invariant(self);
        }
        self.bytes.len()
    }

    /// A key from its raw bytes, which must be exactly 32.
    pub fn from_bytes(bytes: &[u8]) -> (r: Result<MasterKey, CryptoError>)
        ensures
            bytes@.len() == MASTER_KEY_BYTES ==> (r matches Ok(k) && k@ == bytes@),
            bytes@.len() != MASTER_KEY_BYTES ==> (r matches Err(CryptoError::InvalidKeyLength)),
    {
        if bytes.len() != MASTER_KEY_BYTES {
            return Err(CryptoError::InvalidKeyLength);
        }
        let v = vstd::slice::slice_to_vec(bytes);
        Ok(MasterKey { bytes: v })
    }

    /// A new key of random bytes.
    pub fn generate() -> (k: MasterKey)
        ensures
            k@.len() == MASTER_KEY_BYTES,
    {
        MasterKey { bytes: random_bytes(MASTER_KEY_BYTES) }
    }

    /// The contents of the key file for this key.
    pub fn key_file_contents(&self) -> (r: String)
        ensures
            r@ == key_file_text(self@),
            key_from_file_text(r@) == Ok::<Seq<u8>, ()>(self@),
    {
        proof {
            use_type_invariant(self);
        }
        let mut s = base64_url_encode(self.bytes.as_slice());
        proof {
            lemma_trim_encoded(s@);
        }
        crate::text::push_char(&mut s, '\n');
        s
    }

    /// Reads a key from the contents of a key file: surrounding whitespace
    /// is ignored, the rest must be the URL-safe base64 text of 32 bytes.
    pub fn from_key_file_contents(text: &str) -> (r: Result<MasterKey, CryptoError>)
        ensures
            match key_from_file_text(text@) {
                Ok(b) => r matches Ok(k) && k@ == b,
                Err(_) => r is Err,
            },
            match base64_url_decoded(trim_seq(text@)) {
                None => r matches Err(CryptoError::InvalidKeyEncoding),
                Some(b) => b.len() != MASTER_KEY_BYTES ==> (r matches Err(
                    CryptoError::InvalidKeyLength,
                )),
            },
    {
        let trimmed = crate::text::trim_str(text);
        match base64_url_decode(trimmed.as_str()) {
            Some(bytes) => MasterKey::from_bytes(bytes.as_slice()),
            None => Err(CryptoError::InvalidKeyEncoding),
        }
    }

    /// Encrypts `plaintext` under a fresh random nonce; this succeeds for
    /// every message within the cipher's limit.
    pub fn encrypt_bytes(&self, plaintext: &[u8]) -> (r: Result<EncryptedValue, CryptoError>)
        ensures
            r is Ok <==> within_cipher_limit(plaintext@.len()),
            r matches Ok(ev) ==> ev.nonce@.len() == NONCE_BYTES && Some(ev.ciphertext@)
                == xchacha_seal(self@, ev.nonce@, plaintext@) && ev.ciphertext@.len()
                == plaintext@.len() + TAG_BYTES && decrypted_bytes(self@, ev.nonce@, ev.ciphertext@)
                == Some(plaintext@),
            r matches Err(e) ==> e is Encrypt,
    {
        proof {
            use_type_invariant(self);
        }
        let nonce = random_nonce();
        match aead_seal(self.bytes.as_slice(), nonce.as_slice(), plaintext) {
            Some(ciphertext) => Ok(EncryptedValue { ciphertext, nonce }),
            None => Err(CryptoError::Encrypt),
        }
    }

    /// Encrypts the UTF-8 bytes of `plaintext`; this succeeds for every text
    /// within the cipher's limit. The ciphertext is the text's byte length
    /// plus the tag, so it never equals the text's bytes.
    pub fn encrypt(&self, plaintext: &str) -> (r: Result<EncryptedValue, CryptoError>)
        ensures
            r is Ok <==> within_cipher_limit(encode_utf8(plaintext@).len()),
            r matches Ok(ev) ==> ev.ciphertext@.len() == encode_utf8(plaintext@).len() + TAG_BYTES
                && ev.ciphertext@ != encode_utf8(plaintext@),
            r matches Ok(ev) ==> ev.nonce@.len() == NONCE_BYTES && Some(ev.ciphertext@)
                == xchacha_seal(self@, ev.nonce@, encode_utf8(plaintext@))
                && decrypted_bytes(self@, ev.nonce@, ev.ciphertext@) == Some(encode_utf8(plaintext@))
                && decrypted_text(self@, ev.nonce@, ev.ciphertext@) == Some(plaintext@),
            r matches Err(e) ==> e is Encrypt,
    {
        let r = self.encrypt_bytes(plaintext.as_bytes());
        proof {
            if r is Ok {
                let ev = r->Ok_0;
                lemma_decrypt_text(self@, ev.nonce@, ev.ciphertext@, plaintext@);
            }
        }
        r
    }

    /// Decrypts `ciphertext` with its 24-byte `nonce`.
    pub fn decrypt_bytes(&self, ciphertext: &[u8], nonce: &[u8]) -> (r: Result<Vec<u8>, CryptoError>)
        requires
            nonce@.len() == NONCE_BYTES,
        ensures
            match decrypted_bytes(self@, nonce@, ciphertext@) {
                Some(p) => r matches Ok(b) && b@ == p,
                None => r matches Err(CryptoError::Decrypt),
            },
    {
        proof {
            use_type_invariant(self);
        }
        match aead_open(self.bytes.as_slice(), nonce, ciphertext) {
            Some(plaintext) => Ok(plaintext),
            None => Err(CryptoError::Decrypt),
        }
    }

    /// Decrypts `ciphertext` with its 24-byte `nonce` into text; a
    /// plaintext that is not UTF-8 is an error.
    pub fn decrypt(&self, ciphertext: &[u8], nonce: &[u8]) -> (r: Result<String, CryptoError>)
        requires
            nonce@.len() == NONCE_BYTES,
        ensures
            match decrypted_text(self@, nonce@, ciphertext@) {
                Some(t) => r matches Ok(s) && s@ == t,
                None => r matches Err(CryptoError::Decrypt),
            },
    {
        match self.decrypt_bytes(ciphertext, nonce) {
            Ok(plaintext) => match string_from_utf8(plaintext) {
                Some(s) => Ok(s),
                None => Err(CryptoError::Decrypt),
            },
            Err(e) => Err(e),
        }
    }
}

/// Bytes that decrypt to the UTF-8 encoding of a text decrypt to that text.
proof fn lemma_decrypt_text(key: Seq<u8>, nonce: Seq<u8>, ciphertext: Seq<u8>, text: Seq<char>)
    requires
        decrypted_bytes(key, nonce, ciphertext) == Some(encode_utf8(text)),
    ensures
        decrypted_text(key, nonce, ciphertext) == Some(text),
{
    vstd::utf8::encode_utf8_valid_utf8(text);
    vstd::utf8::encode_utf8_decode_utf8(text);
}

/// Trimming text that is all base64 characters followed by whitespace.
proof fn lemma_trim_encoded(s: Seq<char>)
    requires
        s.len() > 0,
        forall|i: int| 0 <= i < s.len() ==> is_base64_url_char(#[trigger] s[i]),
    ensures
        trim_seq(s.push('\n')) == s,
{
    assert(!is_ws(s[0])) by {
        assert(is_base64_url_char(s[0]));
    }
    assert(s.push('\n')[0] == s[0]);
    assert(crate::text::trim_start_seq(s.push('\n')) == s.push('\n'));
    assert(is_ws('\n'));
    assert(s.push('\n').drop_last() =~= s);
    assert(!is_ws(s.last())) by {
        assert(is_base64_url_char(s[s.len() - 1]));
    }
    assert(crate::text::trim_end_seq(s) == s);
}

} // verus!
