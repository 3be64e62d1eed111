//! Archives of request and response payloads: compressed with zstd, then
//! encrypted under the master key, stored as the nonce followed by the
//! ciphertext.
use vstd::prelude::*;

use crate::auth::{sha256, sha256_digest};
use crate::crypto::{
    base64_url, base64_url_encode, decrypted_bytes, within_cipher_limit, CryptoError, MasterKey,
    NONCE_BYTES,
};
use crate::text::{
    append_str, chars_of, contains_chars, contains_seq, decimal, digit_char, has_prefix, is_digit,
    occurs_at, push_char, push_decimal, starts_with_chars,
};

verus! {

// ---------------------------------------------------------------- outside calls

// The zstd frame that `zstd::encode_all` makes of `data` at level 3.
pub uninterp spec fn zstd_encoded(data: Seq<u8>) -> Seq<u8>;

// What `zstd::decode_all` makes of `data`: the decompressed bytes, or `None`
// when it reports an error.
pub uninterp spec fn zstd_decoded(data: Seq<u8>) -> Option<Seq<u8>>;

/// zstd compression level of payload archives.
pub const COMPRESSION_LEVEL: i32 = 3;

/// `zstd::encode_all(data, 3)`: the frame is named `zstd_encoded`, and
/// decoding it gives `data` back (zstd is lossless). The encoder reads an
/// in-memory slice and writes into a `Vec` at a valid level, so no I/O
/// error can arise and the call succeeds.
#[verifier::external_body]
fn zstd_compress(data: &[u8]) -> (r: Result<Vec<u8>, std::io::Error>)
    ensures
        r is Ok,
        r matches Ok(c) ==> c@ == zstd_encoded(data@) && zstd_decoded(c@) == Some(data@),
{
    zstd::encode_all(data, COMPRESSION_LEVEL)
}

/// `zstd::decode_all` on an in-memory slice: named `zstd_decoded` (`None`
/// when it reports an error, as for bytes that are not a zstd stream).
#[verifier::external_body]
fn zstd_decompress(data: &[u8]) -> (r: Result<Vec<u8>, std::io::Error>)
    ensures
        r is Ok <==> zstd_decoded(data@) is Some,
        r matches Ok(p) ==> zstd_decoded(data@) == Some(p@),
{
    zstd::decode_all(data)
}

/// `OffsetDateTime::now_utc`, taken apart into year, month (1 to 12), day of
/// the month (1 to 31) and hour (0 to 23). Which time the clock gives is
/// not stated.
#[verifier::external_body]
fn utc_now_parts() -> (r: (i32, u8, u8, u8))
    ensures
        1 <= r.1 <= 12,
        1 <= r.2 <= 31,
        r.3 <= 23,
{
    let now = time::OffsetDateTime::now_utc();
    (now.year(), u8::from(now.month()), now.day(), now.hour())
}

// ---------------------------------------------------------------- types

/// Which side of an exchange a payload is.
#[derive(Debug, Clone, Copy, PartialEq, Eq, Structural)]
pub enum PayloadKind {
    Request,
    Response,
}

impl PayloadKind {
    /// The file-name prefix of an archive of this kind.
    pub open spec fn prefix_spec(self) -> Seq<char> {
        match self {
            PayloadKind::Request => "req"@,
            PayloadKind::Response => "res"@,
        }
    }

    /// The name of this kind in download links.
    pub open spec fn name_spec(self) -> Seq<char> {
        match self {
            PayloadKind::Request => "request"@,
            PayloadKind::Response => "response"@,
        }
    }

    /// The file-name prefix of an archive of this kind: `req` or `res`.
    pub fn prefix(self) -> (r: &'static str)
        ensures
            r@ == self.prefix_spec(),
    {
        match self {
            PayloadKind::Request => {
                proof {
                    reveal_strlit("req");
                }
                "req"
            },
            PayloadKind::Response => {
                proof {
                    reveal_strlit("res");
                }
                "res"
            },
        }
    }

    /// The name of this kind in download links: `request` or `response`.
    pub fn name(self) -> (r: &'static str)
        ensures
            r@ == self.name_spec(),
    {
        match self {
            PayloadKind::Request => {
                proof {
                    reveal_strlit("request");
                }
                "request"
            },
            PayloadKind::Response => {
                proof {
                    reveal_strlit("response");
                }
                "response"
            },
        }
    }

    /// The kind a download link names, if any.
    pub fn from_name(name: &str) -> (r: Option<PayloadKind>)
        ensures
            r == (if name@ == "request"@ {
                Some(PayloadKind::Request)
            } else if name@ == "response"@ {
                Some(PayloadKind::Response)
            } else {
                None
            }),
    {
        proof {
            reveal_strlit("request");
            reveal_strlit("response");
        }
        if crate::text::str_eq(name, "request") {
            Some(PayloadKind::Request)
        } else if crate::text::str_eq(name, "response") {
            Some(PayloadKind::Response)
        } else {
            None
        }
    }
}

/// Where a payload was archived, its size and its digest.
#[derive(Debug, Clone, PartialEq, Eq)]
pub struct ArchivedPayload {
    pub relative_path: String,
    pub raw_bytes: u64,
    pub raw_sha256: String,
}

/// A payload made ready for its archive file: where the file goes under the
/// payload directory, what it holds, and the record of it.
#[derive(Debug)]
pub struct SealedPayload {
    pub relative_path: String,
    pub contents: Vec<u8>,
    pub archived: ArchivedPayload,
}

/// Why a payload could not be archived.
#[derive(Debug)]
pub enum PayloadArchiveError {
    Io(std::io::Error),
    Compression(std::io::Error),
    Encryption(CryptoError),
}

/// Why an archived payload could not be read back.
#[derive(Debug)]
pub enum PayloadReadError {
    InvalidPath,
    Malformed,
    Io(std::io::Error),
    Decryption(CryptoError),
    Decompression(std::io::Error),
}

// ---------------------------------------------------------------- paths

/// `n` in decimal, zero-padded to two digits.
pub open spec fn pad2(n: nat) -> Seq<char> {
    if n < 10 {
        seq!['0'] + decimal(n)
    } else {
        decimal(n)
    }
}

/// `n` in decimal, zero-padded to four digits.
pub open spec fn pad4(n: nat) -> Seq<char> {
    if n < 10 {
        "000"@ + decimal(n)
    } else if n < 100 {
        "00"@ + decimal(n)
    } else if n < 1000 {
        "0"@ + decimal(n)
    } else {
        decimal(n)
    }
}

/// A year as the `[year]` component prints it: four digits at least,
/// zero-padded, a `-` before negative years and a `+` before years past
/// 9999.
pub open spec fn year_text(year: int) -> Seq<char> {
    if year < 0 {
        seq!['-'] + pad4((-year) as nat)
    } else if year > 9999 {
        seq!['+'] + decimal(year as nat)
    } else {
        pad4(year as nat)
    }
}

/// A calendar date as `[year]-[month]-[day]`.
pub open spec fn date_text(year: int, month: nat, day: nat) -> Seq<char> {
    year_text(year) + seq!['-'] + pad2(month) + seq!['-'] + pad2(day)
}

/// The file name of the archive of a payload of `kind` for `request_id`.
pub open spec fn archive_file_name(kind: PayloadKind, request_id: Seq<char>) -> Seq<char> {
    kind.prefix_spec() + seq!['_'] + request_id + ".zst.enc"@
}

/// Where, under the payload directory, a payload archived at the given date
/// and hour is stored: `date/hour/file`.
pub open spec fn archive_relative_path(
    date: Seq<char>,
    hour: Seq<char>,
    kind: PayloadKind,
    request_id: Seq<char>,
) -> Seq<char> {
    date + seq!['/'] + hour + seq!['/'] + archive_file_name(kind, request_id)
}

/// Whether a stored payload path may be read: it does not climb out of the
/// payload directory with `..` and is not absolute.
pub open spec fn payload_path_allowed(path: Seq<char>) -> bool {
    !contains_seq(path, ".."@) && !has_prefix(path, "/"@)
}

/// Appends `n` zero-padded to two digits.
fn push_pad2(out: &mut String, n: u64)
    ensures
        final(out)@ == old(out)@ + pad2(n as nat),
{
    if n < 10 {
        push_char(out, '0');
    }
    push_decimal(out, n);
    assert(final(out)@ =~= old(out)@ + pad2(n as nat));
}

/// Appends `n` zero-padded to four digits.
fn push_pad4(out: &mut String, n: u64)
    ensures
        final(out)@ == old(out)@ + pad4(n as nat),
{
    proof {
        reveal_strlit("000");
        reveal_strlit("00");
        reveal_strlit("0");
    }
    if n < 10 {
        push_char(out, '0');
        push_char(out, '0');
        push_char(out, '0');
    } else if n < 100 {
        push_char(out, '0');
        push_char(out, '0');
    } else if n < 1000 {
        push_char(out, '0');
    }
    push_decimal(out, n);
    assert(final(out)@ =~= old(out)@ + pad4(n as nat));
}

/// The text of a calendar date as `[year]-[month]-[day]`.
pub fn format_date(year: i32, month: u8, day: u8) -> (r: String)
    ensures
        r@ == date_text(year as int, month as nat, day as nat),
{
    let mut out = String::new();
    if year < 0 {
        push_char(&mut out, '-');
        let magnitude: u64 = (-(year as i64)) as u64;
        push_pad4(&mut out, magnitude);
    } else if year > 9999 {
        push_char(&mut out, '+');
        push_decimal(&mut out, year as u64);
    } else {
        push_pad4(&mut out, year as u64);
    }
    assert(out@ =~= year_text(year as int));
    push_char(&mut out, '-');
    push_pad2(&mut out, month as u64);
    push_char(&mut out, '-');
    push_pad2(&mut out, day as u64);
    assert(out@ =~= date_text(year as int, month as nat, day as nat));
    out
}

/// The text of an hour as `[hour]`: two digits.
pub fn format_hour(hour: u8) -> (r: String)
    ensures
        r@ == pad2(hour as nat),
{
    let mut out = String::new();
    push_pad2(&mut out, hour as u64);
    assert(out@ =~= pad2(hour as nat));
    out
}

/// Where the archive of a payload of `kind` for `request_id` goes, for a
/// given date and hour text.
pub fn archive_path(date: &str, hour: &str, kind: PayloadKind, request_id: &str) -> (r: String)
    ensures
        r@ == archive_relative_path(date@, hour@, kind, request_id@),
{
    proof {
        reveal_strlit(".zst.enc");
    }
    let mut out = String::new();
    append_str(&mut out, date);
    push_char(&mut out, '/');
    append_str(&mut out, hour);
    push_char(&mut out, '/');
    append_str(&mut out, kind.prefix());
    push_char(&mut out, '_');
    append_str(&mut out, request_id);
    append_str(&mut out, ".zst.enc");
    assert(out@ =~= archive_relative_path(date@, hour@, kind, request_id@));
    out
}

/// Whether a stored payload path may be read (`payload_path_allowed`).
pub fn is_allowed_payload_path(path: &str) -> (r: bool)
    ensures
        r == payload_path_allowed(path@),
{
    proof {
        reveal_strlit("..");
        reveal_strlit("/");
    }
    let chars = chars_of(path);
    let dots = chars_of("..");
    let slash = chars_of("/");
    !contains_chars(chars.as_slice(), dots.as_slice()) && !starts_with_chars(
        chars.as_slice(),
        slash.as_slice(),
    )
}

// ---------------------------------------------------------------- digests

/// The recorded digest of a payload: URL-safe base64 of its SHA-256.
pub open spec fn payload_digest(payload: Seq<u8>) -> Seq<char> {
    base64_url(sha256_digest(payload))
}

/// The recorded digest of a payload: URL-safe base64 (no padding) of its
/// SHA-256 digest.
pub fn hash_payload(payload: &[u8]) -> (r: String)
    ensures
        r@ == payload_digest(payload@),
{
    let digest = sha256(payload);
    base64_url_encode(digest.as_slice())
}

// ---------------------------------------------------------------- sealing

/// The bytes of an archive file: the nonce, then the ciphertext.
pub open spec fn archive_contents(nonce: Seq<u8>, ciphertext: Seq<u8>) -> Seq<u8> {
    nonce + ciphertext
}

/// What reading an archive file with the given bytes gives under `key`:
/// the payload, or why it cannot be had. A file no longer than a nonce is
/// malformed; one that does not decrypt, or whose plaintext is no zstd
/// stream, fails at that step.
pub open spec fn opened_payload(key: Seq<u8>, stored: Seq<u8>) -> Result<Seq<u8>, PayloadOpenFailure> {
    if stored.len() <= NONCE_BYTES {
        Err(PayloadOpenFailure::Malformed)
    } else {
        match decrypted_bytes(
            key,
            stored.subrange(0, NONCE_BYTES as int),
            stored.subrange(NONCE_BYTES as int, stored.len() as int),
        ) {
            None => Err(PayloadOpenFailure::Decryption),
            Some(compressed) => match zstd_decoded(compressed) {
                None => Err(PayloadOpenFailure::Decompression),
                Some(p) => Ok(p),
            },
        }
    }
}

/// The step at which reading an archive fails.
pub enum PayloadOpenFailure {
    Malformed,
    Decryption,
    Decompression,
}

/// Whether `payload` can be archived: its zstd frame is within the
/// cipher's limit.
pub open spec fn sealable(payload: Seq<u8>) -> bool {
    within_cipher_limit(zstd_encoded(payload).len())
}

/// Compresses and encrypts `payload` into the contents of its archive file,
/// stored at `date/hour/{req|res}_{request_id}.zst.enc`; the record carries
/// that path, the payload's length and its digest. Reading the contents
/// back gives the payload. Sealing succeeds for every payload whose
/// compressed frame is within the cipher's limit.
pub fn seal_payload_at(
    master_key: &MasterKey,
    date: &str,
    hour: &str,
    request_id: &str,
    kind: PayloadKind,
    payload: &[u8],
) -> (r: Result<SealedPayload, PayloadArchiveError>)
    ensures
        r matches Ok(s) ==> {
            &&& s.relative_path@ == archive_relative_path(date@, hour@, kind, request_id@)
            &&& s.archived.relative_path@ == s.relative_path@
            &&& s.archived.raw_bytes == payload@.len()
            &&& s.archived.raw_sha256@ == payload_digest(payload@)
            &&& s.contents@.len() > NONCE_BYTES
            &&& opened_payload(master_key@, s.contents@) == Ok::<Seq<u8>, PayloadOpenFailure>(
                payload@,
            )
        },
        r is Ok <==> sealable(payload@),
        r matches Err(e) ==> (e matches PayloadArchiveError::Encryption(c) && c is Encrypt),
{
    let relative_path = archive_path(date, hour, kind, request_id);
    let compressed = match zstd_compress(payload) {
        Ok(c) => c,
        Err(e) => return Err(PayloadArchiveError::Compression(e)),
    };
    let encrypted = match master_key.encrypt_bytes(compressed.as_slice()) {
        Ok(ev) => ev,
        Err(e) => return Err(PayloadArchiveError::Encryption(e)),
    };
    let ghost nonce = encrypted.nonce@;
    let ghost ciphertext = encrypted.ciphertext@;
    let mut contents = encrypted.nonce;
    let mut tail = encrypted.ciphertext;
    contents.append(&mut tail);
    assert(contents@ =~= archive_contents(nonce, ciphertext));
    assert(contents@.subrange(0, NONCE_BYTES as int) =~= nonce);
    assert(contents@.subrange(NONCE_BYTES as int, contents@.len() as int) =~= ciphertext);
    let archived = ArchivedPayload {
        relative_path: relative_path.clone(),
        raw_bytes: payload.len() as u64,
        raw_sha256: hash_payload(payload),
    };
    Ok(SealedPayload { relative_path, contents, archived })
}

/// Compresses and encrypts `payload` for an archive filed under the current
/// UTC date and hour (see `seal_payload_at`); this succeeds for every
/// payload whose compressed frame is within the cipher's limit.
pub fn seal_payload(
    master_key: &MasterKey,
    request_id: &str,
    kind: PayloadKind,
    payload: &[u8],
) -> (r: Result<SealedPayload, PayloadArchiveError>)
    ensures
        r matches Ok(s) ==> exists|year: int, month: nat, day: nat, hour: nat|
            {
                &&& 1 <= month <= 12
                &&& 1 <= day <= 31
                &&& hour <= 23
                &&& s.relative_path@ == archive_relative_path(
                    date_text(year, month, day),
                    pad2(hour),
                    kind,
                    request_id@,
                )
            },
        r matches Ok(s) ==> {
            &&& s.archived.relative_path@ == s.relative_path@
            &&& s.archived.raw_bytes == payload@.len()
            &&& s.archived.raw_sha256@ == payload_digest(payload@)
            &&& opened_payload(master_key@, s.contents@) == Ok::<Seq<u8>, PayloadOpenFailure>(
                payload@,
            )
        },
        r is Ok <==> sealable(payload@),
        r matches Err(e) ==> (e matches PayloadArchiveError::Encryption(c) && c is Encrypt),
{
    let (year, month, day, hour) = utc_now_parts();
    let date = format_date(year, month, day);
    let hour_text = format_hour(hour);
    let r = seal_payload_at(master_key, date.as_str(), hour_text.as_str(), request_id, kind, payload);
    proof {
        if r is Ok {
            let s = r->Ok_0;
            assert(s.relative_path@ == archive_relative_path(
                date_text(year as int, month as nat, day as nat),
                pad2(hour as nat),
                kind,
                request_id@,
            ));
        }
    }
    r
}

/// Reads the contents of an archive file back into the payload: the first
/// 24 bytes are the nonce, the rest the ciphertext of the compressed
/// payload.
pub fn open_payload(master_key: &MasterKey, stored: &[u8]) -> (r: Result<Vec<u8>, PayloadReadError>)
    ensures
        match opened_payload(master_key@, stored@) {
            Ok(p) => r matches Ok(b) && b@ == p,
            Err(PayloadOpenFailure::Malformed) => r matches Err(PayloadReadError::Malformed),
            Err(PayloadOpenFailure::Decryption) => r matches Err(
                PayloadReadError::Decryption(CryptoError::Decrypt),
            ),
            Err(PayloadOpenFailure::Decompression) => r matches Err(
                PayloadReadError::Decompression(_),
            ),
        },
{
    if stored.len() <= NONCE_BYTES {
        return Err(PayloadReadError::Malformed);
    }
    let (nonce, ciphertext) = stored.split_at(NONCE_BYTES);
    assert(nonce@ =~= stored@.subrange(0, NONCE_BYTES as int));
    assert(ciphertext@ =~= stored@.subrange(NONCE_BYTES as int, stored@.len() as int));
    let compressed = match master_key.decrypt_bytes(ciphertext, nonce) {
        Ok(c) => c,
        Err(e) => return Err(PayloadReadError::Decryption(e)),
    };
    match zstd_decompress(compressed.as_slice()) {
        Ok(p) => Ok(p),
        Err(e) => Err(PayloadReadError::Decompression(e)),
    }
}

// ---------------------------------------------------------------- laws

/// Every character of a decimal numeral is a digit.
proof fn lemma_decimal_digits(n: nat)
    ensures
        decimal(n).len() > 0,
        forall|i: int| 0 <= i < decimal(n).len() ==> is_digit(#[trigger] decimal(n)[i]),
    decreases n,
{
    if n >= 10 {
        lemma_decimal_digits(n / 10);
        assert(decimal(n) == decimal(n / 10).push(digit_char(n % 10)));
    }
}

/// A character that may stand in the date or hour part of an archive path.
spec fn is_stamp_char(c: char) -> bool {
    is_digit(c) || c == '-' || c == '+'
}

/// The date and hour parts of an archive path are digits and signs.
proof fn lemma_stamp_chars(year: int, month: nat, day: nat, hour: nat)
    ensures
        date_text(year, month, day).len() > 0,
        forall|i: int|
            0 <= i < date_text(year, month, day).len() ==> is_stamp_char(
                #[trigger] date_text(year, month, day)[i],
            ),
        forall|i: int| 0 <= i < pad2(hour).len() ==> is_stamp_char(#[trigger] pad2(hour)[i]),
{
    reveal_strlit("000");
    reveal_strlit("00");
    reveal_strlit("0");
    let y: nat = if year < 0 {
        (-year) as nat
    } else {
        year as nat
    };
    lemma_decimal_digits(y);
    lemma_decimal_digits(month);
    lemma_decimal_digits(day);
    lemma_decimal_digits(hour);
    let yt = year_text(year);
    assert forall|i: int| 0 <= i < yt.len() implies is_stamp_char(#[trigger] yt[i]) by {
        if year < 0 {
            assert(yt == seq!['-'] + pad4(y));
        } else if year > 9999 {
            assert(yt == seq!['+'] + decimal(y));
        }
    }
    let d = date_text(year, month, day);
    assert forall|i: int| 0 <= i < d.len() implies is_stamp_char(#[trigger] d[i]) by {
        let a = yt.len() as int;
        let b = a + 1 + pad2(month).len();
        if i < a {
            assert(d[i] == yt[i]);
        } else if i == a {
        } else if i < b {
            assert(d[i] == pad2(month)[i - a - 1]);
        } else if i == b {
        } else {
            assert(d[i] == pad2(day)[i - b - 1]);
        }
    }
}

/// The path of every archive made under the current date and hour passes
/// the check that reading a stored payload makes, for a request id that
/// holds no `..` and does not end with a dot (the UUIDs requests are logged
/// under among them).
pub proof fn archive_paths_are_readable(
    year: int,
    month: nat,
    day: nat,
    hour: nat,
    kind: PayloadKind,
    request_id: Seq<char>,
)
    requires
        !contains_seq(request_id, ".."@),
        request_id.len() > 0 ==> request_id.last() != '.',
    ensures
        payload_path_allowed(
            archive_relative_path(date_text(year, month, day), pad2(hour), kind, request_id),
        ),
{
    reveal_strlit(".zst.enc");
    reveal_strlit("..");
    reveal_strlit("/");
    reveal_strlit("req");
    reveal_strlit("res");
    lemma_stamp_chars(year, month, day, hour);
    let date = date_text(year, month, day);
    let hr = pad2(hour);
    let head = date + seq!['/'] + hr + seq!['/'] + kind.prefix_spec() + seq!['_'];
    let p = archive_relative_path(date, hr, kind, request_id);
    assert(p =~= head + request_id + ".zst.enc"@);
    let base: int = head.len() as int + request_id.len() as int;
    assert forall|i: int| 0 <= i < head.len() implies #[trigger] head[i] != '.' by {
        let a = date.len() as int;
        let b = a + 1 + hr.len();
        if i < a {
            assert(head[i] == date[i]);
        } else if a < i < b {
            assert(head[i] == hr[i - a - 1]);
        } else if b + 1 <= i < b + 4 {
            assert(head[i] == kind.prefix_spec()[i - b - 1]);
        }
    }
    assert forall|i: int| !occurs_at(p, ".."@, i) by {
        if occurs_at(p, ".."@, i) {
            let h = head.len() as int;
            assert(p.subrange(i, i + 2)[0] == '.');
            assert(p.subrange(i, i + 2)[1] == '.');
            assert(p[i] == '.');
            assert(p[i + 1] == '.');
            if i < h {
                assert(p[i] == head[i]);
            } else if i + 1 < base {
                assert(p[i] == request_id[i - h]);
                assert(p[i + 1] == request_id[i + 1 - h]);
                assert(request_id.subrange(i - h, i - h + 2) =~= ".."@);
                assert(occurs_at(request_id, ".."@, i - h));
            } else if i + 1 == base {
                assert(p[i] == request_id[request_id.len() - 1]);
            } else {
                assert(p[i] == ".zst.enc"@[i - base]);
                assert(p[i + 1] == ".zst.enc"@[i + 1 - base]);
            }
        }
    }
    assert(p[0] == date[0]);
    assert(p.take(1)[0] == p[0]);
    assert(!has_prefix(p, "/"@)) by {
        if has_prefix(p, "/"@) {
            assert(p.take(1) == "/"@);
            assert(p.take(1)[0] == '/');
        }
    }
}

} // verus!
