//! Credentials: proxy API keys, admin sessions and the admin password.
use argon2::password_hash::{PasswordHash, PasswordHasher, PasswordVerifier, SaltString};
use sha2::Digest;
use vstd::prelude::*;
use vstd::utf8::encode_utf8;

use crate::crypto::{base64_url, base64_url_encode, random_bytes};
use crate::text::{
    append_str, chars_of, has_prefix, is_ws, skip_chars, split_chars, split_seq, starts_with_chars,
    str_eq, string_from_chars, trim_chars, trim_end_seq, trim_seq, trim_start_seq,
};

verus! {

/// `argon2::password_hash::Error`, carried as the cause of a hashing failure.
#[verifier::external_type_specification]
#[verifier::external_body]
pub struct ExPasswordHashError(argon2::password_hash::Error);

/// Why the admin password could not be hashed.
#[derive(Debug)]
pub enum AuthError {
    PasswordHash(argon2::password_hash::Error),
}

// ---------------------------------------------------------------- outside calls

/// Whether `c` is a lower-case hexadecimal digit.
pub open spec fn is_lower_hex(c: char) -> bool {
    ('0' <= c && c <= '9') || ('a' <= c && c <= 'f')
}

/// The hyphenated lower-case text of a UUID: 32 hex digits in groups of
/// 8, 4, 4, 4 and 12, separated by `-`.
pub open spec fn is_uuid_text(s: Seq<char>) -> bool {
    &&& s.len() == 36
    &&& forall|i: int|
        0 <= i < 36 ==> if i == 8 || i == 13 || i == 18 || i == 23 {
            #[trigger] s[i] == '-'
        } else {
            is_lower_hex(s[i])
        }
}

/// A new time-ordered UUID (`Uuid::now_v7`), as text. It depends on the
/// clock and on random bits: only its shape is known.
#[verifier::external_body]
fn uuid_v7_text() -> (r: String)
    ensures
        is_uuid_text(r@),
{
    uuid::Uuid::now_v7().to_string()
}

// SHA-256 digest of `bytes`.
pub uninterp spec fn sha256_digest(bytes: Seq<u8>) -> Seq<u8>;

/// `Sha256::digest`: named `sha256_digest`; 32 bytes long.
#[verifier::external_body]
pub(crate) fn sha256(bytes: &[u8]) -> (r: Vec<u8>)
    ensures
        r@ == sha256_digest(bytes@),
        r@.len() == 32,
{
    sha2::Sha256::digest(bytes).to_vec()
}

/// Length in bytes of the random salt of a password hash (the length
/// `SaltString::generate` draws).
pub const SALT_BYTES: usize = 16;

// Whether Argon2 (default parameters) accepts `password` against the PHC
// string `hash`: `PasswordHash::new(hash)` parses and `verify_password`
// succeeds.
pub uninterp spec fn argon2_accepts(password: Seq<char>, hash: Seq<char>) -> bool;

/// `SaltString::encode_b64(salt)`, then `Argon2::default().hash_password`
/// with that salt, as a PHC string. The hash depends on the salt, of which
/// nothing is known here; what is stated is that verifying the same password
/// against it succeeds (verification recomputes the hash with the salt and
/// parameters the string records), and that hashing succeeds for a password
/// of at most `0xFFFF_FFFF` bytes: with the default parameters the only
/// input the hasher refuses is a longer password (`Error::PwdTooLong`), and
/// a salt of 8 to 48 bytes encodes within the 64 characters a salt string
/// holds and decodes to at least the 8 bytes Argon2 needs.
#[verifier::external_body]
fn argon2_hash(password: &str, salt: &[u8]) -> (r: Result<String, argon2::password_hash::Error>)
    requires
        8 <= salt@.len() <= 48,
    ensures
        encode_utf8(password@).len() <= 0xFFFF_FFFF ==> r is Ok,
        r matches Ok(h) ==> argon2_accepts(password@, h@),
{
    let salt = SaltString::encode_b64(salt)?;
    argon2::Argon2::default().hash_password(password.as_bytes(), &salt).map(|hash| hash.to_string())
}

/// `PasswordHash::new(hash)` then `Argon2::default().verify_password`:
/// named `argon2_accepts`; a hash that does not parse is not accepted, and a
/// PHC string begins with `$` (the parser refuses text whose first
/// `$`-separated field is not empty).
#[verifier::external_body]
fn argon2_verify(password: &str, hash: &str) -> (r: bool)
    ensures
        r == argon2_accepts(password@, hash@),
        !has_prefix(hash@, "$"@) ==> !r,
{
    match PasswordHash::new(hash) {
        Ok(parsed) => argon2::Argon2::default().verify_password(password.as_bytes(), &parsed).is_ok(),
        Err(_) => false,
    }
}

// ---------------------------------------------------------------- tokens

/// A proxy API key: `lp_`, a UUID, `_`, a UUID.
pub open spec fn proxy_key_text(a: Seq<char>, b: Seq<char>) -> Seq<char> {
    "lp_"@ + a + "_"@ + b
}

/// An admin session token: `ls_`, a UUID, `_`, a UUID.
pub open spec fn session_token_text(a: Seq<char>, b: Seq<char>) -> Seq<char> {
    "ls_"@ + a + "_"@ + b
}

/// A new proxy API key made of two fresh UUIDs.
pub fn generate_proxy_api_key() -> (r: String)
    ensures
        exists|a: Seq<char>, b: Seq<char>|
            is_uuid_text(a) && is_uuid_text(b) && r@ == #[trigger] proxy_key_text(a, b),
{
    let a = uuid_v7_text();
    let b = uuid_v7_text();
    let mut r = String::new();
    append_str(&mut r, "lp_");
    append_str(&mut r, a.as_str());
    append_str(&mut r, "_");
    append_str(&mut r, b.as_str());
    assert(r@ =~= proxy_key_text(a@, b@));
    r
}

/// A new admin session token made of two fresh UUIDs.
pub fn generate_session_token() -> (r: String)
    ensures
        exists|a: Seq<char>, b: Seq<char>|
            is_uuid_text(a) && is_uuid_text(b) && r@ == #[trigger] session_token_text(a, b),
{
    let a = uuid_v7_text();
    let b = uuid_v7_text();
    let mut r = String::new();
    append_str(&mut r, "ls_");
    append_str(&mut r, a.as_str());
    append_str(&mut r, "_");
    append_str(&mut r, b.as_str());
    assert(r@ =~= session_token_text(a@, b@));
    r
}

/// The lookup hash stored for a token: the URL-safe base64 text of the
/// SHA-256 digest of its UTF-8 bytes.
pub open spec fn lookup_hash(token: Seq<char>) -> Seq<char> {
    base64_url(sha256_digest(encode_utf8(token)))
}

/// Two tokens share a lookup hash exactly when their SHA-256 digests are
/// equal: the hash is a function of the token's digest that loses nothing
/// of it, so tokens with different digests are never confused.
pub proof fn lookup_hash_tells_digests_apart(a: Seq<char>, b: Seq<char>)
    ensures
        lookup_hash(a) == lookup_hash(b) <==> sha256_digest(encode_utf8(a)) == sha256_digest(
            encode_utf8(b),
        ),
{
    if lookup_hash(a) == lookup_hash(b) {
        crate::crypto::base64_url_is_injective(
            sha256_digest(encode_utf8(a)),
            sha256_digest(encode_utf8(b)),
        );
    }
}

/// The lookup hash of `token`; equal tokens always give equal hashes. The
/// hash is always 43 characters (a 32-byte digest in unpadded base64), so
/// it never equals a token of another length, such as the keys and
/// session tokens this library generates.
pub fn hash_lookup_token(token: &str) -> (r: String)
    ensures
        r@ == lookup_hash(token@),
        r@.len() == 43,
        token@.len() != 43 ==> r@ != token@,
{
    let digest = sha256(token.as_bytes());
    base64_url_encode(digest.as_slice())
}

/// Hashes the admin password with Argon2 and a fresh random salt of
/// [`SALT_BYTES`] bytes; the password then verifies against the hash.
/// Hashing succeeds for every password of at most `0xFFFF_FFFF` bytes.
pub fn hash_admin_password(password: &str) -> (r: Result<String, AuthError>)
    ensures
        encode_utf8(password@).len() <= 0xFFFF_FFFF ==> r is Ok,
        r matches Ok(h) ==> argon2_accepts(password@, h@),
{
    let salt = random_bytes(SALT_BYTES);
    match argon2_hash(password, salt.as_slice()) {
        Ok(h) => Ok(h),
        Err(e) => Err(AuthError::PasswordHash(e)),
    }
}

/// Whether `password` matches the stored Argon2 `hash`; text that is no
/// PHC string (does not begin with `$`) matches no password.
pub fn verify_admin_password(password: &str, hash: &str) -> (r: bool)
    ensures
        r == argon2_accepts(password@, hash@),
        !has_prefix(hash@, "$"@) ==> !r,
{
    argon2_verify(password, hash)
}

// ---------------------------------------------------------------- cookies

/// Name of the admin session cookie.
pub const SESSION_COOKIE: &'static str = "llm_proxy_session";

/// Age of an admin session, in seconds: seven days.
pub const SESSION_MAX_AGE_SECS: u64 = 604800;

/// Position of the first `c` in `s` at or after `i`, if any.
pub open spec fn find_char(s: Seq<char>, c: char, i: int) -> Option<int>
    decreases s.len() - i,
{
    if i < 0 || i >= s.len() {
        None
    } else if s[i] == c {
        Some(i)
    } else {
        find_char(s, c, i + 1)
    }
}

/// The session token a `name=value` cookie pair carries: the value when the
/// trimmed pair's name (before the first `=`) is the session cookie's name.
pub open spec fn pair_session_token(pair: Seq<char>) -> Option<Seq<char>> {
    let t = trim_seq(pair);
    match find_char(t, '=', 0) {
        Some(k) => if t.take(k) == "llm_proxy_session"@ {
            Some(t.skip(k + 1))
        } else {
            None
        },
        None => None,
    }
}

/// The first session token among the `;`-separated pairs from `i` on.
pub open spec fn first_session_token(pairs: Seq<Seq<char>>, i: int) -> Option<Seq<char>>
    decreases pairs.len() - i,
{
    if i < 0 || i >= pairs.len() {
        None
    } else {
        match pair_session_token(pairs[i]) {
            Some(v) => Some(v),
            None => first_session_token(pairs, i + 1),
        }
    }
}

/// The admin session token in a `Cookie` header value.
pub open spec fn cookie_session_token(cookie: Seq<char>) -> Option<Seq<char>> {
    first_session_token(split_seq(cookie, ';'), 0)
}

fn find_char_exec(s: &[char], c: char) -> (r: Option<usize>)
    ensures
        match find_char(s@, c, 0) {
            Some(k) => r == Some(k as usize) && 0 <= k < s@.len(),
            None => r is None,
        },
{
    let mut i: usize = 0;
    while i < s.len()
        invariant
            i <= s@.len(),
            find_char(s@, c, 0) == find_char(s@, c, i as int),
        decreases s.len() - i,
    {
        if s[i] == c {
            return Some(i);
        }
        i = i + 1;
    }
    None
}

/// The admin session token carried by the `Cookie` header value `cookie`.
pub fn session_token_from_cookie(cookie: &str) -> (r: Option<String>)
    ensures
        r is Some == cookie_session_token(cookie@) is Some,
        r matches Some(t) ==> t@ == cookie_session_token(cookie@)->0,
{
    let v = chars_of(cookie);
    let pairs = split_chars(&v, ';');
    let ghost ps = crate::text::vec_views(pairs@);
    let name = chars_of(SESSION_COOKIE);
    let mut i: usize = 0;
    while i < pairs.len()
        invariant
            ps == crate::text::vec_views(pairs@),
            ps == split_seq(cookie@, ';'),
            name@ == "llm_proxy_session"@,
            i <= pairs@.len(),
            first_session_token(ps, 0) == first_session_token(ps, i as int),
        decreases pairs.len() - i,
    {
        let t = trim_chars(&pairs[i]);
        let tn: usize = t.len();
        assert(ps[i as int] == pairs@[i as int]@);
        match find_char_exec(&t, '=') {
            Some(k) => {
                let key = crate::text::take_chars(&t, k);
                if crate::text::chars_eq(&key, &name) {
                    let value = skip_chars(&t, k + 1);
                    assert(pair_session_token(ps[i as int]) == Some(value@));
                    return Some(string_from_chars(&value));
                }
            },
            None => {},
        }
        i = i + 1;
    }
    None
}

/// The admin session token in the request's `Cookie` header, if it has one.
pub fn session_token_from_headers(cookie_header: Option<&str>) -> (r: Option<String>)
    ensures
        match cookie_header {
            Some(c) => r is Some == cookie_session_token(c@) is Some && (r matches Some(t) ==> t@
                == cookie_session_token(c@)->0),
            None => r is None,
        },
{
    match cookie_header {
        Some(c) => session_token_from_cookie(c),
        None => None,
    }
}

/// The `Set-Cookie` value that opens an admin session with `token`.
pub open spec fn session_cookie_text(token: Seq<char>) -> Seq<char> {
    "llm_proxy_session="@ + token + "; HttpOnly; SameSite=Lax; Path=/; Max-Age=604800"@
}

/// The `Set-Cookie` value that opens an admin session with `token`.
pub fn session_cookie(token: &str) -> (r: String)
    ensures
        r@ == session_cookie_text(token@),
{
    let mut r = String::new();
    append_str(&mut r, "llm_proxy_session=");
    append_str(&mut r, token);
    append_str(&mut r, "; HttpOnly; SameSite=Lax; Path=/; Max-Age=604800");
    assert(r@ =~= session_cookie_text(token@));
    r
}

/// The `Set-Cookie` value that ends the admin session.
pub fn logout_cookie() -> (r: &'static str)
    ensures
        r@ == "llm_proxy_session=; HttpOnly; SameSite=Lax; Path=/; Max-Age=0"@,
{
    "llm_proxy_session=; HttpOnly; SameSite=Lax; Path=/; Max-Age=0"
}

/// The proxy key a request presents: the `x-api-key` header when present,
/// otherwise the `Authorization` header after `Bearer `.
pub open spec fn presented_key(x_api_key: Option<Seq<char>>, authorization: Option<Seq<char>>) -> Option<Seq<char>> {
    match x_api_key {
        Some(k) => Some(k),
        None => match authorization {
            Some(a) => if has_prefix(a, "Bearer "@) {
                Some(a.skip(7))
            } else {
                None
            },
            None => None,
        },
    }
}

/// The view of an optional string.
pub open spec fn opt_str_view(s: Option<&str>) -> Option<Seq<char>> {
    match s {
        Some(x) => Some(x@),
        None => None,
    }
}

/// The proxy API key a request presents, from its `x-api-key` and
/// `Authorization` header values.
pub fn bearer_token(x_api_key: Option<&str>, authorization: Option<&str>) -> (r: Option<String>)
    ensures
        r is Some == presented_key(opt_str_view(x_api_key), opt_str_view(authorization)) is Some,
        r matches Some(t) ==> t@ == presented_key(opt_str_view(x_api_key), opt_str_view(authorization))->0,
{
    match x_api_key {
        Some(k) => Some(k.to_owned()),
        None => match authorization {
            Some(a) => {
                let v = chars_of(a);
                let prefix = chars_of("Bearer ");
                proof {
                    reveal_strlit("Bearer ");
                }
                if starts_with_chars(&v, &prefix) {
                    Some(string_from_chars(&skip_chars(&v, 7)))
                } else {
                    None
                }
            },
            None => None,
        },
    }
}

// ---------------------------------------------------------------- admin access

/// Where a dashboard request stands with respect to the admin account.
#[derive(Debug, Clone, Copy, PartialEq, Eq)]
pub enum AuthState {
    /// No admin account exists yet.
    NeedsSetup,
    /// No valid admin session is presented.
    Unauthenticated,
    /// A valid admin session is presented.
    Authenticated,
}

/// Decides the admin state from whether an admin account exists and, when
/// the request carries a session token, whether that session exists.
pub fn admin_auth_state(has_admin_account: bool, session_exists: Option<bool>) -> (r: AuthState)
    ensures
        !has_admin_account ==> r == AuthState::NeedsSetup,
        has_admin_account && session_exists == Some(true) ==> r == AuthState::Authenticated,
        has_admin_account && session_exists != Some(true) ==> r == AuthState::Unauthenticated,
{
    if !has_admin_account {
        return AuthState::NeedsSetup;
    }
    match session_exists {
        Some(true) => AuthState::Authenticated,
        _ => AuthState::Unauthenticated,
    }
}

/// Where a page redirects a visitor who may not see it: to setup before an
/// admin exists, to the login page without a session.
pub fn auth_redirect(state: AuthState) -> (r: Option<&'static str>)
    ensures
        state == AuthState::NeedsSetup ==> (r matches Some(p) && p@ == "/setup"@),
        state == AuthState::Unauthenticated ==> (r matches Some(p) && p@ == "/login"@),
        state == AuthState::Authenticated ==> r is None,
{
    match state {
        AuthState::NeedsSetup => Some("/setup"),
        AuthState::Unauthenticated => Some("/login"),
        AuthState::Authenticated => None,
    }
}

/// `find_char` finds the first `c` at or after `i`.
proof fn lemma_find_char_at(s: Seq<char>, c: char, i: int, k: int)
    requires
        0 <= i <= k < s.len(),
        s[k] == c,
        forall|j: int| i <= j < k ==> s[j] != c,
    ensures
        find_char(s, c, i) == Some(k),
    decreases k - i,
{
    if i < k {
        lemma_find_char_at(s, c, i + 1, k);
    }
}

/// Splitting text without the separator gives the text itself.
proof fn lemma_split_without_separator(s: Seq<char>, sep: char)
    requires
        forall|i: int| 0 <= i < s.len() ==> s[i] != sep,
    ensures
        split_seq(s, sep) == seq![s],
    decreases s.len(),
{
    if s.len() > 0 {
        lemma_split_without_separator(s.drop_last(), sep);
        assert(s.drop_last().push(s.last()) =~= s);
        assert(s.last() != sep);
        assert(seq![s.drop_last()].update(0, s.drop_last().push(s.last())) =~= seq![s]);
    } else {
        assert(s =~= Seq::<char>::empty());
    }
}

/// The pair a session cookie sets: its name, `=`, and the token.
pub open spec fn session_pair(token: Seq<char>) -> Seq<char> {
    "llm_proxy_session="@ + token
}

/// What a login sets is what later requests present: the session cookie
/// begins with the pair `llm_proxy_session=<token>`, and a `Cookie` header
/// made of that pair gives the token back, for a token without `;` that does
/// not end with whitespace (as generated tokens are).
pub proof fn session_cookie_reads_back(token: Seq<char>)
    requires
        forall|i: int| 0 <= i < token.len() ==> token[i] != ';',
        token.len() > 0 ==> !is_ws(token.last()),
    ensures
        has_prefix(session_cookie_text(token), session_pair(token)),
        session_cookie_text(token)[session_pair(token).len() as int] == ';',
        cookie_session_token(session_pair(token)) == Some(token),
{
    reveal_strlit("llm_proxy_session=");
    reveal_strlit("llm_proxy_session");
    reveal_strlit("; HttpOnly; SameSite=Lax; Path=/; Max-Age=604800");
    let p = session_pair(token);
    let name = "llm_proxy_session"@;
    assert(p.len() == 18 + token.len());
    assert(session_cookie_text(token) == p + "; HttpOnly; SameSite=Lax; Path=/; Max-Age=604800"@);
    assert(session_cookie_text(token).take(p.len() as int) =~= p);
    assert forall|i: int| 0 <= i < p.len() implies p[i] != ';' by {
        if i >= 18 {
            assert(p[i] == token[i - 18]);
        }
    }
    lemma_split_without_separator(p, ';');
    assert(!is_ws(p[0]));
    assert(trim_start_seq(p) == p);
    let last = p.last();
    if token.len() > 0 {
        assert(last == token[token.len() - 1]);
    } else {
        assert(last == '=');
    }
    assert(!is_ws(last));
    assert(trim_end_seq(p) == p);
    assert(trim_seq(p) == p);
    assert forall|j: int| 0 <= j < 17 implies p[j] != '=' by {
        assert(p[j] == name[j]);
    }
    assert(p[17] == '=');
    lemma_find_char_at(p, '=', 0, 17);
    assert(p.take(17) =~= name);
    assert(p.skip(18) =~= token);
    assert(pair_session_token(p) == Some(token));
    assert(first_session_token(seq![p], 0) == Some(token));
}

} // verus!
