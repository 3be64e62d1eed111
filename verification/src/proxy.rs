//! The decisions of the proxy endpoints: which requests are refused and with
//! what reply, what is sent upstream and where, and what is recorded of
//! each exchange. Reading requests, database work and the upstream calls
//! themselves are left to the server that drives these decisions.
use vstd::prelude::*;

use crate::config::{Config, ModelRoute};
use crate::crypto::MasterKey;
use crate::json::{json_as_bool, json_as_str, json_get, member_index, replace_member, JsonNumber, JsonValue};
use crate::names::NameMap;
use crate::payload::{
    archive_relative_path, date_text, opened_payload, pad2, payload_digest, seal_payload, sealable,
    ArchivedPayload, PayloadArchiveError, PayloadKind, PayloadOpenFailure, SealedPayload,
};
use crate::records::{
    NewRequestLog, PayloadCaptureUpdate, ProxyApiKey, RequestLogUpdate, RequestTiming, UpstreamSecret,
};
use crate::routing::{resolve_route, routed, ResolvedRoute, RoutingMatch};
use crate::text::{chars_of, skip_chars, str_eq, string_from_chars};

verus! {

// ---------------------------------------------------------------- upstream URLs

// The URL that `Url::join` makes of the reference `reference` against the
// base URL whose text is `base`; `None` when either does not parse.
pub uninterp spec fn url_joined(base: Seq<char>, reference: Seq<char>) -> Option<Seq<char>>;

/// `Url::join` on the URL whose text is `base` (a route's base URL, which
/// parses): named `url_joined`, the result taken as text.
#[verifier::external_body]
fn url_join(base: &str, reference: &str) -> (r: Option<String>)
    ensures
        r is Some == url_joined(base@, reference@) is Some,
        r matches Some(u) ==> u@ == url_joined(base@, reference@)->0,
{
    url::Url::parse(base).ok()?.join(reference).ok().map(String::from)
}

/// `s` without its leading slashes (`trim_start_matches('/')`).
pub open spec fn strip_leading_slashes(s: Seq<char>) -> Seq<char>
    decreases s.len(),
{
    if s.len() > 0 && s[0] == '/' {
        strip_leading_slashes(s.drop_first())
    } else {
        s
    }
}

proof fn lemma_strip_step(s: Seq<char>, i: int)
    requires
        0 <= i < s.len(),
        s[i] == '/',
    ensures
        strip_leading_slashes(s.skip(i)) == strip_leading_slashes(s.skip(i + 1)),
{
    assert(s.skip(i).drop_first() =~= s.skip(i + 1));
}

/// The upstream URL of an endpoint path on a route: the path, without its
/// leading slashes, joined to the route's base URL.
pub fn route_url(base_url: &str, path: &str) -> (r: Option<String>)
    ensures
        r is Some == url_joined(base_url@, strip_leading_slashes(path@)) is Some,
        r matches Some(u) ==> u@ == url_joined(base_url@, strip_leading_slashes(path@))->0,
{
    let chars = chars_of(path);
    assert(path@.skip(0) =~= path@);
    let mut i: usize = 0;
    while i < chars.len() && chars[i] == '/'
        invariant
            i <= chars@.len(),
            chars@ == path@,
            strip_leading_slashes(path@) == strip_leading_slashes(path@.skip(i as int)),
        decreases chars.len() - i,
    {
        proof {
            lemma_strip_step(path@, i as int);
        }
        i = i + 1;
    }
    let rest = string_from_chars(skip_chars(chars.as_slice(), i).as_slice());
    assert(rest@ == path@.skip(i as int));
    assert(strip_leading_slashes(path@.skip(i as int)) == path@.skip(i as int));
    url_join(base_url, rest.as_str())
}

// ---------------------------------------------------------------- error replies

/// A refusal: the HTTP status and the `error` object of the JSON reply.
#[derive(Debug, Clone, PartialEq, Eq)]
pub struct ErrorReply {
    pub status: u16,
    pub message: String,
    pub error_type: String,
}

/// Whether `v` is the JSON object `{"error": {"message": .., "type": ..}}`.
pub open spec fn is_error_body(v: JsonValue, message: Seq<char>, error_type: Seq<char>) -> bool {
    &&& v matches JsonValue::Object(top)
    &&& top@.len() == 1
    &&& top@[0].0@ == "error"@
    &&& top@[0].1 matches JsonValue::Object(inner)
    &&& inner@.len() == 2
    &&& inner@[0].0@ == "message"@
    &&& inner@[0].1 matches JsonValue::String(m)
    &&& m@ == message
    &&& inner@[1].0@ == "type"@
    &&& inner@[1].1 matches JsonValue::String(t)
    &&& t@ == error_type
}

/// A JSON string value.
fn json_string(s: &str) -> (r: JsonValue)
    ensures
        r matches JsonValue::String(t) && t@ == s@,
{
    JsonValue::String(s.to_owned())
}

impl ErrorReply {
    /// The reply with the given status, message and error type.
    pub open spec fn is(self, status: u16, message: Seq<char>, error_type: Seq<char>) -> bool {
        self.status == status && self.message@ == message && self.error_type@ == error_type
    }

    /// The JSON body of the reply.
    pub fn body(&self) -> (r: JsonValue)
        ensures
            is_error_body(r, self.message@, self.error_type@),
    {
        proof {
            reveal_strlit("error");
            reveal_strlit("message");
            reveal_strlit("type");
        }
        let mut inner: Vec<(String, JsonValue)> = Vec::new();
        inner.push(("message".to_owned(), json_string(self.message.as_str())));
        inner.push(("type".to_owned(), json_string(self.error_type.as_str())));
        let mut top: Vec<(String, JsonValue)> = Vec::new();
        top.push(("error".to_owned(), JsonValue::Object(inner)));
        JsonValue::Object(top)
    }
}

/// 401: the proxy API key is missing or unknown.
pub fn unauthorized() -> (r: ErrorReply)
    ensures
        r.is(401, "Missing or invalid proxy API key"@, "authentication_error"@),
{
    ErrorReply {
        status: 401,
        message: "Missing or invalid proxy API key".to_owned(),
        error_type: "authentication_error".to_owned(),
    }
}

/// 500: the proxy itself failed.
pub fn internal_error() -> (r: ErrorReply)
    ensures
        r.is(500, "Internal proxy error"@, "proxy_error"@),
{
    ErrorReply {
        status: 500,
        message: "Internal proxy error".to_owned(),
        error_type: "proxy_error".to_owned(),
    }
}

/// 400: the request is not one the proxy can forward.
pub fn bad_request(message: &str) -> (r: ErrorReply)
    ensures
        r.is(400, message@, "invalid_request_error"@),
{
    ErrorReply {
        status: 400,
        message: message.to_owned(),
        error_type: "invalid_request_error".to_owned(),
    }
}

/// 502: the upstream could not be reached or its reply could not be read.
pub fn upstream_unavailable() -> (r: ErrorReply)
    ensures
        r.is(502, "Upstream request failed"@, "upstream_error"@),
{
    ErrorReply {
        status: 502,
        message: "Upstream request failed".to_owned(),
        error_type: "upstream_error".to_owned(),
    }
}

/// The message of a reply about a secret that is not stored.
pub open spec fn secret_missing_message(name: Seq<char>) -> Seq<char> {
    "Upstream secret '"@ + name + "' is not configured"@
}

/// 502: the route's upstream secret is not stored.
pub fn upstream_secret_missing(secret_name: &str) -> (r: ErrorReply)
    ensures
        r.is(502, secret_missing_message(secret_name@), "upstream_secret_missing"@),
{
    let mut message = "Upstream secret '".to_owned();
    crate::text::append_str(&mut message, secret_name);
    crate::text::append_str(&mut message, "' is not configured");
    assert(message@ =~= secret_missing_message(secret_name@));
    ErrorReply { status: 502, message, error_type: "upstream_secret_missing".to_owned() }
}

/// Why a proxy API key was not accepted.
#[derive(Debug, Clone, Copy, PartialEq, Eq)]
pub enum AuthFailure {
    /// No key was presented, or none is stored under its hash.
    Unauthorized,
    /// The key store could not be asked.
    Internal,
}

impl AuthFailure {
    /// The reply to a request whose key was not accepted.
    pub fn reply(self) -> (r: ErrorReply)
        ensures
            self is Unauthorized ==> r.is(
                401,
                "Missing or invalid proxy API key"@,
                "authentication_error"@,
            ),
            self is Internal ==> r.is(500, "Internal proxy error"@, "proxy_error"@),
    {
        match self {
            AuthFailure::Unauthorized => unauthorized(),
            AuthFailure::Internal => internal_error(),
        }
    }
}

/// Why a route's upstream secret could not be had.
#[derive(Debug, Clone, Copy, PartialEq, Eq)]
pub enum SecretLoadError {
    /// No secret is stored under the name.
    Missing,
    /// The store could not be read, or the secret did not decrypt.
    Internal,
}

impl SecretLoadError {
    /// The reply to a request whose route's secret `secret_name` could not
    /// be had.
    pub fn reply(self, secret_name: &str) -> (r: ErrorReply)
        ensures
            self is Missing ==> r.is(
                502,
                secret_missing_message(secret_name@),
                "upstream_secret_missing"@,
            ),
            self is Internal ==> r.is(500, "Internal proxy error"@, "proxy_error"@),
    {
        match self {
            SecretLoadError::Missing => upstream_secret_missing(secret_name),
            SecretLoadError::Internal => internal_error(),
        }
    }
}

/// The plaintext of an upstream secret, decrypted from its stored form; a
/// value that does not decrypt to text is an internal failure.
pub fn decrypt_secret(master_key: &MasterKey, encrypted_value: &[u8], nonce: &[u8]) -> (r: Result<
    String,
    SecretLoadError,
>)
    ensures
        nonce@.len() != crate::crypto::NONCE_BYTES ==> r == Err::<String, SecretLoadError>(
            SecretLoadError::Internal,
        ),
        nonce@.len() == crate::crypto::NONCE_BYTES ==> match crate::crypto::decrypted_text(
            master_key@,
            nonce@,
            encrypted_value@,
        ) {
            Some(t) => r matches Ok(s) && s@ == t,
            None => r == Err::<String, SecretLoadError>(SecretLoadError::Internal),
        },
{
    if nonce.len() != crate::crypto::NONCE_BYTES {
        return Err(SecretLoadError::Internal);
    }
    match master_key.decrypt(encrypted_value, nonce) {
        Ok(s) => Ok(s),
        Err(_) => Err(SecretLoadError::Internal),
    }
}

/// What a lookup of a presented key by its hash decides: the stored key is
/// accepted, a hash that nothing is stored under is refused, and a store that
/// could not be asked is an internal failure.
pub fn key_lookup_outcome(lookup: Result<Option<ProxyApiKey>, ()>) -> (r: Result<
    ProxyApiKey,
    AuthFailure,
>)
    ensures
        match lookup {
            Ok(Some(k)) => r == Ok::<ProxyApiKey, AuthFailure>(k),
            Ok(None) => r == Err::<ProxyApiKey, AuthFailure>(AuthFailure::Unauthorized),
            Err(_) => r == Err::<ProxyApiKey, AuthFailure>(AuthFailure::Internal),
        },
{
    match lookup {
        Ok(Some(k)) => Ok(k),
        Ok(None) => Err(AuthFailure::Unauthorized),
        Err(_) => Err(AuthFailure::Internal),
    }
}

/// The plaintext of a route's upstream secret, from what the secret store
/// answered: a store that could not be read is an internal failure, a name
/// with nothing stored under it is missing, and a stored secret is decrypted.
pub fn stored_secret_plaintext(
    master_key: &MasterKey,
    lookup: Result<Option<UpstreamSecret>, ()>,
) -> (r: Result<String, SecretLoadError>)
    ensures
        lookup is Err ==> r == Err::<String, SecretLoadError>(SecretLoadError::Internal),
        lookup == Ok::<Option<UpstreamSecret>, ()>(None) ==> r == Err::<String, SecretLoadError>(
            SecretLoadError::Missing,
        ),
        lookup matches Ok(Some(s)) ==> {
            &&& s.nonce@.len() != crate::crypto::NONCE_BYTES ==> r == Err::<String, SecretLoadError>(
                SecretLoadError::Internal,
            )
            &&& s.nonce@.len() == crate::crypto::NONCE_BYTES ==> match crate::crypto::decrypted_text(
                master_key@,
                s.nonce@,
                s.encrypted_value@,
            ) {
                Some(t) => r matches Ok(p) && p@ == t,
                None => r == Err::<String, SecretLoadError>(SecretLoadError::Internal),
            }
        },
{
    match lookup {
        Err(_) => Err(SecretLoadError::Internal),
        Ok(None) => Err(SecretLoadError::Missing),
        Ok(Some(secret)) => decrypt_secret(master_key, secret.encrypted_value.as_slice(), secret.nonce.as_slice()),
    }
}

// ---------------------------------------------------------------- completions

/// The model a request body asks for: its `model` member, when a string.
pub open spec fn requested_model_of(body: JsonValue) -> Option<Seq<char>> {
    match json_get(body, "model"@) {
        Some(m) => json_as_str(m),
        None => None,
    }
}

/// Whether a request body asks for a streamed reply: its `stream` member,
/// when a boolean; `false` otherwise.
pub open spec fn stream_requested(body: JsonValue) -> bool {
    match json_get(body, "stream"@) {
        Some(s) => match json_as_bool(s) {
            Some(b) => b,
            None => false,
        },
        None => false,
    }
}

/// Whether `rewritten` is `body` with the value of its first `model` member
/// replaced by the string `model` (a body without one is left as it is).
pub open spec fn model_rewritten(body: JsonValue, rewritten: JsonValue, model: Seq<char>) -> bool {
    match body {
        JsonValue::Object(entries) => match member_index(entries@, "model"@, 0) {
            Some(i) => {
                &&& rewritten matches JsonValue::Object(e)
                &&& e@.len() == entries@.len()
                &&& e@[i].0 == entries@[i].0
                &&& e@[i].1 matches JsonValue::String(s)
                &&& s@ == model
                &&& forall|j: int| 0 <= j < e@.len() && j != i ==> e@[j] == entries@[j]
            },
            None => rewritten == body,
        },
        _ => rewritten == body,
    }
}

/// A request that passed the checks and is ready to be sent upstream.
#[derive(Debug)]
pub struct CompletionPlan {
    /// The endpoint path, such as `/v1/chat/completions`.
    pub endpoint: String,
    /// The model the client asked for.
    pub requested_model: String,
    /// Whether the client asked for a streamed reply.
    pub stream: bool,
    /// The chosen route and the model name sent upstream.
    pub route: ResolvedRoute,
    /// The base URL of the chosen route.
    pub base_url: String,
    /// The name of the stored secret the route authenticates with, if any.
    pub secret_name: Option<String>,
    /// The body to send upstream: the request with its model rewritten.
    pub upstream_body: JsonValue,
}

/// The message of the reply to a body that is not JSON.
pub open spec fn invalid_json_message() -> Seq<char> {
    "Request body must be valid JSON"@
}

/// The message of the reply to a body without a string model.
pub open spec fn missing_model_message() -> Seq<char> {
    "Request body must include a string model field"@
}

/// Checks a completion request and plans its upstream call. `body` is the
/// request body parsed as JSON, `None` when it is not JSON. The body must
/// name its model as a string; the model picks the route (see `routed`),
/// whose configuration must exist; the body sent upstream carries the
/// upstream model name.
pub fn plan_completion(config: &Config, endpoint: &str, body: Option<JsonValue>) -> (r: Result<
    CompletionPlan,
    ErrorReply,
>)
    ensures
        match body {
            None => r matches Err(e) && e.is(400, invalid_json_message(), "invalid_request_error"@),
            Some(b) => match requested_model_of(b) {
                None => r matches Err(e) && e.is(
                    400,
                    missing_model_message(),
                    "invalid_request_error"@,
                ),
                Some(m) => {
                    let (route_name, upstream_model, how) = routed(*config, m);
                    match config.routes.get_spec(route_name) {
                        None => r matches Err(e) && e.is(
                            500,
                            "Internal proxy error"@,
                            "proxy_error"@,
                        ),
                        Some(route) => r matches Ok(p) && {
                            &&& p.endpoint@ == endpoint@
                            &&& p.requested_model@ == m
                            &&& p.stream == stream_requested(b)
                            &&& p.route.route_name@ == route_name
                            &&& p.route.upstream_model@ == upstream_model
                            &&& p.route.routing_match == how
                            &&& p.base_url@ == route.base_url@
                            &&& p.secret_name is Some == route.upstream_api_key is Some
                            &&& (p.secret_name matches Some(s) ==> s@
                                == route.upstream_api_key->0@)
                            &&& model_rewritten(b, p.upstream_body, upstream_model)
                        },
                    }
                },
            },
        },
{
    proof {
        reveal_strlit("Request body must be valid JSON");
        reveal_strlit("Request body must include a string model field");
        reveal_strlit("model");
        reveal_strlit("stream");
    }
    let mut req = match body {
        Some(b) => b,
        None => return Err(bad_request("Request body must be valid JSON")),
    };
    let requested_model: String = match req.get("model") {
        Some(m) => match m.as_str() {
            Some(s) => s.to_owned(),
            None => return Err(bad_request("Request body must include a string model field")),
        },
        None => return Err(bad_request("Request body must include a string model field")),
    };
    let stream: bool = match req.get("stream") {
        Some(s) => match s.as_bool() {
            Some(b) => b,
            None => false,
        },
        None => false,
    };
    let resolved = resolve_route(config, requested_model.as_str());
    let route = match config.routes.get(resolved.route_name.as_str()) {
        Some(route) => route,
        None => return Err(internal_error()),
    };
    let new_model = resolved.upstream_model.clone();
    assert(new_model@ == resolved.upstream_model@);
    let ghost before = req;
    proof {
        if let JsonValue::Object(entries) = before {
            crate::json::lemma_member_index_bounds(entries@, "model"@, 0);
        }
    }
    replace_member(&mut req, "model", JsonValue::String(new_model));
    let secret_name = match &route.upstream_api_key {
        Some(s) => Some(s.clone()),
        None => None,
    };
    Ok(CompletionPlan {
        endpoint: endpoint.to_owned(),
        requested_model,
        stream,
        base_url: route.base_url.clone(),
        secret_name,
        route: resolved,
        upstream_body: req,
    })
}

/// A request with a string model, sent to an accepted configuration, is
/// always planned: its route exists, so it is never refused with the
/// internal error.
pub proof fn accepted_config_routes_every_model(config: Config, body: JsonValue)
    requires
        crate::config::config_problem(config) is None,
        requested_model_of(body) is Some,
    ensures
        config.routes.get_spec(routed(config, requested_model_of(body)->0).0) is Some,
{
    let m = requested_model_of(body)->0;
    crate::routing::resolved_route_exists(config, m);
    crate::names::lemma_has_name_index(config.routes.entries(), routed(config, m).0);
}

/// The record of a planned request, made before it is forwarded.
pub fn completion_request_log(proxy_key_id: &str, plan: &CompletionPlan) -> (r: NewRequestLog)
    ensures
        r.proxy_key_id@ == proxy_key_id@,
        r.endpoint@ == plan.endpoint@,
        r.requested_model matches Some(m) && m@ == plan.requested_model@,
        r.upstream_model matches Some(m) && m@ == plan.route.upstream_model@,
        r.route_name matches Some(n) && n@ == plan.route.route_name@,
        r.routing_match matches Some(h) && h@ == plan.route.routing_match.name(),
        r.stream == plan.stream,
{
    NewRequestLog {
        proxy_key_id: proxy_key_id.to_owned(),
        endpoint: plan.endpoint.clone(),
        requested_model: Some(plan.requested_model.clone()),
        upstream_model: Some(plan.route.upstream_model.clone()),
        route_name: Some(plan.route.route_name.clone()),
        routing_match: Some(plan.route.routing_match.as_str().to_owned()),
        stream: plan.stream,
    }
}

/// How a request authenticates upstream with its route's secret.
#[derive(Debug, Clone, PartialEq, Eq)]
pub enum UpstreamAuth {
    /// `Authorization: Bearer <secret>`.
    Bearer(String),
    /// `x-api-key: <secret>`, the Anthropic messages convention.
    ApiKey(String),
}

/// The endpoint of the Anthropic messages API.
pub open spec fn messages_endpoint() -> Seq<char> {
    "/v1/messages"@
}

/// How a request to `endpoint` carries the secret `api_key` upstream: the
/// messages endpoint sends it as `x-api-key`, the others as a bearer token.
pub fn upstream_auth(endpoint: &str, api_key: String) -> (r: UpstreamAuth)
    ensures
        endpoint@ == messages_endpoint() ==> r == UpstreamAuth::ApiKey(api_key),
        endpoint@ != messages_endpoint() ==> r == UpstreamAuth::Bearer(api_key),
{
    proof {
        reveal_strlit("/v1/messages");
    }
    if str_eq(endpoint, "/v1/messages") {
        UpstreamAuth::ApiKey(api_key)
    } else {
        UpstreamAuth::Bearer(api_key)
    }
}

/// Whether the client's `anthropic-version` header is passed upstream: it
/// is for the messages endpoint.
pub fn forwards_anthropic_version(endpoint: &str) -> (r: bool)
    ensures
        r == (endpoint@ == messages_endpoint()),
{
    proof {
        reveal_strlit("/v1/messages");
    }
    str_eq(endpoint, "/v1/messages")
}

// ---------------------------------------------------------------- payload capture

/// The error recorded when payload capture is switched off.
pub const CAPTURE_DISABLED: &'static str = "payload capture disabled";

/// Why a payload was not archived.
#[derive(Debug)]
pub enum CaptureError {
    /// Payload capture is switched off.
    Disabled,
    /// Compression or encryption failed.
    Archive(PayloadArchiveError),
}

/// Makes a payload ready for its archive when capture is on; with capture
/// on, this succeeds for every payload whose compressed frame is within the
/// cipher's limit.
pub fn capture_payload(
    capture_enabled: bool,
    master_key: &MasterKey,
    request_id: &str,
    kind: PayloadKind,
    payload: &[u8],
) -> (r: Result<SealedPayload, CaptureError>)
    ensures
        !capture_enabled ==> r matches Err(CaptureError::Disabled),
        capture_enabled ==> (r is Ok <==> sealable(payload@)),
        capture_enabled ==> (r matches Err(e) ==> (e matches CaptureError::Archive(
            PayloadArchiveError::Encryption(c),
        ) && c is Encrypt)),
        r matches Ok(s) ==> exists|year: int, month: nat, day: nat, hour: nat|
            {
                &&& 1 <= month <= 12
                &&& 1 <= day <= 31
                &&& hour <= 23
                &&& s.relative_path@ == archive_relative_path(
                    date_text(year, month, day),
                    pad2(hour),
                    kind,
                    request_id@,
                )
            },
        r matches Ok(s) ==> {
            &&& s.archived.relative_path@ == s.relative_path@
            &&& s.archived.raw_bytes == payload@.len()
            &&& s.archived.raw_sha256@ == payload_digest(payload@)
            &&& opened_payload(master_key@, s.contents@) == Ok::<Seq<u8>, PayloadOpenFailure>(
                payload@,
            )
        },
{
    if !capture_enabled {
        return Err(CaptureError::Disabled);
    }
    match seal_payload(master_key, request_id, kind, payload) {
        Ok(s) => Ok(s),
        Err(e) => Err(CaptureError::Archive(e)),
    }
}

/// The capture status recorded for a request: `failed` when an error was
/// recorded, else `complete` when a payload was archived, else `disabled`.
pub open spec fn capture_status(failed: bool, archived: bool) -> Seq<char> {
    if failed {
        "failed"@
    } else if archived {
        "complete"@
    } else {
        "disabled"@
    }
}

/// Whether `path`, `bytes` and `hash` record `archive` (or nothing when
/// there is none).
pub open spec fn records_archive(
    archive: Option<ArchivedPayload>,
    path: Option<String>,
    bytes: Option<u64>,
    hash: Option<String>,
) -> bool {
    match archive {
        Some(a) => {
            &&& path matches Some(p) && p@ == a.relative_path@
            &&& bytes == Some(a.raw_bytes)
            &&& hash matches Some(h) && h@ == a.raw_sha256@
        },
        None => path is None && bytes is None && hash is None,
    }
}

/// The capture record of a request from its archives and capture error.
pub fn payload_capture_update(
    request: Option<ArchivedPayload>,
    response: Option<ArchivedPayload>,
    error: Option<String>,
) -> (u: PayloadCaptureUpdate)
    ensures
        u.status@ == capture_status(error is Some, request is Some || response is Some),
        u.error == error,
        records_archive(request, u.request_path, u.request_bytes, u.request_hash),
        records_archive(response, u.response_path, u.response_bytes, u.response_hash),
{
    proof {
        reveal_strlit("failed");
        reveal_strlit("complete");
        reveal_strlit("disabled");
    }
    let status = if error.is_some() {
        "failed"
    } else if request.is_some() || response.is_some() {
        "complete"
    } else {
        "disabled"
    };
    let (request_path, request_bytes, request_hash) = match request {
        Some(a) => (Some(a.relative_path), Some(a.raw_bytes), Some(a.raw_sha256)),
        None => (None, None, None),
    };
    let (response_path, response_bytes, response_hash) = match response {
        Some(a) => (Some(a.relative_path), Some(a.raw_bytes), Some(a.raw_sha256)),
        None => (None, None, None),
    };
    PayloadCaptureUpdate {
        status: status.to_owned(),
        error,
        request_path,
        response_path,
        request_bytes,
        response_bytes,
        request_hash,
        response_hash,
    }
}

// ---------------------------------------------------------------- outcomes

/// The step at which forwarding a request failed.
#[derive(Debug, Clone, Copy, PartialEq, Eq)]
pub enum UpstreamFailure {
    /// The request could not be sent, or no reply came.
    Request,
    /// The reply's body could not be read.
    Body,
    /// A streamed reply broke off.
    Stream,
}

impl UpstreamFailure {
    /// The error category recorded for the failure.
    pub open spec fn category_spec(self) -> Seq<char> {
        match self {
            UpstreamFailure::Request => "upstream_request"@,
            UpstreamFailure::Body => "upstream_body"@,
            UpstreamFailure::Stream => "upstream_stream"@,
        }
    }

    /// The error category recorded for the failure.
    pub fn category(self) -> (r: &'static str)
        ensures
            r@ == self.category_spec(),
    {
        proof {
            reveal_strlit("upstream_request");
            reveal_strlit("upstream_body");
            reveal_strlit("upstream_stream");
        }
        match self {
            UpstreamFailure::Request => "upstream_request",
            UpstreamFailure::Body => "upstream_body",
            UpstreamFailure::Stream => "upstream_stream",
        }
    }
}

/// What is recorded and answered once an exchange with the upstream is
/// over.
#[derive(Debug)]
pub struct ExchangeRecord {
    /// The capture record of the request's payloads.
    pub capture: PayloadCaptureUpdate,
    /// The outcome record of the request.
    pub log: RequestLogUpdate,
    /// The refusal sent to the client instead of the upstream reply, if any.
    pub reply: Option<ErrorReply>,
}

/// What is recorded and answered when an exchange is over: the payloads
/// archived (or the capture error), the upstream status if one came, the
/// failure if the exchange broke, the duration, and the token usage with
/// the provider's usage JSON. A request that could not be sent or whose
/// reply could not be read is answered 502; otherwise the upstream reply
/// stands (a stream that broke off has already been passed on).
pub fn exchange_record(
    http_status: Option<u16>,
    failure: Option<UpstreamFailure>,
    request: Option<ArchivedPayload>,
    response: Option<ArchivedPayload>,
    capture_error: Option<String>,
    duration_ms: u64,
    timing: RequestTiming,
    usage: Option<crate::tokens::TokenUsage>,
    provider_usage_json: Option<String>,
) -> (r: ExchangeRecord)
    ensures
        r.capture.status@ == capture_status(
            capture_error is Some,
            request is Some || response is Some,
        ),
        r.capture.error == capture_error,
        records_archive(request, r.capture.request_path, r.capture.request_bytes, r.capture.request_hash),
        records_archive(
            response,
            r.capture.response_path,
            r.capture.response_bytes,
            r.capture.response_hash,
        ),
        r.log.http_status == http_status,
        match failure {
            Some(f) => r.log.error_category matches Some(c) && c@ == f.category_spec(),
            None => r.log.error_category is None,
        },
        r.log.duration_ms == Some(duration_ms),
        r.log.upstream_first_byte_ms == timing.upstream_first_byte_ms,
        r.log.time_to_first_token_ms == timing.time_to_first_token_ms,
        r.log.generation_ms == timing.generation_ms,
        r.log.provider_usage_json == provider_usage_json,
        match usage {
            Some(t) => r.log.input_tokens == t.input_tokens && r.log.output_tokens == t.output_tokens
                && r.log.total_tokens == t.total_tokens && r.log.cached_input_tokens
                == t.cached_input_tokens && r.log.reasoning_tokens == t.reasoning_tokens
                && r.log.accepted_prediction_tokens == t.accepted_prediction_tokens
                && r.log.rejected_prediction_tokens == t.rejected_prediction_tokens
                && r.log.token_source == Some(t.token_source),
            None => r.log.input_tokens is None && r.log.output_tokens is None
                && r.log.total_tokens is None && r.log.cached_input_tokens is None
                && r.log.reasoning_tokens is None && r.log.accepted_prediction_tokens is None
                && r.log.rejected_prediction_tokens is None && r.log.token_source is None,
        },
        (failure == Some(UpstreamFailure::Request) || failure == Some(UpstreamFailure::Body)) ==> (
        r.reply matches Some(e) && e.is(502, "Upstream request failed"@, "upstream_error"@)),
        !(failure == Some(UpstreamFailure::Request) || failure == Some(UpstreamFailure::Body))
            ==> r.reply is None,
{
    let capture = payload_capture_update(request, response, capture_error);
    let category = match failure {
        Some(f) => Some(f.category().to_owned()),
        None => None,
    };
    let log = RequestLogUpdate::completed(
        http_status,
        category,
        duration_ms,
        timing,
        usage,
        provider_usage_json,
    );
    let reply = match failure {
        Some(UpstreamFailure::Request) => Some(upstream_unavailable()),
        Some(UpstreamFailure::Body) => Some(upstream_unavailable()),
        _ => None,
    };
    ExchangeRecord { capture, log, reply }
}

// ---------------------------------------------------------------- models

/// The endpoint that lists models.
pub open spec fn models_endpoint() -> Seq<char> {
    "/v1/models"@
}

/// The record of a model listing: made before the upstream is asked, under
/// the default route.
pub fn models_request_log(proxy_key_id: &str, config: &Config) -> (r: NewRequestLog)
    ensures
        r.proxy_key_id@ == proxy_key_id@,
        r.endpoint@ == models_endpoint(),
        r.requested_model is None,
        r.upstream_model is None,
        r.route_name matches Some(n) && n@ == config.default_route@,
        r.routing_match matches Some(h) && h@ == RoutingMatch::Default.name(),
        !r.stream,
{
    proof {
        reveal_strlit("/v1/models");
    }
    NewRequestLog {
        proxy_key_id: proxy_key_id.to_owned(),
        endpoint: "/v1/models".to_owned(),
        requested_model: None,
        upstream_model: None,
        route_name: Some(config.default_route.clone()),
        routing_match: Some(RoutingMatch::Default.as_str().to_owned()),
        stream: false,
    }
}

/// Whether `v` is the listing entry of a configured model:
/// `{"id": id, "object": "model", "created": 0, "owned_by": "llm-proxy"}`.
pub open spec fn is_model_entry(v: JsonValue, id: Seq<char>) -> bool {
    &&& v matches JsonValue::Object(m)
    &&& m@.len() == 4
    &&& m@[0].0@ == "id"@
    &&& m@[0].1 matches JsonValue::String(s) && s@ == id
    &&& m@[1].0@ == "object"@
    &&& m@[1].1 matches JsonValue::String(s) && s@ == "model"@
    &&& m@[2].0@ == "created"@
    &&& m@[2].1 matches JsonValue::Number(JsonNumber::PosInt(n)) && n == 0
    &&& m@[3].0@ == "owned_by"@
    &&& m@[3].1 matches JsonValue::String(s) && s@ == "llm-proxy"@
}

/// The listing entry of a configured model.
pub fn configured_model_entry(id: &str) -> (r: JsonValue)
    ensures
        is_model_entry(r, id@),
{
    proof {
        reveal_strlit("id");
        reveal_strlit("object");
        reveal_strlit("model");
        reveal_strlit("created");
        reveal_strlit("owned_by");
        reveal_strlit("llm-proxy");
    }
    let mut m: Vec<(String, JsonValue)> = Vec::new();
    m.push(("id".to_owned(), json_string(id)));
    m.push(("object".to_owned(), json_string("model")));
    m.push(("created".to_owned(), JsonValue::Number(JsonNumber::PosInt(0))));
    m.push(("owned_by".to_owned(), json_string("llm-proxy")));
    JsonValue::Object(m)
}

/// The models an upstream listing holds: the items of its `data` array, or
/// none when it has no such array.
pub fn upstream_model_data(body: JsonValue) -> (r: Vec<JsonValue>)
    ensures
        match json_get(body, "data"@) {
            Some(JsonValue::Array(items)) => r@ == items@,
            _ => r@.len() == 0,
        },
{
    proof {
        reveal_strlit("data");
    }
    let pos = body.member_position("data");
    match body {
        JsonValue::Object(mut members) => match pos {
            Some(i) => {
                let (_, v) = members.remove(i);
                match v {
                    JsonValue::Array(items) => items,
                    _ => Vec::new(),
                }
            },
            None => Vec::new(),
        },
        _ => Vec::new(),
    }
}

/// A model listing and whether it lacks the upstream's models.
#[derive(Debug)]
pub struct ModelsListing {
    /// `{"object": "list", "data": [...]}`.
    pub body: JsonValue,
    /// The upstream's models could not be had.
    pub partial: bool,
}

/// Whether `data` holds the upstream models, then an entry for each
/// configured model in name order.
pub open spec fn lists_models(
    data: Seq<JsonValue>,
    upstream: Seq<JsonValue>,
    configured: Seq<(String, ModelRoute)>,
) -> bool {
    &&& data.len() == upstream.len() + configured.len()
    &&& forall|i: int| 0 <= i < upstream.len() ==> data[i] == upstream[i]
    &&& forall|j: int|
        0 <= j < configured.len() ==> is_model_entry(
            #[trigger] data[upstream.len() + j],
            configured[j].0@,
        )
}

/// The models of a listing body `{"object": "list", "data": [...]}`;
/// `None` for a body of another shape.
pub open spec fn listing_data(v: JsonValue) -> Option<Seq<JsonValue>> {
    match v {
        JsonValue::Object(top) => if top@.len() == 2 && top@[0].0@ == "object"@ && (
        top@[0].1 matches JsonValue::String(s) && s@ == "list"@) && top@[1].0@ == "data"@ {
            match top@[1].1 {
                JsonValue::Array(d) => Some(d@),
                _ => None,
            }
        } else {
            None
        },
        _ => None,
    }
}

/// The reply of the model listing: the upstream's models (none when they
/// could not be had, and the listing is then partial) followed by the
/// configured models.
pub fn models_listing(upstream: Option<Vec<JsonValue>>, models: &NameMap<ModelRoute>) -> (r:
    ModelsListing)
    ensures
        r.partial == upstream is None,
        listing_data(r.body) matches Some(data) && lists_models(
            data,
            match upstream {
                Some(u) => u@,
                None => Seq::<JsonValue>::empty(),
            },
            models.entries(),
        ),
{
    proof {
        reveal_strlit("object");
        reveal_strlit("list");
        reveal_strlit("data");
    }
    let partial = upstream.is_none();
    let mut data = match upstream {
        Some(u) => u,
        None => Vec::new(),
    };
    let ghost start = data@;
    let configured = models.as_slice();
    let mut j: usize = 0;
    while j < configured.len()
        invariant
            j <= configured@.len(),
            configured@ == models.entries(),
            data@.len() == start.len() + j,
            forall|i: int| 0 <= i < start.len() ==> data@[i] == start[i],
            forall|k: int|
                0 <= k < j ==> is_model_entry(#[trigger] data@[start.len() + k], configured@[k].0@),
        decreases configured.len() - j,
    {
        data.push(configured_model_entry(configured[j].0.as_str()));
        j = j + 1;
    }
    let mut top: Vec<(String, JsonValue)> = Vec::new();
    top.push(("object".to_owned(), json_string("list")));
    top.push(("data".to_owned(), JsonValue::Array(data)));
    ModelsListing { body: JsonValue::Object(top), partial }
}

} // verus!
