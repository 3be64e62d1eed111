use llm_proxy::config::{Config, ModelRoute, RouteConfig};
use llm_proxy::crypto::MasterKey;
use llm_proxy::json::{JsonNumber, JsonValue};
use llm_proxy::payload::{
    archive_path, format_date, format_hour, hash_payload, is_allowed_payload_path, open_payload,
    seal_payload, seal_payload_at, PayloadKind, PayloadReadError,
};
use llm_proxy::records::{ProxyApiKey, RequestTiming, UpstreamSecret};
use llm_proxy::tokens::estimate_token_usage;
use llm_proxy::proxy::{
    capture_payload, completion_request_log, configured_model_entry, decrypt_secret,
    exchange_record, forwards_anthropic_version, key_lookup_outcome, models_listing,
    models_request_log, stored_secret_plaintext,
    payload_capture_update, plan_completion, route_url, unauthorized, upstream_auth,
    upstream_model_data, upstream_secret_missing, AuthFailure, CaptureError, SecretLoadError,
    UpstreamAuth, UpstreamFailure,
};

fn text(s: &str) -> JsonValue {
    JsonValue::String(s.to_owned())
}

fn obj(members: Vec<(&str, JsonValue)>) -> JsonValue {
    JsonValue::Object(
        members
            .into_iter()
            .map(|(k, v)| (k.to_owned(), v))
            .collect(),
    )
}

fn member<'a>(v: &'a JsonValue, key: &str) -> &'a JsonValue {
    v.get(key).expect("member")
}

fn openai_config() -> Config {
    let mut config = Config::default();
    config.routes.insert(
        "openai".to_owned(),
        RouteConfig {
            base_url: "https://api.openai.com/".to_owned(),
            upstream_api_key: Some("openai-prod".to_owned()),
        },
    );
    config.models.insert(
        "gpt-5.5".to_owned(),
        ModelRoute {
            route: "openai".to_owned(),
            upstream_model: Some("gpt-5.5-2026".to_owned()),
        },
    );
    config
}

#[test]
fn archives_payload_to_encrypted_file() {
    let key = MasterKey::generate();

    let sealed = seal_payload(&key, "request-id", PayloadKind::Request, br#"{"hello":"world"}"#)
        .expect("archive payload");

    assert_eq!(sealed.archived.raw_bytes, 17);
    assert!(!sealed.contents.windows(5).any(|window| window == b"hello"));
    assert_eq!(
        open_payload(&key, &sealed.contents).expect("read back"),
        br#"{"hello":"world"}"#.to_vec()
    );
    assert!(sealed.relative_path.ends_with("/req_request-id.zst.enc"));
    assert!(is_allowed_payload_path(&sealed.relative_path));
}

#[test]
fn archive_paths_follow_date_and_hour() {
    assert_eq!(format_date(2026, 4, 30), "2026-04-30");
    assert_eq!(format_date(7, 1, 2), "0007-01-02");
    assert_eq!(format_hour(9), "09");
    assert_eq!(
        archive_path("2026-04-30", "14", PayloadKind::Response, "abc"),
        "2026-04-30/14/res_abc.zst.enc"
    );
    let sealed = seal_payload_at(&MasterKey::generate(), "2026-04-30", "14", "abc", PayloadKind::Request, b"x")
        .expect("seal");
    assert_eq!(sealed.relative_path, "2026-04-30/14/req_abc.zst.enc");
    assert_eq!(sealed.archived.relative_path, sealed.relative_path);
    assert_eq!(sealed.archived.raw_sha256, hash_payload(b"x"));
    assert_eq!(hash_payload(b"").len(), 43);
}

#[test]
fn payload_reads_refuse_bad_paths_and_files() {
    assert!(!is_allowed_payload_path("../secret"));
    assert!(!is_allowed_payload_path("/etc/passwd"));
    assert!(is_allowed_payload_path("2026-04-30/14/req_a.zst.enc"));
    let dotted = archive_path("2026-04-30", "14", PayloadKind::Request, "v1.2");
    assert!(is_allowed_payload_path(&dotted));
    let trailing = archive_path("2026-04-30", "14", PayloadKind::Request, "a.");
    assert!(!is_allowed_payload_path(&trailing));

    let key = MasterKey::generate();
    assert!(matches!(
        open_payload(&key, &[0u8; 24]),
        Err(PayloadReadError::Malformed)
    ));
    assert!(matches!(
        open_payload(&key, &[0u8; 60]),
        Err(PayloadReadError::Decryption(_))
    ));
    let encrypted = key.encrypt_bytes(b"not zstd").expect("encrypt");
    let mut stored = encrypted.nonce.clone();
    stored.extend_from_slice(&encrypted.ciphertext);
    assert!(matches!(
        open_payload(&key, &stored),
        Err(PayloadReadError::Decompression(_))
    ));
}

#[test]
fn payload_kinds_have_names() {
    assert_eq!(PayloadKind::from_name("request"), Some(PayloadKind::Request));
    assert_eq!(PayloadKind::from_name("response"), Some(PayloadKind::Response));
    assert_eq!(PayloadKind::from_name("other"), None);
    assert_eq!(PayloadKind::Response.prefix(), "res");
    assert_eq!(PayloadKind::Request.name(), "request");
}

#[test]
fn completion_plans_rewrite_the_model() {
    let config = openai_config();
    let body = obj(vec![
        ("model", text("gpt-5.5")),
        ("stream", JsonValue::Bool(true)),
        ("messages", JsonValue::Array(vec![])),
    ]);
    let plan = plan_completion(&config, "/v1/chat/completions", Some(body)).expect("plan");
    assert_eq!(plan.requested_model, "gpt-5.5");
    assert!(plan.stream);
    assert_eq!(plan.route.route_name, "openai");
    assert_eq!(plan.base_url, "https://api.openai.com/");
    assert_eq!(plan.secret_name.as_deref(), Some("openai-prod"));
    assert_eq!(member(&plan.upstream_body, "model").as_str(), Some("gpt-5.5-2026"));

    let log = completion_request_log("key-1", &plan);
    assert_eq!(log.endpoint, "/v1/chat/completions");
    assert_eq!(log.requested_model.as_deref(), Some("gpt-5.5"));
    assert_eq!(log.upstream_model.as_deref(), Some("gpt-5.5-2026"));
    assert_eq!(log.routing_match.as_deref(), Some("explicit"));
    assert!(log.stream);

    let unknown = obj(vec![("model", text("local-model"))]);
    let plan = plan_completion(&config, "/v1/responses", Some(unknown)).expect("plan");
    assert_eq!(plan.route.route_name, "local");
    assert!(!plan.stream);
    assert_eq!(plan.secret_name, None);
}

#[test]
fn completion_refusals() {
    let config = openai_config();
    let refusal = plan_completion(&config, "/v1/chat/completions", None).unwrap_err();
    assert_eq!(refusal.status, 400);
    assert_eq!(refusal.message, "Request body must be valid JSON");

    let no_model = obj(vec![("model", JsonValue::Number(JsonNumber::PosInt(3)))]);
    let refusal = plan_completion(&config, "/v1/chat/completions", Some(no_model)).unwrap_err();
    assert_eq!(refusal.status, 400);
    assert_eq!(refusal.message, "Request body must include a string model field");
    assert_eq!(refusal.error_type, "invalid_request_error");

    let mut broken = openai_config();
    broken.models.insert(
        "ghost".to_owned(),
        ModelRoute {
            route: "nowhere".to_owned(),
            upstream_model: None,
        },
    );
    let refusal =
        plan_completion(&broken, "/v1/chat/completions", Some(obj(vec![("model", text("ghost"))])))
            .unwrap_err();
    assert_eq!(refusal.status, 500);

    let reply = unauthorized();
    assert_eq!(reply.status, 401);
    let body = reply.body();
    let error = member(&body, "error");
    assert_eq!(member(error, "type").as_str(), Some("authentication_error"));
    assert_eq!(AuthFailure::Internal.reply().status, 500);
    assert_eq!(
        SecretLoadError::Missing.reply("openai-prod").message,
        "Upstream secret 'openai-prod' is not configured"
    );
    assert_eq!(upstream_secret_missing("x").status, 502);
}

#[test]
fn upstream_requests() {
    assert_eq!(
        route_url("http://localhost:1234/", "/v1/models").as_deref(),
        Some("http://localhost:1234/v1/models")
    );
    assert_eq!(
        route_url("https://api.openai.com/base/", "//v1/chat/completions").as_deref(),
        Some("https://api.openai.com/base/v1/chat/completions")
    );
    assert_eq!(
        upstream_auth("/v1/messages", "k".to_owned()),
        UpstreamAuth::ApiKey("k".to_owned())
    );
    assert_eq!(
        upstream_auth("/v1/chat/completions", "k".to_owned()),
        UpstreamAuth::Bearer("k".to_owned())
    );
    assert!(forwards_anthropic_version("/v1/messages"));
    assert!(!forwards_anthropic_version("/v1/responses"));

    let key = MasterKey::generate();
    let encrypted = key.encrypt("upstream-secret").expect("encrypt");
    assert_eq!(
        decrypt_secret(&key, &encrypted.ciphertext, &encrypted.nonce).ok(),
        Some("upstream-secret".to_owned())
    );
    assert_eq!(
        decrypt_secret(&key, &encrypted.ciphertext, &[0u8; 3]).err(),
        Some(SecretLoadError::Internal)
    );
}

#[test]
fn key_lookup_decides_acceptance() {
    let key = ProxyApiKey {
        id: "k1".to_owned(),
        label: "ci".to_owned(),
        created_at: "2024-01-01".to_owned(),
    };
    assert_eq!(key_lookup_outcome(Ok(Some(key.clone()))).ok(), Some(key));
    assert_eq!(key_lookup_outcome(Ok(None)).err(), Some(AuthFailure::Unauthorized));
    assert_eq!(key_lookup_outcome(Err(())).err(), Some(AuthFailure::Internal));
}

#[test]
fn stored_secret_lookup_outcomes() {
    let key = MasterKey::generate();
    let encrypted = key.encrypt("sk-upstream").expect("encrypt");
    let stored = UpstreamSecret {
        name: "openai".to_owned(),
        encrypted_value: encrypted.ciphertext.clone(),
        nonce: encrypted.nonce.clone(),
        created_at: "t0".to_owned(),
        updated_at: "t1".to_owned(),
    };
    assert_eq!(
        stored_secret_plaintext(&key, Ok(Some(stored))).ok(),
        Some("sk-upstream".to_owned())
    );
    assert_eq!(
        stored_secret_plaintext(&key, Ok(None)).err(),
        Some(SecretLoadError::Missing)
    );
    assert_eq!(
        stored_secret_plaintext(&key, Err(())).err(),
        Some(SecretLoadError::Internal)
    );
    let other = MasterKey::generate();
    let foreign = UpstreamSecret {
        name: "openai".to_owned(),
        encrypted_value: encrypted.ciphertext,
        nonce: encrypted.nonce,
        created_at: "t0".to_owned(),
        updated_at: "t1".to_owned(),
    };
    assert_eq!(
        stored_secret_plaintext(&other, Ok(Some(foreign))).err(),
        Some(SecretLoadError::Internal)
    );
}

#[test]
fn sealing_and_capture_succeed_for_ordinary_payloads() {
    let key = MasterKey::generate();
    assert!(seal_payload(&key, "r1", PayloadKind::Response, b"").is_ok());
    assert!(seal_payload_at(&key, "2026-01-02", "03", "r1", PayloadKind::Request, &[7u8; 4096]).is_ok());
    assert!(capture_payload(true, &key, "r1", PayloadKind::Request, b"{}").is_ok());
}

#[test]
fn capture_records() {
    let key = MasterKey::generate();
    assert!(matches!(
        capture_payload(false, &key, "id", PayloadKind::Request, b"{}"),
        Err(CaptureError::Disabled)
    ));
    let sealed = capture_payload(true, &key, "id", PayloadKind::Request, b"{}").expect("captured");

    let update = payload_capture_update(Some(sealed.archived.clone()), None, None);
    assert_eq!(update.status, "complete");
    assert_eq!(update.request_path, Some(sealed.relative_path.clone()));
    assert_eq!(update.request_bytes, Some(2));
    assert_eq!(update.response_path, None);

    let failed = payload_capture_update(None, None, Some("disk full".to_owned()));
    assert_eq!(failed.status, "failed");
    assert_eq!(failed.error.as_deref(), Some("disk full"));
    assert_eq!(payload_capture_update(None, None, None).status, "disabled");

    let record = exchange_record(
        Some(503),
        Some(UpstreamFailure::Body),
        Some(sealed.archived.clone()),
        None,
        None,
        12,
        RequestTiming::default(),
        None,
        None,
    );
    assert_eq!(record.log.error_category.as_deref(), Some("upstream_body"));
    assert_eq!(record.log.http_status, Some(503));
    assert_eq!(record.log.duration_ms, Some(12));
    assert_eq!(record.log.total_tokens, None);
    assert_eq!(record.capture.status, "complete");
    assert_eq!(record.reply.expect("refused").status, 502);

    let usage = estimate_token_usage("abcd", "abcd");
    let record = exchange_record(
        Some(200),
        None,
        None,
        None,
        Some("payload capture disabled".to_owned()),
        7,
        RequestTiming::default(),
        Some(usage),
        Some("{}".to_owned()),
    );
    assert!(record.reply.is_none());
    assert_eq!(record.log.total_tokens, Some(2));
    assert_eq!(record.log.token_source.as_deref(), Some("estimated_char_heuristic"));
    assert_eq!(record.capture.status, "failed");
    let stream = exchange_record(Some(200), Some(UpstreamFailure::Stream), None, None, None, 1, RequestTiming::default(), None, None);
    assert!(stream.reply.is_none());
    assert_eq!(stream.log.error_category.as_deref(), Some("upstream_stream"));
}

#[test]
fn model_listings() {
    let mut config = Config::default();
    config.models.insert(
        "fast-local".to_owned(),
        ModelRoute {
            route: "local".to_owned(),
            upstream_model: Some("llama".to_owned()),
        },
    );
    let listing = models_listing(None, &config.models);
    assert!(listing.partial);
    let data = member(&listing.body, "data");
    match data {
        JsonValue::Array(items) => {
            assert_eq!(items.len(), 1);
            assert_eq!(member(&items[0], "id").as_str(), Some("fast-local"));
            assert_eq!(member(&items[0], "owned_by").as_str(), Some("llm-proxy"));
        }
        other => panic!("unexpected {other:?}"),
    }
    assert_eq!(member(&listing.body, "object").as_str(), Some("list"));

    let upstream = obj(vec![(
        "data",
        JsonValue::Array(vec![obj(vec![("id", text("remote"))])]),
    )]);
    let models = upstream_model_data(upstream);
    assert_eq!(models.len(), 1);
    let listing = models_listing(Some(models), &config.models);
    assert!(!listing.partial);
    match member(&listing.body, "data") {
        JsonValue::Array(items) => {
            assert_eq!(items.len(), 2);
            assert_eq!(member(&items[0], "id").as_str(), Some("remote"));
            assert_eq!(member(&items[1], "id").as_str(), Some("fast-local"));
        }
        other => panic!("unexpected {other:?}"),
    }
    assert!(upstream_model_data(text("nope")).is_empty());
    assert_eq!(
        member(&configured_model_entry("m"), "object").as_str(),
        Some("model")
    );

    let log = models_request_log("key", &config);
    assert_eq!(log.endpoint, "/v1/models");
    assert_eq!(log.route_name.as_deref(), Some("local"));
    assert_eq!(log.routing_match.as_deref(), Some("default"));
}
