use llm_proxy::auth::{
    admin_auth_state, auth_redirect, bearer_token, generate_proxy_api_key, generate_session_token,
    hash_admin_password, hash_lookup_token, session_cookie, session_token_from_cookie,
    session_token_from_headers, verify_admin_password, AuthState,
};
use llm_proxy::config::{
    config_path_from_dirs, explicit_config_paths, resolve_path_from_base, Config, ConfigError,
    ModelRoute, RouteConfig,
};
use llm_proxy::crypto::{CryptoError, MasterKey};
use llm_proxy::json::{JsonNumber, JsonValue};
use llm_proxy::routing::{resolve_route, RoutingMatch};
use llm_proxy::tokens::{
    estimate_token_usage, estimate_tokens_from_chars, first_stream_usage, sse_data_payloads,
    token_usage_for_response, token_usage_for_stream_response, token_usage_from_provider,
};

fn num(n: u64) -> JsonValue {
    JsonValue::Number(JsonNumber::PosInt(n))
}

fn obj(members: Vec<(&str, JsonValue)>) -> JsonValue {
    JsonValue::Object(
        members
            .into_iter()
            .map(|(k, v)| (k.to_owned(), v))
            .collect(),
    )
}

#[test]
fn token_hash_is_stable_without_revealing_token() {
    let token = "lp_test";

    let hash = hash_lookup_token(token);

    assert_eq!(hash, hash_lookup_token(token));
    assert_ne!(hash, token);
}

#[test]
fn admin_password_hash_round_trips() {
    let hash = hash_admin_password("correct horse").expect("hash password");

    assert!(verify_admin_password("correct horse", &hash));
    assert!(!verify_admin_password("wrong", &hash));
}

#[test]
fn password_hashing_succeeds_with_fresh_salts() {
    let empty = hash_admin_password("").expect("empty password hashes");
    assert!(verify_admin_password("", &empty));
    let first = hash_admin_password("same").expect("hash");
    let second = hash_admin_password("same").expect("hash");
    assert_ne!(first, second);
    assert!(verify_admin_password("same", &first));
    assert!(verify_admin_password("same", &second));
}

#[test]
fn default_config_is_valid() {
    Config::default()
        .validate()
        .expect("default config should validate");
}

#[test]
fn rejects_missing_default_route() {
    let config = Config {
        default_route: "missing".to_owned(),
        ..Config::default()
    };

    assert!(matches!(config.validate(), Err(ConfigError::Invalid(_))));
}

#[test]
fn rejects_model_with_unknown_route() {
    let mut config = Config::default();
    config.models.insert(
        "gpt-5.5".to_owned(),
        ModelRoute {
            route: "openai".to_owned(),
            upstream_model: None,
        },
    );

    assert!(matches!(config.validate(), Err(ConfigError::Invalid(_))));
}

#[test]
fn reload_refuses_routes_whose_secret_is_not_stored() {
    let mut config = Config::default();
    config.routes.insert(
        "openai".to_owned(),
        RouteConfig {
            base_url: "https://api.openai.com/".to_owned(),
            upstream_api_key: Some("openai-prod".to_owned()),
        },
    );
    assert!(config.validate().is_ok());
    match config.validate_for_reload(&[]) {
        Err(ConfigError::Invalid(message)) => assert_eq!(
            message,
            "route 'openai' references missing upstream secret 'openai-prod'"
        ),
        other => panic!("unexpected result {other:?}"),
    }
    assert!(config
        .validate_for_reload(&["other".to_owned(), "openai-prod".to_owned()])
        .is_ok());

    let broken = Config {
        default_route: "missing".to_owned(),
        ..Config::default()
    };
    match broken.validate_for_reload(&[]) {
        Err(ConfigError::Invalid(message)) => {
            assert_eq!(message, "default_route 'missing' does not exist")
        }
        other => panic!("unexpected result {other:?}"),
    }
    assert!(Config::default().validate_for_reload(&[]).is_ok());
}

#[test]
fn validation_messages_name_the_problem() {
    let config = Config {
        default_route: "missing".to_owned(),
        ..Config::default()
    };
    match config.validate() {
        Err(ConfigError::Invalid(message)) => {
            assert_eq!(message, "default_route 'missing' does not exist")
        }
        other => panic!("unexpected result {other:?}"),
    }

    let mut config = Config::default();
    config.routes.insert(
        "ftp".to_owned(),
        RouteConfig {
            base_url: "ftp://example.com/".to_owned(),
            upstream_api_key: None,
        },
    );
    assert!(matches!(config.validate(), Err(ConfigError::Invalid(_))));
}

#[test]
fn config_path_prefers_existing_neighbor() {
    let paths = config_path_from_dirs("/opt/llm", "/home/me", true, true, true);

    assert_eq!(paths.config, "/opt/llm/config.json");
    assert!(!paths.created);
}

#[test]
fn config_path_prefers_existing_home_config_before_creating_neighbor() {
    let paths = config_path_from_dirs("/opt/llm", "/home/me", false, true, true);

    assert_eq!(paths.config, "/home/me/.config/llm-proxy/config.json");
    assert!(!paths.created);
}

#[test]
fn config_path_creates_neighbor_when_no_config_exists_and_exe_dir_is_writable() {
    let paths = config_path_from_dirs("/opt/llm", "/home/me", false, false, true);

    assert_eq!(paths.config, "/opt/llm/config.json");
    assert!(paths.created);
}

#[test]
fn config_path_falls_back_to_home_when_exe_dir_is_read_only() {
    let paths = config_path_from_dirs("/opt/llm", "/home/me", false, false, false);

    assert_eq!(paths.config, "/home/me/.config/llm-proxy/config.json");
    assert!(paths.created);

    let explicit = explicit_config_paths("/etc/llm.json", false);
    assert_eq!(explicit.config, "/etc/llm.json");
    assert!(explicit.created);
}

#[test]
fn load_or_create_resolves_relative_paths_from_config_directory() {
    let mut config = Config::default();
    config.resolve_relative_paths("/srv/llm/config.json");

    assert_eq!(config.database, "/srv/llm/./data/llm-proxy.sqlite");
    assert_eq!(config.payload_dir, "/srv/llm/./data/payloads");
    assert_eq!(config.master_key, "/srv/llm/./data/master.key");
}

#[test]
fn load_or_create_preserves_absolute_paths() {
    let mut config = Config {
        database: "/var/db/absolute.sqlite".to_owned(),
        payload_dir: "/var/db/absolute-payloads".to_owned(),
        master_key: "/var/db/absolute.key".to_owned(),
        ..Config::default()
    };
    config.resolve_relative_paths("/srv/llm/config.json");

    assert_eq!(config.database, "/var/db/absolute.sqlite");
    assert_eq!(config.payload_dir, "/var/db/absolute-payloads");
    assert_eq!(config.master_key, "/var/db/absolute.key");
    assert_eq!(resolve_path_from_base("base", "rel"), "base/rel");
}

#[test]
fn referenced_secrets_are_sorted_and_distinct() {
    let mut config = Config::default();
    config.routes.insert(
        "b".to_owned(),
        RouteConfig {
            base_url: "https://b.example/".to_owned(),
            upstream_api_key: Some("zeta".to_owned()),
        },
    );
    config.routes.insert(
        "a".to_owned(),
        RouteConfig {
            base_url: "https://a.example/".to_owned(),
            upstream_api_key: Some("alpha".to_owned()),
        },
    );
    config.routes.insert(
        "c".to_owned(),
        RouteConfig {
            base_url: "https://c.example/".to_owned(),
            upstream_api_key: Some("zeta".to_owned()),
        },
    );

    assert_eq!(
        config.referenced_upstream_secrets(),
        vec!["alpha".to_owned(), "zeta".to_owned()]
    );
}

#[test]
fn encrypts_and_decrypts_values() {
    let key = MasterKey::generate();

    let encrypted = key.encrypt("secret-value").expect("encrypt");
    let decrypted = key
        .decrypt(&encrypted.ciphertext, &encrypted.nonce)
        .expect("decrypt");

    assert_eq!(decrypted, "secret-value");
    assert_ne!(encrypted.ciphertext, b"secret-value");
}

#[test]
fn ciphertexts_add_the_tag_and_empty_texts_encrypt() {
    let key = MasterKey::generate();
    let encrypted = key.encrypt("héllo").expect("encrypt");
    assert_eq!(encrypted.ciphertext.len(), "héllo".len() + 16);
    assert_eq!(encrypted.nonce.len(), 24);
    let empty = key.encrypt("").expect("empty text encrypts");
    assert_eq!(empty.ciphertext.len(), 16);
    let bytes = key.encrypt_bytes(&[0u8; 100]).expect("bytes encrypt");
    assert_eq!(bytes.ciphertext.len(), 116);
}

#[test]
fn lookup_hashes_are_43_characters() {
    for token in ["", "lp_test", "a much longer token than the hash itself is"] {
        let hash = hash_lookup_token(token);
        assert_eq!(hash.chars().count(), 43);
        assert_ne!(hash, token);
    }
}

#[test]
fn text_that_is_no_phc_string_never_verifies() {
    assert!(!verify_admin_password("secret", "secret"));
    assert!(!verify_admin_password("", ""));
    assert!(!verify_admin_password("x", "argon2id$v=19"));
}

#[test]
fn key_files_hold_url_safe_unpadded_base64() {
    let mut bytes = [0u8; 32];
    bytes[30] = 0xfb;
    bytes[31] = 0xff;
    let key = MasterKey::from_bytes(&bytes).expect("key");
    assert_eq!(key.key_file_contents(), format!("{}-_8\n", "A".repeat(40)));
}

#[test]
fn key_file_round_trips_and_rejects_bad_keys() {
    let key = MasterKey::generate();
    let text = key.key_file_contents();
    assert!(text.ends_with('\n'));
    let again = MasterKey::from_key_file_contents(&text).expect("key file");
    let encrypted = key.encrypt("value").expect("encrypt");
    assert_eq!(
        again
            .decrypt(&encrypted.ciphertext, &encrypted.nonce)
            .expect("decrypt with reloaded key"),
        "value"
    );

    assert!(matches!(
        MasterKey::from_bytes(&[1u8; 31]),
        Err(CryptoError::InvalidKeyLength)
    ));
    assert!(matches!(
        MasterKey::from_key_file_contents("not base64 !!"),
        Err(CryptoError::InvalidKeyEncoding)
    ));
    let other = MasterKey::generate();
    assert!(matches!(
        other.decrypt(&encrypted.ciphertext, &encrypted.nonce),
        Err(CryptoError::Decrypt)
    ));
}

#[test]
fn unknown_model_uses_default_route_unchanged() {
    let config = Config::default();

    let resolved = resolve_route(&config, "unknown-model");

    assert_eq!(resolved.route_name, "local");
    assert_eq!(resolved.upstream_model, "unknown-model");
    assert_eq!(resolved.routing_match, RoutingMatch::Default);
}

#[test]
fn explicit_model_can_rewrite_upstream_model() {
    let mut config = Config::default();
    config.models.insert(
        "fast-local".to_owned(),
        ModelRoute {
            route: "local".to_owned(),
            upstream_model: Some("llama-3.1-8b-instruct".to_owned()),
        },
    );

    let resolved = resolve_route(&config, "fast-local");

    assert_eq!(resolved.route_name, "local");
    assert_eq!(resolved.upstream_model, "llama-3.1-8b-instruct");
    assert_eq!(resolved.routing_match, RoutingMatch::Explicit);
    assert_eq!(resolved.routing_match.as_str(), "explicit");
}

#[test]
fn estimates_with_ceiling() {
    assert_eq!(estimate_tokens_from_chars(""), 0);
    assert_eq!(estimate_tokens_from_chars("a"), 1);
    assert_eq!(estimate_tokens_from_chars("abcd"), 1);
    assert_eq!(estimate_tokens_from_chars("abcde"), 2);
}

#[test]
fn parses_provider_usage_details() {
    let usage = obj(vec![
        ("prompt_tokens", num(10)),
        ("completion_tokens", num(5)),
        ("total_tokens", num(15)),
        ("prompt_tokens_details", obj(vec![("cached_tokens", num(4))])),
        (
            "completion_tokens_details",
            obj(vec![
                ("reasoning_tokens", num(2)),
                ("accepted_prediction_tokens", num(3)),
                ("rejected_prediction_tokens", num(1)),
            ]),
        ),
    ]);

    let parsed = token_usage_from_provider(&usage).expect("provider usage");

    assert_eq!(parsed.input_tokens, Some(10));
    assert_eq!(parsed.output_tokens, Some(5));
    assert_eq!(parsed.total_tokens, Some(15));
    assert_eq!(parsed.cached_input_tokens, Some(4));
    assert_eq!(parsed.reasoning_tokens, Some(2));
    assert_eq!(parsed.accepted_prediction_tokens, Some(3));
    assert_eq!(parsed.rejected_prediction_tokens, Some(1));
}

#[test]
fn provider_usage_derives_total_and_needs_a_count() {
    let usage = obj(vec![("input_tokens", num(5)), ("output_tokens", num(6))]);
    let parsed = token_usage_from_provider(&usage).expect("anthropic usage");
    assert_eq!(parsed.total_tokens, Some(11));
    assert_eq!(parsed.token_source, "provider");
    assert_eq!(parsed.cached_input_tokens, None);

    let empty = obj(vec![("cached_tokens", num(3))]);
    assert!(token_usage_from_provider(&empty).is_none());
}

#[test]
fn estimates_usage_when_the_provider_reports_none() {
    let estimate = estimate_token_usage("abcdefgh", "abcde");
    assert_eq!(estimate.input_tokens, Some(2));
    assert_eq!(estimate.output_tokens, Some(2));
    assert_eq!(estimate.total_tokens, Some(4));
    assert_eq!(estimate.token_source, "estimated_char_heuristic");

    let response = obj(vec![("id", JsonValue::String("x".to_owned()))]);
    let usage = token_usage_for_response("abcd", Some(&response), "abcdefgh").expect("usage");
    assert_eq!(usage.input_tokens, Some(1));
    assert_eq!(usage.output_tokens, Some(2));

    let reported = obj(vec![(
        "usage",
        obj(vec![("prompt_tokens", num(7)), ("completion_tokens", num(1))]),
    )]);
    let usage = token_usage_for_response("abcd", Some(&reported), "x").expect("usage");
    assert_eq!(usage.input_tokens, Some(7));
    assert_eq!(usage.total_tokens, Some(8));
}

#[test]
fn stream_payloads_skip_done_and_blank_events() {
    let body = "data: {\"a\":1}\n\ndata: [DONE]\ndata:   \nevent: x\ndata:{\"b\":2}\r\n";
    let payloads = sse_data_payloads(body);
    assert_eq!(payloads, vec!["{\"a\":1}".to_owned(), "{\"b\":2}".to_owned()]);

    let chunks = vec![
        obj(vec![("usage", JsonValue::Null)]),
        obj(vec![("usage", obj(vec![("total_tokens", num(9))]))]),
    ];
    let usage = first_stream_usage(&chunks).expect("usage chunk");
    assert!(matches!(usage, JsonValue::Object(_)));
}

#[test]
fn stream_usage_prefers_reported_then_estimates() {
    let chunks = vec![
        obj(vec![("usage", JsonValue::Null)]),
        obj(vec![(
            "usage",
            obj(vec![("input_tokens", num(3)), ("output_tokens", num(4))]),
        )]),
    ];
    let (usage, reported) = token_usage_for_stream_response("abcd", &chunks, "\"xyz\"");
    let usage = usage.expect("usage");
    assert_eq!(usage.input_tokens, Some(3));
    assert_eq!(usage.output_tokens, Some(4));
    assert_eq!(usage.total_tokens, Some(7));
    assert_eq!(usage.token_source, "provider");
    assert!(reported.is_some());

    let plain = vec![obj(vec![("id", num(1))])];
    let (usage, reported) = token_usage_for_stream_response("abcdefgh", &plain, "abcd");
    let usage = usage.expect("usage");
    assert_eq!(usage.input_tokens, Some(2));
    assert_eq!(usage.output_tokens, Some(1));
    assert_eq!(usage.total_tokens, Some(3));
    assert_eq!(usage.token_source, "estimated_char_heuristic");
    assert!(reported.is_none());
}

#[test]
fn session_cookies_and_keys() {
    let token = generate_session_token();
    let cookie = session_cookie(&token);
    assert_eq!(
        cookie,
        format!("llm_proxy_session={token}; HttpOnly; SameSite=Lax; Path=/; Max-Age=604800")
    );
    let pair = cookie.split(';').next().expect("cookie pair");
    assert_eq!(session_token_from_cookie(pair), Some(token.clone()));
    let spaced = session_cookie("a b");
    let spaced_pair = spaced.split(';').next().expect("cookie pair");
    assert_eq!(session_token_from_cookie(spaced_pair), Some("a b".to_owned()));
    let trailing = session_cookie("tok ");
    let trailing_pair = trailing.split(';').next().expect("cookie pair");
    assert_eq!(session_token_from_cookie(trailing_pair), Some("tok".to_owned()));
    assert_eq!(
        session_token_from_cookie("theme=dark; llm_proxy_session=abc"),
        Some("abc".to_owned())
    );
    assert_eq!(session_token_from_headers(None), None);
    assert_eq!(
        session_token_from_headers(Some("llm_proxy_session=xyz")),
        Some("xyz".to_owned())
    );

    let key = generate_proxy_api_key();
    assert!(key.starts_with("lp_"));
    assert_ne!(key, generate_proxy_api_key());

    assert_eq!(
        bearer_token(None, Some("Bearer secret")),
        Some("secret".to_owned())
    );
    assert_eq!(
        bearer_token(Some("anthropic"), Some("Bearer secret")),
        Some("anthropic".to_owned())
    );
    assert_eq!(bearer_token(None, Some("Basic abc")), None);
}

#[test]
fn admin_state_and_redirects() {
    assert_eq!(admin_auth_state(false, Some(true)), AuthState::NeedsSetup);
    assert_eq!(admin_auth_state(true, Some(true)), AuthState::Authenticated);
    assert_eq!(admin_auth_state(true, None), AuthState::Unauthenticated);
    assert_eq!(auth_redirect(AuthState::NeedsSetup), Some("/setup"));
    assert_eq!(auth_redirect(AuthState::Unauthenticated), Some("/login"));
    assert_eq!(auth_redirect(AuthState::Authenticated), None);
}
