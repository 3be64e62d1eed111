use llm_proxy::auth::AuthState;
use llm_proxy::config::Config;
use llm_proxy::dashboard::{
    auth_status_body, check_key_label, check_secret_form, check_setup_form, content_disposition,
    invalid_password, page_needs_admin, payload_path_for,
};
use llm_proxy::json::JsonValue;
use llm_proxy::records::{
    proxy_api_key_from_row, upstream_secret_from_row, DashboardPeriod, RequestDetail,
    RequestSummary, StatusMetric,
};
use llm_proxy::render::{
    escape_html, escape_option, format_bytes, format_duration, format_option_i64, page,
    payload_link, render_dashboard_head, render_keys_page, render_period_switcher,
    render_dimension_table, render_request_detail_page, render_requests_page, render_status_rows,
    render_overview, render_upstream_secrets_page, totals_scale_fit_check, write_request_row,
    DimensionRow,
    OverviewFigures,
};

fn summary() -> RequestSummary {
    RequestSummary {
        id: "r1".to_owned(),
        started_at: "2026-04-30 14:00:00".to_owned(),
        proxy_key_label: Some("dev <team>".to_owned()),
        endpoint: "/v1/chat/completions".to_owned(),
        requested_model: Some("gpt-5.5".to_owned()),
        route_name: None,
        http_status: Some(200),
        duration_ms: Some(123),
        input_tokens: Some(10),
        output_tokens: Some(5),
        total_tokens: Some(15),
        payload_capture_status: "complete".to_owned(),
    }
}

fn detail() -> RequestDetail {
    RequestDetail {
        id: "r1".to_owned(),
        started_at: "2026-04-30 14:00:00".to_owned(),
        proxy_key_label: None,
        endpoint: "/v1/chat/completions".to_owned(),
        requested_model: Some("gpt-5.5".to_owned()),
        upstream_model: Some("gpt-5.5".to_owned()),
        route_name: Some("openai".to_owned()),
        routing_match: Some("explicit".to_owned()),
        stream: false,
        http_status: Some(200),
        error_category: None,
        duration_ms: Some(40),
        time_to_first_token_ms: None,
        generation_ms: None,
        input_tokens: Some(1),
        output_tokens: Some(2),
        total_tokens: Some(3),
        cached_input_tokens: None,
        reasoning_tokens: None,
        token_source: Some("provider".to_owned()),
        provider_usage_json: Some("{\"total_tokens\":3}".to_owned()),
        payload_capture_status: "complete".to_owned(),
        payload_capture_error: None,
        request_payload_path: Some("2026-04-30/14/req_r1.zst.enc".to_owned()),
        response_payload_path: None,
        request_payload_bytes: Some(17),
        response_payload_bytes: None,
        request_payload_hash: Some("h".to_owned()),
        response_payload_hash: None,
    }
}

#[test]
fn escapes_markup() {
    assert_eq!(
        escape_html("<a href=\"x\">Tom & Jerry's</a>"),
        "&lt;a href=&quot;x&quot;&gt;Tom &amp; Jerry&#39;s&lt;/a&gt;"
    );
    assert_eq!(escape_html("plain text"), "plain text");
    assert_eq!(escape_option(None), "-");
    assert_eq!(escape_option(Some("<")), "&lt;");
    assert_eq!(format_option_i64(Some(-4)), "-4");
    assert_eq!(format_option_i64(None), "-");
    assert_eq!(format_duration(Some(12)), "12 ms");
    assert_eq!(format_duration(None), "-");
    assert_eq!(format_bytes(Some(17)), "17 bytes");
    assert_eq!(format_bytes(None), "unknown size");
}

#[test]
fn pages_wrap_bodies() {
    let html = page("A & B", "<p>x</p>");
    assert!(html.starts_with("<!doctype html>\n<html lang=\"en\">"));
    assert!(html.contains("<title>A &amp; B</title>"));
    assert!(html.ends_with("<main><p>x</p></main>\n</body>\n</html>"));
}

#[test]
fn request_rows_and_pages() {
    let mut row = String::new();
    write_request_row(&mut row, &summary());
    assert_eq!(
        row,
        "<tr><td><a href=\"/requests/r1\">2026-04-30 14:00:00</a></td><td>dev &lt;team&gt;</td><td>/v1/chat/completions</td><td>gpt-5.5</td><td>-</td><td>200</td><td>123 ms</td><td>15</td><td>complete</td></tr>"
    );
    let html = render_requests_page(&[summary()]);
    assert!(html.contains("<h1>Requests</h1>"));
    assert!(html.contains(&row));

    let mut links = String::new();
    payload_link(&mut links, &detail(), "request", Some(17));
    payload_link(&mut links, &detail(), "response", None);
    assert_eq!(
        links,
        "<li><a href=\"/requests/r1/payload/request\">request payload</a> (17 bytes)</li><li>response payload unavailable</li>"
    );

    let html = render_request_detail_page(&detail());
    assert!(html.contains("<h1>Request r1</h1>"));
    assert!(html.contains("<dt>Route</dt><dd>openai</dd>"));
    assert!(html.contains("<pre>{&quot;total_tokens&quot;:3}</pre>"));
    assert!(!html.contains("Capture error"));
}

#[test]
fn key_and_secret_pages() {
    let key = proxy_api_key_from_row(("id".to_owned(), "ci <bot>".to_owned(), "today".to_owned()));
    let html = render_keys_page(&[key], Some("lp_new"));
    assert!(html.contains("<pre>lp_new</pre>"));
    assert!(html.contains("<tr><td>ci &lt;bot&gt;</td><td>today</td></tr>"));

    let secret = upstream_secret_from_row((
        "openai-prod".to_owned(),
        vec![1, 2],
        vec![3],
        "t0".to_owned(),
        "t1".to_owned(),
    ));
    let html = render_upstream_secrets_page(&[secret], Some("Saved"));
    assert!(html.contains("<p>Saved</p>"));
    assert!(html.contains("value=\"openai-prod\""));
    assert!(html.contains("<td>t1</td>"));
}

#[test]
fn dashboard_sections() {
    let mut body = String::new();
    render_period_switcher(&mut body, DashboardPeriod::Last7Days);
    assert_eq!(
        body,
        "<section><h2>Range</h2><p><a href=\"/?period=24h\">24 hours</a> <strong>7 days</strong> <a href=\"/?period=30d\">30 days</a> </p></section>"
    );

    let mut body = String::new();
    render_status_rows(
        &mut body,
        &[StatusMetric {
            label: "2xx".to_owned(),
            request_count: 4,
        }],
    );
    assert!(body.contains("<tr><td>2xx</td><td>4</td></tr>"));

    let mut body = String::new();
    render_dashboard_head(&mut body, &Config::default());
    assert!(body.contains("<dt>Default route</dt><dd>local</dd>"));
}

#[test]
fn dashboard_forms() {
    assert!(page_needs_admin("/"));
    assert!(!page_needs_admin("/setup"));
    assert!(!page_needs_admin("/login"));

    match auth_status_body(Some(AuthState::NeedsSetup)) {
        JsonValue::Object(m) => {
            assert_eq!(m[0].0, "status");
            assert!(matches!(&m[0].1, JsonValue::String(s) if s == "needs_setup"));
        }
        other => panic!("unexpected {other:?}"),
    }
    assert!(matches!(
        auth_status_body(None),
        JsonValue::Object(m) if matches!(&m[0].1, JsonValue::String(s) if s == "unauthenticated")
    ));

    let rejected = check_setup_form(Some("token"), "other", "long enough").unwrap_err();
    assert_eq!(rejected.status, 401);
    assert_eq!(rejected.json, "\"Invalid setup token\"");
    assert!(check_setup_form(None, "token", "long enough").is_err());
    let rejected = check_setup_form(Some("token"), "token", "short").unwrap_err();
    assert_eq!(rejected.status, 400);
    assert_eq!(rejected.json, "\"Password must be at least 8 characters\"");
    assert!(check_setup_form(Some("token"), "token", "12345678").is_ok());
    assert_eq!(invalid_password().status, 401);

    assert_eq!(check_key_label("  ci  ").unwrap(), "ci");
    assert_eq!(check_key_label("   ").unwrap_err().json, "\"Label is required\"");
    assert_eq!(check_secret_form(" openai ", "v").unwrap(), "openai");
    assert_eq!(check_secret_form("openai", "").unwrap_err().status, 400);

    let d = detail();
    assert_eq!(
        payload_path_for(&d, "request").map(String::as_str),
        Some("2026-04-30/14/req_r1.zst.enc")
    );
    assert_eq!(payload_path_for(&d, "response"), None);
    assert_eq!(payload_path_for(&d, "other"), None);
    assert_eq!(
        content_disposition("r1", "request"),
        "attachment; filename=\"r1_request.json\""
    );
}

#[test]
fn periods_round_trip() {
    for period in [
        DashboardPeriod::Last24Hours,
        DashboardPeriod::Last7Days,
        DashboardPeriod::Last30Days,
    ] {
        assert_eq!(DashboardPeriod::from_query(Some(period.as_query())), period);
    }
    assert_eq!(DashboardPeriod::from_query(None), DashboardPeriod::Last24Hours);
    assert_eq!(
        DashboardPeriod::from_query(Some("bogus")),
        DashboardPeriod::Last24Hours
    );
}

fn dimension(label: &str, requests: i64, tokens: i64, speed: &str, ttft: &str) -> DimensionRow {
    DimensionRow {
        label: label.to_owned(),
        request_count: requests,
        total_tokens: tokens,
        tokens_per_second: speed.to_owned(),
        time_to_first_token: ttft.to_owned(),
    }
}

#[test]
fn dimension_table_scales_bars_to_largest_total() {
    let rows = vec![
        dimension("gpt", 2, 50, "1.00", "12 ms"),
        dimension("<x>", 1, 200, "-", "-"),
    ];
    let mut body = String::new();
    render_dimension_table(&mut body, "By model", "Model", &rows);
    assert_eq!(
        body,
        "<section><h2>By model</h2><table><thead><tr><th>Model</th><th>Requests</th>\
         <th>Tokens</th><th>Tokens/sec</th><th>TTFT</th><th></th></tr></thead><tbody>\
         <tr><td>gpt</td><td>2</td><td>50</td><td>1.00</td><td>12 ms</td>\
         <td><div style=\"background:#2563eb;height:0.75rem;width:25%;\"></div></td></tr>\
         <tr><td>&lt;x&gt;</td><td>1</td><td>200</td><td>-</td><td>-</td>\
         <td><div style=\"background:#2563eb;height:0.75rem;width:100%;\"></div></td></tr>\
         </tbody></table></section>"
    );
}

#[test]
fn dimension_bars_are_at_least_one_percent() {
    let rows = vec![dimension("idle", 3, 0, "-", "-"), dimension("busy", 1, 1000, "-", "-")];
    let mut body = String::from("x");
    render_dimension_table(&mut body, "By API key", "API key", &rows);
    assert!(body.starts_with("x<section><h2>By API key</h2>"));
    assert!(body.contains("<td>idle</td><td>3</td><td>0</td><td>-</td><td>-</td><td><div style=\"background:#2563eb;height:0.75rem;width:1%;\">"));
    assert!(body.contains("width:100%;"));

    let mut empty = String::new();
    render_dimension_table(&mut empty, "T", "H", &[]);
    assert_eq!(
        empty,
        "<section><h2>T</h2><table><thead><tr><th>H</th><th>Requests</th><th>Tokens</th>\
         <th>Tokens/sec</th><th>TTFT</th><th></th></tr></thead><tbody></tbody></table></section>"
    );
}

#[test]
fn overview_lists_counts_and_averages() {
    let figures = OverviewFigures {
        request_count: 12,
        total_tokens: 3400,
        input_tokens: 1000,
        output_tokens: 2400,
        avg_duration: "150 ms".to_owned(),
        avg_tokens_per_second: "42.50".to_owned(),
        avg_time_to_first_token: "-".to_owned(),
        error_count: -1,
    };
    let mut body = String::new();
    render_overview(&mut body, &figures);
    assert_eq!(
        body,
        "<section><h2>Overview</h2><dl><dt>Requests</dt><dd>12</dd>\
         <dt>Total tokens</dt><dd>3400</dd><dt>Input tokens</dt><dd>1000</dd>\
         <dt>Output tokens</dt><dd>2400</dd><dt>Average duration</dt><dd>150 ms</dd>\
         <dt>Average tokens/sec</dt><dd>42.50</dd><dt>Average TTFT</dt><dd>-</dd>\
         <dt>Errors</dt><dd>-1</dd></dl></section>"
    );
}

#[test]
fn token_totals_must_scale_to_percent_in_64_bits() {
    assert!(totals_scale_fit_check(&[dimension("a", 1, 5, "-", "-"), dimension("b", 1, -5, "-", "-")]));
    assert!(totals_scale_fit_check(&[dimension("a", 1, i64::MAX / 100, "-", "-")]));
    assert!(!totals_scale_fit_check(&[dimension("a", 1, i64::MAX / 100 + 1, "-", "-")]));
    assert!(!totals_scale_fit_check(&[dimension("a", 1, i64::MIN / 100 - 1, "-", "-")]));
    assert!(totals_scale_fit_check(&[]));
}
