//! Records of the operational database: keys, secrets, request logs and the
//! dashboard's reporting periods.
use vstd::prelude::*;

use crate::tokens::TokenUsage;

verus! {

/// A proxy API key as listed (its hash is never read back).
#[derive(Debug, Clone, PartialEq, Eq)]
pub struct ProxyApiKey {
    pub id: String,
    pub label: String,
    pub created_at: String,
}

/// A key from a `(id, label, created_at)` row.
pub fn proxy_api_key_from_row(row: (String, String, String)) -> (k: ProxyApiKey)
    ensures
        k.id == row.0,
        k.label == row.1,
        k.created_at == row.2,
{
    ProxyApiKey { id: row.0, label: row.1, created_at: row.2 }
}

/// An encrypted upstream secret.
#[derive(Debug, Clone, PartialEq, Eq)]
pub struct UpstreamSecret {
    pub name: String,
    pub encrypted_value: Vec<u8>,
    pub nonce: Vec<u8>,
    pub created_at: String,
    pub updated_at: String,
}

/// What the dashboard shows of an upstream secret: never its value.
#[derive(Debug, Clone, PartialEq, Eq)]
pub struct UpstreamSecretInfo {
    pub name: String,
    pub created_at: String,
    pub updated_at: String,
}

/// A secret from a `(name, encrypted_value, nonce, created_at, updated_at)`
/// row.
pub fn upstream_secret_from_row(row: (String, Vec<u8>, Vec<u8>, String, String)) -> (s: UpstreamSecret)
    ensures
        s.name == row.0,
        s.encrypted_value == row.1,
        s.nonce == row.2,
        s.created_at == row.3,
        s.updated_at == row.4,
{
    UpstreamSecret {
        name: row.0,
        encrypted_value: row.1,
        nonce: row.2,
        created_at: row.3,
        updated_at: row.4,
    }
}

impl UpstreamSecret {
    /// The name and dates of the secret, without the encrypted value.
    pub fn to_info(&self) -> (i: UpstreamSecretInfo)
        ensures
            i.name == self.name,
            i.created_at == self.created_at,
            i.updated_at == self.updated_at,
    {
        UpstreamSecretInfo {
            name: self.name.clone(),
            created_at: self.created_at.clone(),
            updated_at: self.updated_at.clone(),
        }
    }
}

/// A request as first logged, before it is forwarded.
#[derive(Debug, Clone)]
pub struct NewRequestLog {
    pub proxy_key_id: String,
    pub endpoint: String,
    pub requested_model: Option<String>,
    pub upstream_model: Option<String>,
    pub route_name: Option<String>,
    pub routing_match: Option<String>,
    pub stream: bool,
}

/// The outcome of a request: status, timings and token counts.
#[derive(Debug, Clone)]
pub struct RequestLogUpdate {
    pub http_status: Option<u16>,
    pub error_category: Option<String>,
    pub duration_ms: Option<u64>,
    pub upstream_first_byte_ms: Option<u64>,
    pub time_to_first_token_ms: Option<u64>,
    pub generation_ms: Option<u64>,
    pub input_tokens: Option<u64>,
    pub output_tokens: Option<u64>,
    pub total_tokens: Option<u64>,
    pub cached_input_tokens: Option<u64>,
    pub reasoning_tokens: Option<u64>,
    pub accepted_prediction_tokens: Option<u64>,
    pub rejected_prediction_tokens: Option<u64>,
    pub token_source: Option<String>,
    pub provider_usage_json: Option<String>,
}

impl Default for RequestLogUpdate {
    fn default() -> (u: Self)
        ensures
            u.http_status is None,
            u.error_category is None,
            u.duration_ms is None,
            u.upstream_first_byte_ms is None,
            u.time_to_first_token_ms is None,
            u.generation_ms is None,
            u.input_tokens is None,
            u.output_tokens is None,
            u.total_tokens is None,
            u.cached_input_tokens is None,
            u.reasoning_tokens is None,
            u.accepted_prediction_tokens is None,
            u.rejected_prediction_tokens is None,
            u.token_source is None,
            u.provider_usage_json is None,
    {
        RequestLogUpdate {
            http_status: None,
            error_category: None,
            duration_ms: None,
            upstream_first_byte_ms: None,
            time_to_first_token_ms: None,
            generation_ms: None,
            input_tokens: None,
            output_tokens: None,
            total_tokens: None,
            cached_input_tokens: None,
            reasoning_tokens: None,
            accepted_prediction_tokens: None,
            rejected_prediction_tokens: None,
            token_source: None,
            provider_usage_json: None,
        }
    }
}

/// Time from the start of a request to milestones of its response.
#[derive(Debug, Clone, Copy, Default)]
pub struct RequestTiming {
    pub upstream_first_byte_ms: Option<u64>,
    pub time_to_first_token_ms: Option<u64>,
    pub generation_ms: Option<u64>,
}

impl RequestLogUpdate {
    /// The update that records a finished request: its status, error
    /// category, duration, timings, token usage (with its source) and the
    /// provider's usage JSON.
    pub fn completed(
        http_status: Option<u16>,
        error_category: Option<String>,
        duration_ms: u64,
        timing: RequestTiming,
        token_usage: Option<TokenUsage>,
        provider_usage_json: Option<String>,
    ) -> (u: RequestLogUpdate)
        ensures
            u.http_status == http_status,
            u.error_category == error_category,
            u.duration_ms == Some(duration_ms),
            u.upstream_first_byte_ms == timing.upstream_first_byte_ms,
            u.time_to_first_token_ms == timing.time_to_first_token_ms,
            u.generation_ms == timing.generation_ms,
            u.provider_usage_json == provider_usage_json,
            match token_usage {
                Some(t) => u.input_tokens == t.input_tokens && u.output_tokens == t.output_tokens
                    && u.total_tokens == t.total_tokens && u.cached_input_tokens
                    == t.cached_input_tokens && u.reasoning_tokens == t.reasoning_tokens
                    && u.accepted_prediction_tokens == t.accepted_prediction_tokens
                    && u.rejected_prediction_tokens == t.rejected_prediction_tokens
                    && u.token_source == Some(t.token_source),
                None => u.input_tokens is None && u.output_tokens is None && u.total_tokens is None
                    && u.cached_input_tokens is None && u.reasoning_tokens is None
                    && u.accepted_prediction_tokens is None && u.rejected_prediction_tokens is None
                    && u.token_source is None,
            },
    {
        match token_usage {
            Some(t) => RequestLogUpdate {
                http_status,
                error_category,
                duration_ms: Some(duration_ms),
                upstream_first_byte_ms: timing.upstream_first_byte_ms,
                time_to_first_token_ms: timing.time_to_first_token_ms,
                generation_ms: timing.generation_ms,
                input_tokens: t.input_tokens,
                output_tokens: t.output_tokens,
                total_tokens: t.total_tokens,
                cached_input_tokens: t.cached_input_tokens,
                reasoning_tokens: t.reasoning_tokens,
                accepted_prediction_tokens: t.accepted_prediction_tokens,
                rejected_prediction_tokens: t.rejected_prediction_tokens,
                token_source: Some(t.token_source),
                provider_usage_json,
            },
            None => RequestLogUpdate {
                http_status,
                error_category,
                duration_ms: Some(duration_ms),
                upstream_first_byte_ms: timing.upstream_first_byte_ms,
                time_to_first_token_ms: timing.time_to_first_token_ms,
                generation_ms: timing.generation_ms,
                input_tokens: None,
                output_tokens: None,
                total_tokens: None,
                cached_input_tokens: None,
                reasoning_tokens: None,
                accepted_prediction_tokens: None,
                rejected_prediction_tokens: None,
                token_source: None,
                provider_usage_json,
            },
        }
    }
}

/// Where the payloads of a request were archived, or why they were not.
#[derive(Debug, Clone)]
pub struct PayloadCaptureUpdate {
    pub status: String,
    pub error: Option<String>,
    pub request_path: Option<String>,
    pub response_path: Option<String>,
    pub request_bytes: Option<u64>,
    pub response_bytes: Option<u64>,
    pub request_hash: Option<String>,
    pub response_hash: Option<String>,
}

impl Default for PayloadCaptureUpdate {
    fn default() -> (u: Self)
        ensures
            u.status@ == Seq::<char>::empty(),
            u.error is None,
            u.request_path is None,
            u.response_path is None,
            u.request_bytes is None,
            u.response_bytes is None,
            u.request_hash is None,
            u.response_hash is None,
    {
        PayloadCaptureUpdate {
            status: String::new(),
            error: None,
            request_path: None,
            response_path: None,
            request_bytes: None,
            response_bytes: None,
            request_hash: None,
            response_hash: None,
        }
    }
}

/// A row of the request list.
#[derive(Debug, Clone, PartialEq, Eq)]
pub struct RequestSummary {
    pub id: String,
    pub started_at: String,
    pub proxy_key_label: Option<String>,
    pub endpoint: String,
    pub requested_model: Option<String>,
    pub route_name: Option<String>,
    pub http_status: Option<i64>,
    pub duration_ms: Option<i64>,
    pub input_tokens: Option<i64>,
    pub output_tokens: Option<i64>,
    pub total_tokens: Option<i64>,
    pub payload_capture_status: String,
}

/// The request-log columns a [`RequestSummary`] is read from.
pub struct RequestSummaryRow {
    pub id: String,
    pub started_at: String,
    pub label: Option<String>,
    pub endpoint: String,
    pub requested_model: Option<String>,
    pub route_name: Option<String>,
    pub http_status: Option<i64>,
    pub duration_ms: Option<i64>,
    pub input_tokens: Option<i64>,
    pub output_tokens: Option<i64>,
    pub total_tokens: Option<i64>,
    pub payload_capture_status: String,
}

impl RequestSummary {
    /// The summary read from a row: the key label, and every other column
    /// as stored.
    pub fn from_row(row: RequestSummaryRow) -> (s: RequestSummary)
        ensures
            s.id == row.id,
            s.started_at == row.started_at,
            s.proxy_key_label == row.label,
            s.endpoint == row.endpoint,
            s.requested_model == row.requested_model,
            s.route_name == row.route_name,
            s.http_status == row.http_status,
            s.duration_ms == row.duration_ms,
            s.input_tokens == row.input_tokens,
            s.output_tokens == row.output_tokens,
            s.total_tokens == row.total_tokens,
            s.payload_capture_status == row.payload_capture_status,
    {
        RequestSummary {
            id: row.id,
            started_at: row.started_at,
            proxy_key_label: row.label,
            endpoint: row.endpoint,
            requested_model: row.requested_model,
            route_name: row.route_name,
            http_status: row.http_status,
            duration_ms: row.duration_ms,
            input_tokens: row.input_tokens,
            output_tokens: row.output_tokens,
            total_tokens: row.total_tokens,
            payload_capture_status: row.payload_capture_status,
        }
    }
}

/// Everything recorded of one request.
#[derive(Debug, Clone, PartialEq, Eq)]
pub struct RequestDetail {
    pub id: String,
    pub started_at: String,
    pub proxy_key_label: Option<String>,
    pub endpoint: String,
    pub requested_model: Option<String>,
    pub upstream_model: Option<String>,
    pub route_name: Option<String>,
    pub routing_match: Option<String>,
    pub stream: bool,
    pub http_status: Option<i64>,
    pub error_category: Option<String>,
    pub duration_ms: Option<i64>,
    pub time_to_first_token_ms: Option<i64>,
    pub generation_ms: Option<i64>,
    pub input_tokens: Option<i64>,
    pub output_tokens: Option<i64>,
    pub total_tokens: Option<i64>,
    pub cached_input_tokens: Option<i64>,
    pub reasoning_tokens: Option<i64>,
    pub token_source: Option<String>,
    pub provider_usage_json: Option<String>,
    pub payload_capture_status: String,
    pub payload_capture_error: Option<String>,
    pub request_payload_path: Option<String>,
    pub response_payload_path: Option<String>,
    pub request_payload_bytes: Option<i64>,
    pub response_payload_bytes: Option<i64>,
    pub request_payload_hash: Option<String>,
    pub response_payload_hash: Option<String>,
}

/// The request-log columns a [`RequestDetail`] is read from (`stream` is
/// stored as an integer).
pub struct RequestDetailRow {
    pub id: String,
    pub started_at: String,
    pub label: Option<String>,
    pub endpoint: String,
    pub requested_model: Option<String>,
    pub upstream_model: Option<String>,
    pub route_name: Option<String>,
    pub routing_match: Option<String>,
    pub stream: i64,
    pub http_status: Option<i64>,
    pub error_category: Option<String>,
    pub duration_ms: Option<i64>,
    pub time_to_first_token_ms: Option<i64>,
    pub generation_ms: Option<i64>,
    pub input_tokens: Option<i64>,
    pub output_tokens: Option<i64>,
    pub total_tokens: Option<i64>,
    pub cached_input_tokens: Option<i64>,
    pub reasoning_tokens: Option<i64>,
    pub token_source: Option<String>,
    pub provider_usage_json: Option<String>,
    pub payload_capture_status: String,
    pub payload_capture_error: Option<String>,
    pub request_payload_path: Option<String>,
    pub response_payload_path: Option<String>,
    pub request_payload_bytes: Option<i64>,
    pub response_payload_bytes: Option<i64>,
    pub request_payload_hash: Option<String>,
    pub response_payload_hash: Option<String>,
}

impl RequestDetail {
    /// The detail read from a row: the key label, and `stream` true when
    /// the stored integer is not zero; every other column as stored.
    pub fn from_row(row: RequestDetailRow) -> (d: RequestDetail)
        ensures
            d.id == row.id,
            d.started_at == row.started_at,
            d.proxy_key_label == row.label,
            d.endpoint == row.endpoint,
            d.requested_model == row.requested_model,
            d.upstream_model == row.upstream_model,
            d.route_name == row.route_name,
            d.routing_match == row.routing_match,
            d.stream == (row.stream != 0),
            d.http_status == row.http_status,
            d.error_category == row.error_category,
            d.duration_ms == row.duration_ms,
            d.time_to_first_token_ms == row.time_to_first_token_ms,
            d.generation_ms == row.generation_ms,
            d.input_tokens == row.input_tokens,
            d.output_tokens == row.output_tokens,
            d.total_tokens == row.total_tokens,
            d.cached_input_tokens == row.cached_input_tokens,
            d.reasoning_tokens == row.reasoning_tokens,
            d.token_source == row.token_source,
            d.provider_usage_json == row.provider_usage_json,
            d.payload_capture_status == row.payload_capture_status,
            d.payload_capture_error == row.payload_capture_error,
            d.request_payload_path == row.request_payload_path,
            d.response_payload_path == row.response_payload_path,
            d.request_payload_bytes == row.request_payload_bytes,
            d.response_payload_bytes == row.response_payload_bytes,
            d.request_payload_hash == row.request_payload_hash,
            d.response_payload_hash == row.response_payload_hash,
    {
        RequestDetail {
            id: row.id,
            started_at: row.started_at,
            proxy_key_label: row.label,
            endpoint: row.endpoint,
            requested_model: row.requested_model,
            upstream_model: row.upstream_model,
            route_name: row.route_name,
            routing_match: row.routing_match,
            stream: row.stream != 0,
            http_status: row.http_status,
            error_category: row.error_category,
            duration_ms: row.duration_ms,
            time_to_first_token_ms: row.time_to_first_token_ms,
            generation_ms: row.generation_ms,
            input_tokens: row.input_tokens,
            output_tokens: row.output_tokens,
            total_tokens: row.total_tokens,
            cached_input_tokens: row.cached_input_tokens,
            reasoning_tokens: row.reasoning_tokens,
            token_source: row.token_source,
            provider_usage_json: row.provider_usage_json,
            payload_capture_status: row.payload_capture_status,
            payload_capture_error: row.payload_capture_error,
            request_payload_path: row.request_payload_path,
            response_payload_path: row.response_payload_path,
            request_payload_bytes: row.request_payload_bytes,
            response_payload_bytes: row.response_payload_bytes,
            request_payload_hash: row.request_payload_hash,
            response_payload_hash: row.response_payload_hash,
        }
    }
}

// ---------------------------------------------------------------- periods

/// The time range the dashboard reports on.
#[derive(Debug, Clone, Copy, PartialEq, Eq)]
pub enum DashboardPeriod {
    Last24Hours,
    Last7Days,
    Last30Days,
}

impl DashboardPeriod {
    /// The period a `period` query parameter selects: `7d`, `30d`, and the
    /// last 24 hours for anything else.
    pub open spec fn from_query_spec(value: Option<Seq<char>>) -> DashboardPeriod {
        if value == Some("7d"@) {
            DashboardPeriod::Last7Days
        } else if value == Some("30d"@) {
            DashboardPeriod::Last30Days
        } else {
            DashboardPeriod::Last24Hours
        }
    }

    /// The query parameter value of a period.
    pub open spec fn query_text(self) -> Seq<char> {
        match self {
            DashboardPeriod::Last24Hours => "24h"@,
            DashboardPeriod::Last7Days => "7d"@,
            DashboardPeriod::Last30Days => "30d"@,
        }
    }

    /// The period selected by the `period` query parameter.
    pub fn from_query(value: Option<&str>) -> (p: DashboardPeriod)
        ensures
            p == Self::from_query_spec(crate::auth::opt_str_view(value)),
    {
        match value {
            Some(v) => {
                if crate::text::str_eq(v, "7d") {
                    DashboardPeriod::Last7Days
                } else if crate::text::str_eq(v, "30d") {
                    DashboardPeriod::Last30Days
                } else {
                    DashboardPeriod::Last24Hours
                }
            },
            None => DashboardPeriod::Last24Hours,
        }
    }

    /// The `period` query parameter value that selects this period.
    pub fn as_query(self) -> (r: &'static str)
        ensures
            r@ == self.query_text(),
    {
        match self {
            DashboardPeriod::Last24Hours => "24h",
            DashboardPeriod::Last7Days => "7d",
            DashboardPeriod::Last30Days => "30d",
        }
    }

    /// The SQLite `datetime('now', ?)` modifier of the period's start.
    pub fn sqlite_range(self) -> (r: &'static str)
        ensures
            self == DashboardPeriod::Last24Hours ==> r@ == "-24 hours"@,
            self == DashboardPeriod::Last7Days ==> r@ == "-7 days"@,
            self == DashboardPeriod::Last30Days ==> r@ == "-30 days"@,
    {
        match self {
            DashboardPeriod::Last24Hours => "-24 hours",
            DashboardPeriod::Last7Days => "-7 days",
            DashboardPeriod::Last30Days => "-30 days",
        }
    }

    /// The SQL expression grouping requests into chart buckets: quarter
    /// hours over the last 24 hours, days otherwise.
    pub fn bucket_expr(self) -> (r: &'static str)
        ensures
            self == DashboardPeriod::Last24Hours ==> r@ == "strftime('%Y-%m-%d %H:', started_at) || printf('%02d', (CAST(strftime('%M', started_at) AS INTEGER) / 15) * 15)"@,
            self != DashboardPeriod::Last24Hours ==> r@ == "strftime('%Y-%m-%d', started_at)"@,
    {
        match self {
            DashboardPeriod::Last24Hours => {
                "strftime('%Y-%m-%d %H:', started_at) || printf('%02d', (CAST(strftime('%M', started_at) AS INTEGER) / 15) * 15)"
            },
            DashboardPeriod::Last7Days | DashboardPeriod::Last30Days => {
                "strftime('%Y-%m-%d', started_at)"
            },
        }
    }
}

/// A period's query parameter selects that period again.
pub proof fn period_query_round_trip(p: DashboardPeriod)
    ensures
        DashboardPeriod::from_query_spec(Some(p.query_text())) == p,
{
    reveal_strlit("24h");
    reveal_strlit("7d");
    reveal_strlit("30d");
    assert("24h"@ != "7d"@) by {
        assert("24h"@.len() != "7d"@.len());
    }
    assert("24h"@ != "30d"@) by {
        assert("24h"@[0] != "30d"@[0]);
    }
    assert("30d"@ != "7d"@) by {
        assert("30d"@.len() != "7d"@.len());
    }
}

/// Requests counted under one status class.
#[derive(Debug, Clone, PartialEq, Eq)]
pub struct StatusMetric {
    pub label: String,
    pub request_count: i64,
}

} // verus!
