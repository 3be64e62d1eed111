//! The server-rendered HTML of the dashboard: pages of requests, keys and
//! secrets, and the pieces they are made of. Every text that comes from
//! the database or a form is escaped.
use vstd::prelude::*;

use crate::records::{DashboardPeriod, ProxyApiKey, RequestDetail, RequestSummary, StatusMetric, UpstreamSecret};
use crate::text::{append_str, push_char, push_signed_decimal, signed_decimal};

verus! {

// ---------------------------------------------------------------- escaping

/// The HTML entity a character is written as, or the character itself.
pub open spec fn escape_char(c: char) -> Seq<char> {
    if c == '&' {
        "&amp;"@
    } else if c == '<' {
        "&lt;"@
    } else if c == '>' {
        "&gt;"@
    } else if c == '"' {
        "&quot;"@
    } else if c == '\'' {
        "&#39;"@
    } else {
        seq![c]
    }
}

/// `s` with `&`, `<`, `>`, `"` and `'` written as entities.
pub open spec fn escaped(s: Seq<char>) -> Seq<char>
    decreases s.len(),
{
    if s.len() == 0 {
        Seq::empty()
    } else {
        escaped(s.drop_last()) + escape_char(s.last())
    }
}

/// Appends `value` with `&`, `<`, `>`, `"` and `'` written as entities.
pub fn push_escaped(out: &mut String, value: &str)
    ensures
        final(out)@ == old(out)@ + escaped(value@),
{
    let chars = crate::text::chars_of(value);
    let ghost start = out@;
    let mut i: usize = 0;
    assert(value@.take(0) =~= Seq::<char>::empty());
    while i < chars.len()
        invariant
            i <= chars@.len(),
            chars@ == value@,
            out@ == start + escaped(value@.take(i as int)),
        decreases chars.len() - i,
    {
        let c = chars[i];
        if c == '&' {
            append_str(out, "&amp;");
        } else if c == '<' {
            append_str(out, "&lt;");
        } else if c == '>' {
            append_str(out, "&gt;");
        } else if c == '"' {
            append_str(out, "&quot;");
        } else if c == '\'' {
            append_str(out, "&#39;");
        } else {
            push_char(out, c);
        }
        assert(value@.take(i + 1).drop_last() =~= value@.take(i as int));
        assert(value@.take(i + 1).last() == c);
        i = i + 1;
        assert(out@ =~= start + escaped(value@.take(i as int)));
    }
    assert(value@.take(chars@.len() as int) =~= value@);
}

/// `value` with `&`, `<`, `>`, `"` and `'` written as entities.
pub fn escape_html(value: &str) -> (r: String)
    ensures
        r@ == escaped(value@),
{
    let mut out = String::new();
    push_escaped(&mut out, value);
    assert(out@ =~= escaped(value@));
    out
}

/// Escaped text contains none of the characters that end a text or an
/// attribute value in HTML: it can stand in an element or in a quoted
/// attribute without changing the markup around it.
pub proof fn escaped_text_has_no_markup(s: Seq<char>)
    ensures
        forall|i: int|
            0 <= i < escaped(s).len() ==> {
                let c = #[trigger] escaped(s)[i];
                c != '<' && c != '>' && c != '"' && c != '\''
            },
    decreases s.len(),
{
    reveal_strlit("&amp;");
    reveal_strlit("&lt;");
    reveal_strlit("&gt;");
    reveal_strlit("&quot;");
    reveal_strlit("&#39;");
    if s.len() > 0 {
        escaped_text_has_no_markup(s.drop_last());
        let a = escaped(s.drop_last());
        let b = escape_char(s.last());
        assert(escaped(s) == a + b);
        assert forall|i: int| 0 <= i < escaped(s).len() implies {
            let c = #[trigger] escaped(s)[i];
            c != '<' && c != '>' && c != '"' && c != '\''
        } by {
            if i < a.len() {
                assert(escaped(s)[i] == a[i]);
            } else {
                assert(escaped(s)[i] == b[i - a.len()]);
            }
        }
    }
}

/// Text without the five special characters is written unchanged.
pub proof fn plain_text_is_unchanged(s: Seq<char>)
    requires
        forall|i: int|
            0 <= i < s.len() ==> {
                let c = #[trigger] s[i];
                c != '&' && c != '<' && c != '>' && c != '"' && c != '\''
            },
    ensures
        escaped(s) == s,
    decreases s.len(),
{
    if s.len() > 0 {
        assert forall|i: int| 0 <= i < s.drop_last().len() implies {
            let c = #[trigger] s.drop_last()[i];
            c != '&' && c != '<' && c != '>' && c != '"' && c != '\''
        } by {
            assert(s.drop_last()[i] == s[i]);
        }
        plain_text_is_unchanged(s.drop_last());
        assert(s.last() == s[s.len() - 1]);
        assert(s.drop_last().push(s.last()) =~= s);
        assert(escaped(s.drop_last()) + seq![s.last()] =~= s);
    }
}

// ---------------------------------------------------------------- values

/// An optional text, escaped; `-` when absent.
pub open spec fn option_text(value: Option<Seq<char>>) -> Seq<char> {
    match value {
        Some(v) => escaped(v),
        None => "-"@,
    }
}

/// The view of an optional string.
pub open spec fn opt_view(value: Option<String>) -> Option<Seq<char>> {
    match value {
        Some(v) => Some(v@),
        None => None,
    }
}

/// An optional integer in decimal; `-` when absent.
pub open spec fn option_number_text(value: Option<i64>) -> Seq<char> {
    match value {
        Some(n) => signed_decimal(n as int),
        None => "-"@,
    }
}

/// An optional duration as `<n> ms`; `-` when absent.
pub open spec fn duration_text(value: Option<i64>) -> Seq<char> {
    match value {
        Some(n) => signed_decimal(n as int) + " ms"@,
        None => "-"@,
    }
}

/// An optional size as `<n> bytes`; `unknown size` when absent.
pub open spec fn bytes_text(value: Option<i64>) -> Seq<char> {
    match value {
        Some(n) => signed_decimal(n as int) + " bytes"@,
        None => "unknown size"@,
    }
}

/// Appends an optional text, escaped, or `-`.
fn push_option(out: &mut String, value: &Option<String>)
    ensures
        final(out)@ == old(out)@ + option_text(opt_view(*value)),
{
    match value {
        Some(v) => push_escaped(out, v.as_str()),
        None => append_str(out, "-"),
    }
}

/// An optional text, escaped; `-` when absent.
pub fn escape_option(value: Option<&str>) -> (r: String)
    ensures
        r@ == option_text(match value {
            Some(v) => Some(v@),
            None => None,
        }),
{
    match value {
        Some(v) => escape_html(v),
        None => "-".to_owned(),
    }
}

/// Appends an optional integer, or `-`.
fn push_option_number(out: &mut String, value: Option<i64>)
    ensures
        final(out)@ == old(out)@ + option_number_text(value),
{
    match value {
        Some(n) => push_signed_decimal(out, n),
        None => append_str(out, "-"),
    }
}

/// An optional integer in decimal; `-` when absent.
pub fn format_option_i64(value: Option<i64>) -> (r: String)
    ensures
        r@ == option_number_text(value),
{
    let mut out = String::new();
    push_option_number(&mut out, value);
    assert(out@ =~= option_number_text(value));
    out
}

/// Appends an optional duration, or `-`.
fn push_duration(out: &mut String, value: Option<i64>)
    ensures
        final(out)@ == old(out)@ + duration_text(value),
{
    match value {
        Some(n) => {
            push_signed_decimal(out, n);
            append_str(out, " ms");
            assert(final(out)@ =~= old(out)@ + duration_text(value));
        },
        None => append_str(out, "-"),
    }
}

/// An optional duration as `<n> ms`; `-` when absent.
pub fn format_duration(value: Option<i64>) -> (r: String)
    ensures
        r@ == duration_text(value),
{
    let mut out = String::new();
    push_duration(&mut out, value);
    assert(out@ =~= duration_text(value));
    out
}

/// Appends an optional size, or `unknown size`.
fn push_bytes(out: &mut String, value: Option<i64>)
    ensures
        final(out)@ == old(out)@ + bytes_text(value),
{
    match value {
        Some(n) => {
            push_signed_decimal(out, n);
            append_str(out, " bytes");
            assert(final(out)@ =~= old(out)@ + bytes_text(value));
        },
        None => append_str(out, "unknown size"),
    }
}

/// An optional size as `<n> bytes`; `unknown size` when absent.
pub fn format_bytes(value: Option<i64>) -> (r: String)
    ensures
        r@ == bytes_text(value),
{
    let mut out = String::new();
    push_bytes(&mut out, value);
    assert(out@ =~= bytes_text(value));
    out
}

// ---------------------------------------------------------------- pages

/// A complete HTML document with the escaped `title` and the markup `body`.
pub open spec fn page_html(title: Seq<char>, body: Seq<char>) -> Seq<char> {
    "<!doctype html>\n<html lang=\"en\">\n<head>\n  <meta charset=\"utf-8\">\n  <meta name=\"viewport\" content=\"width=device-width, initial-scale=1\">\n  <title>"@
        + escaped(title) + "</title>\n</head>\n<body>\n  <main>"@ + body
        + "</main>\n</body>\n</html>"@
}

/// A complete HTML document with the escaped `title` and the markup `body`.
pub fn page(title: &str, body: &str) -> (r: String)
    ensures
        r@ == page_html(title@, body@),
{
    let mut out = String::new();
    append_str(
        &mut out,
        "<!doctype html>\n<html lang=\"en\">\n<head>\n  <meta charset=\"utf-8\">\n  <meta name=\"viewport\" content=\"width=device-width, initial-scale=1\">\n  <title>",
    );
    push_escaped(&mut out, title);
    append_str(&mut out, "</title>\n</head>\n<body>\n  <main>");
    append_str(&mut out, body);
    append_str(&mut out, "</main>\n</body>\n</html>");
    assert(out@ =~= page_html(title@, body@));
    out
}

/// The row of a request in the request list.
pub open spec fn request_row_html(r: RequestSummary) -> Seq<char> {
    "<tr><td><a href=\"/requests/"@ + escaped(r.id@) + "\">"@ + escaped(r.started_at@)
        + "</a></td><td>"@ + option_text(opt_view(r.proxy_key_label)) + "</td><td>"@ + escaped(
        r.endpoint@,
    ) + "</td><td>"@ + option_text(opt_view(r.requested_model)) + "</td><td>"@ + option_text(
        opt_view(r.route_name),
    ) + "</td><td>"@ + option_number_text(r.http_status) + "</td><td>"@ + duration_text(
        r.duration_ms,
    ) + "</td><td>"@ + option_number_text(r.total_tokens) + "</td><td>"@ + escaped(
        r.payload_capture_status@,
    ) + "</td></tr>"@
}

/// Appends the row of a request in the request list.
#[verifier::rlimit(60)]
pub fn write_request_row(body: &mut String, request: &RequestSummary)
    ensures
        final(body)@ == old(body)@ + request_row_html(*request),
{
    append_str(body, "<tr><td><a href=\"/requests/");
    push_escaped(body, request.id.as_str());
    append_str(body, "\">");
    push_escaped(body, request.started_at.as_str());
    append_str(body, "</a></td><td>");
    push_option(body, &request.proxy_key_label);
    append_str(body, "</td><td>");
    push_escaped(body, request.endpoint.as_str());
    append_str(body, "</td><td>");
    push_option(body, &request.requested_model);
    append_str(body, "</td><td>");
    push_option(body, &request.route_name);
    append_str(body, "</td><td>");
    push_option_number(body, request.http_status);
    append_str(body, "</td><td>");
    push_duration(body, request.duration_ms);
    append_str(body, "</td><td>");
    push_option_number(body, request.total_tokens);
    append_str(body, "</td><td>");
    push_escaped(body, request.payload_capture_status.as_str());
    append_str(body, "</td></tr>");
    assert(final(body)@ =~= old(body)@ + request_row_html(*request));
}

/// The head of the request table.
pub open spec fn requests_table_head() -> Seq<char> {
    "<table>\n<thead>\n<tr><th>Started</th><th>Key</th><th>Endpoint</th><th>Model</th><th>Route</th><th>Status</th><th>Duration</th><th>Tokens</th><th>Payload</th></tr>\n</thead>\n<tbody>"@
}

/// The rows of a list of requests.
pub open spec fn request_rows_html(requests: Seq<RequestSummary>) -> Seq<char>
    decreases requests.len(),
{
    if requests.len() == 0 {
        Seq::empty()
    } else {
        request_rows_html(requests.drop_last()) + request_row_html(requests.last())
    }
}

/// The body of the request list page.
pub open spec fn requests_body_html(requests: Seq<RequestSummary>) -> Seq<char> {
    "<h1>Requests</h1>"@ + requests_table_head() + request_rows_html(requests)
        + "</tbody></table><p><a href=\"/\">Dashboard</a></p>"@
}

/// The request list page.
pub fn render_requests_page(requests: &[RequestSummary]) -> (r: String)
    ensures
        r@ == page_html("Requests"@, requests_body_html(requests@)),
{
    let mut body = String::new();
    append_str(&mut body, "<h1>Requests</h1>");
    append_str(
        &mut body,
        "<table>\n<thead>\n<tr><th>Started</th><th>Key</th><th>Endpoint</th><th>Model</th><th>Route</th><th>Status</th><th>Duration</th><th>Tokens</th><th>Payload</th></tr>\n</thead>\n<tbody>",
    );
    let ghost start = body@;
    let mut i: usize = 0;
    assert(requests@.take(0) =~= Seq::<RequestSummary>::empty());
    while i < requests.len()
        invariant
            i <= requests@.len(),
            body@ == start + request_rows_html(requests@.take(i as int)),
        decreases requests.len() - i,
    {
        write_request_row(&mut body, &requests[i]);
        assert(requests@.take(i + 1).drop_last() =~= requests@.take(i as int));
        i = i + 1;
        assert(body@ =~= start + request_rows_html(requests@.take(i as int)));
    }
    assert(requests@.take(requests@.len() as int) =~= requests@);
    append_str(&mut body, "</tbody></table><p><a href=\"/\">Dashboard</a></p>");
    assert(body@ =~= requests_body_html(requests@));
    page("Requests", body.as_str())
}

/// Whether a request has a stored payload of the kind a link names.
pub open spec fn has_payload(request: RequestDetail, kind: Seq<char>) -> bool {
    if kind == "request"@ {
        request.request_payload_path is Some
    } else if kind == "response"@ {
        request.response_payload_path is Some
    } else {
        false
    }
}

/// The list item for one payload of a request: a download link with the
/// payload's size, or a note that it is unavailable.
pub open spec fn payload_link_html(request: RequestDetail, kind: Seq<char>, bytes: Option<i64>) -> Seq<
    char,
> {
    if has_payload(request, kind) {
        "<li><a href=\"/requests/"@ + escaped(request.id@) + "/payload/"@ + kind + "\">"@ + kind
            + " payload</a> ("@ + bytes_text(bytes) + ")</li>"@
    } else {
        "<li>"@ + kind + " payload unavailable</li>"@
    }
}

/// Appends the list item for one payload of a request.
pub fn payload_link(body: &mut String, request: &RequestDetail, kind: &str, bytes: Option<i64>)
    ensures
        final(body)@ == old(body)@ + payload_link_html(*request, kind@, bytes),
{
    proof {
        reveal_strlit("request");
        reveal_strlit("response");
    }
    let present = if crate::text::str_eq(kind, "request") {
        request.request_payload_path.is_some()
    } else if crate::text::str_eq(kind, "response") {
        request.response_payload_path.is_some()
    } else {
        false
    };
    if present {
        append_str(body, "<li><a href=\"/requests/");
        push_escaped(body, request.id.as_str());
        append_str(body, "/payload/");
        append_str(body, kind);
        append_str(body, "\">");
        append_str(body, kind);
        append_str(body, " payload</a> (");
        push_bytes(body, bytes);
        append_str(body, ")</li>");
    } else {
        append_str(body, "<li>");
        append_str(body, kind);
        append_str(body, " payload unavailable</li>");
    }
    assert(final(body)@ =~= old(body)@ + payload_link_html(*request, kind@, bytes));
}

/// The first half of the description list of a request's detail page:
/// where the request went.
pub open spec fn detail_facts_html(r: RequestDetail) -> Seq<char> {
    "<h1>Request "@ + escaped(r.id@) + "</h1><dl><dt>Started</dt><dd>"@ + escaped(r.started_at@)
        + "</dd><dt>API key</dt><dd>"@ + option_text(opt_view(r.proxy_key_label))
        + "</dd><dt>Endpoint</dt><dd>"@ + escaped(r.endpoint@)
        + "</dd><dt>Requested model</dt><dd>"@ + option_text(opt_view(r.requested_model))
        + "</dd><dt>Upstream model</dt><dd>"@ + option_text(opt_view(r.upstream_model))
        + "</dd><dt>Route</dt><dd>"@ + option_text(opt_view(r.route_name))
}

/// The second half of the description list of a request's detail page:
/// how the request went.
pub open spec fn detail_counts_html(r: RequestDetail) -> Seq<char> {
    "</dd><dt>Status</dt><dd>"@ + option_number_text(r.http_status)
        + "</dd><dt>Duration</dt><dd>"@ + duration_text(r.duration_ms)
        + "</dd><dt>Token source</dt><dd>"@ + option_text(opt_view(r.token_source))
        + "</dd><dt>Input tokens</dt><dd>"@ + option_number_text(r.input_tokens)
        + "</dd><dt>Output tokens</dt><dd>"@ + option_number_text(r.output_tokens)
        + "</dd><dt>Total tokens</dt><dd>"@ + option_number_text(r.total_tokens)
        + "</dd><dt>Payload capture</dt><dd>"@ + escaped(r.payload_capture_status@) + "</dd></dl>"@
}

/// The description list of a request's detail page.
pub open spec fn detail_list_html(r: RequestDetail) -> Seq<char> {
    detail_facts_html(r) + detail_counts_html(r)
}

/// The body of a request's detail page: its description list, its payload
/// links, its capture error and its provider usage when there are any.
pub open spec fn detail_body_html(r: RequestDetail) -> Seq<char> {
    detail_list_html(r) + "<h2>Payloads</h2><ul>"@ + payload_link_html(
        r,
        "request"@,
        r.request_payload_bytes,
    ) + payload_link_html(r, "response"@, r.response_payload_bytes) + "</ul>"@ + match opt_view(
        r.payload_capture_error,
    ) {
        Some(e) => "<p>Capture error: "@ + escaped(e) + "</p>"@,
        None => Seq::empty(),
    } + match opt_view(r.provider_usage_json) {
        Some(u) => "<h2>Provider usage</h2><pre>"@ + escaped(u) + "</pre>"@,
        None => Seq::empty(),
    } + "<p><a href=\"/requests\">Requests</a></p>"@
}

/// Appends the first half of the description list of a request.
#[verifier::rlimit(60)]
fn write_detail_facts(body: &mut String, request: &RequestDetail)
    ensures
        final(body)@ == old(body)@ + detail_facts_html(*request),
{
    append_str(body, "<h1>Request ");
    push_escaped(body, request.id.as_str());
    append_str(body, "</h1><dl><dt>Started</dt><dd>");
    push_escaped(body, request.started_at.as_str());
    append_str(body, "</dd><dt>API key</dt><dd>");
    push_option(body, &request.proxy_key_label);
    append_str(body, "</dd><dt>Endpoint</dt><dd>");
    push_escaped(body, request.endpoint.as_str());
    append_str(body, "</dd><dt>Requested model</dt><dd>");
    push_option(body, &request.requested_model);
    append_str(body, "</dd><dt>Upstream model</dt><dd>");
    push_option(body, &request.upstream_model);
    append_str(body, "</dd><dt>Route</dt><dd>");
    push_option(body, &request.route_name);
    assert(final(body)@ =~= old(body)@ + detail_facts_html(*request));
}

/// Appends the second half of the description list of a request.
#[verifier::rlimit(60)]
fn write_detail_counts(body: &mut String, request: &RequestDetail)
    ensures
        final(body)@ == old(body)@ + detail_counts_html(*request),
{
    append_str(body, "</dd><dt>Status</dt><dd>");
    push_option_number(body, request.http_status);
    append_str(body, "</dd><dt>Duration</dt><dd>");
    push_duration(body, request.duration_ms);
    append_str(body, "</dd><dt>Token source</dt><dd>");
    push_option(body, &request.token_source);
    append_str(body, "</dd><dt>Input tokens</dt><dd>");
    push_option_number(body, request.input_tokens);
    append_str(body, "</dd><dt>Output tokens</dt><dd>");
    push_option_number(body, request.output_tokens);
    append_str(body, "</dd><dt>Total tokens</dt><dd>");
    push_option_number(body, request.total_tokens);
    append_str(body, "</dd><dt>Payload capture</dt><dd>");
    push_escaped(body, request.payload_capture_status.as_str());
    append_str(body, "</dd></dl>");
    assert(final(body)@ =~= old(body)@ + detail_counts_html(*request));
}

/// Appends the description list of a request's detail page.
fn write_detail_list(body: &mut String, request: &RequestDetail)
    ensures
        final(body)@ == old(body)@ + detail_list_html(*request),
{
    write_detail_facts(body, request);
    write_detail_counts(body, request);
    assert(final(body)@ =~= old(body)@ + detail_list_html(*request));
}

/// A request's detail page.
pub fn render_request_detail_page(request: &RequestDetail) -> (r: String)
    ensures
        r@ == page_html("Request Detail"@, detail_body_html(*request)),
{
    let mut body = String::new();
    write_detail_list(&mut body, request);
    append_str(&mut body, "<h2>Payloads</h2><ul>");
    payload_link(&mut body, request, "request", request.request_payload_bytes);
    payload_link(&mut body, request, "response", request.response_payload_bytes);
    append_str(&mut body, "</ul>");
    let ghost before_error = body@;
    match &request.payload_capture_error {
        Some(error) => {
            append_str(&mut body, "<p>Capture error: ");
            push_escaped(&mut body, error.as_str());
            append_str(&mut body, "</p>");
        },
        None => {},
    }
    let ghost before_usage = body@;
    match &request.provider_usage_json {
        Some(usage) => {
            append_str(&mut body, "<h2>Provider usage</h2><pre>");
            push_escaped(&mut body, usage.as_str());
            append_str(&mut body, "</pre>");
        },
        None => {},
    }
    append_str(&mut body, "<p><a href=\"/requests\">Requests</a></p>");
    assert(body@ =~= detail_body_html(*request));
    page("Request Detail", body.as_str())
}

/// The rows of the key list.
pub open spec fn key_rows_html(keys: Seq<ProxyApiKey>) -> Seq<char>
    decreases keys.len(),
{
    if keys.len() == 0 {
        Seq::empty()
    } else {
        key_rows_html(keys.drop_last()) + "<tr><td>"@ + escaped(keys.last().label@) + "</td><td>"@
            + escaped(keys.last().created_at@) + "</td></tr>"@
    }
}

/// The form and table head of the key page.
pub open spec fn keys_form_html() -> Seq<char> {
    "\n<form method=\"post\" action=\"/keys\">\n  <label>Label <input name=\"label\" required></label>\n  <button type=\"submit\">Create key</button>\n</form>\n<table>\n  <thead><tr><th>Label</th><th>Created</th></tr></thead>\n  <tbody>\n"@
}

/// The body of the key page: a freshly created key shown once, the form
/// that creates keys, and the list of keys.
pub open spec fn keys_body_html(keys: Seq<ProxyApiKey>, new_key: Option<Seq<char>>) -> Seq<char> {
    "<h1>Proxy API keys</h1>"@ + match new_key {
        Some(t) => "<p>New key. This is shown once:</p><pre>"@ + escaped(t) + "</pre>"@,
        None => Seq::empty(),
    } + keys_form_html() + key_rows_html(keys) + "</tbody></table><p><a href=\"/\">Dashboard</a></p>"@
}

/// The key page.
pub fn render_keys_page(keys: &[ProxyApiKey], new_key: Option<&str>) -> (r: String)
    ensures
        r@ == page_html(
            "API Keys"@,
            keys_body_html(
                keys@,
                match new_key {
                    Some(t) => Some(t@),
                    None => None,
                },
            ),
        ),
{
    let mut body = String::new();
    append_str(&mut body, "<h1>Proxy API keys</h1>");
    match new_key {
        Some(token) => {
            append_str(&mut body, "<p>New key. This is shown once:</p><pre>");
            push_escaped(&mut body, token);
            append_str(&mut body, "</pre>");
        },
        None => {},
    }
    append_str(
        &mut body,
        "\n<form method=\"post\" action=\"/keys\">\n  <label>Label <input name=\"label\" required></label>\n  <button type=\"submit\">Create key</button>\n</form>\n<table>\n  <thead><tr><th>Label</th><th>Created</th></tr></thead>\n  <tbody>\n",
    );
    let ghost start = body@;
    let mut i: usize = 0;
    assert(keys@.take(0) =~= Seq::<ProxyApiKey>::empty());
    while i < keys.len()
        invariant
            i <= keys@.len(),
            body@ == start + key_rows_html(keys@.take(i as int)),
        decreases keys.len() - i,
    {
        append_str(&mut body, "<tr><td>");
        push_escaped(&mut body, keys[i].label.as_str());
        append_str(&mut body, "</td><td>");
        push_escaped(&mut body, keys[i].created_at.as_str());
        append_str(&mut body, "</td></tr>");
        assert(keys@.take(i + 1).drop_last() =~= keys@.take(i as int));
        i = i + 1;
        assert(body@ =~= start + key_rows_html(keys@.take(i as int)));
    }
    assert(keys@.take(keys@.len() as int) =~= keys@);
    append_str(&mut body, "</tbody></table><p><a href=\"/\">Dashboard</a></p>");
    assert(body@ =~= keys_body_html(
        keys@,
        match new_key {
            Some(t) => Some(t@),
            None => None,
        },
    ));
    page("API Keys", body.as_str())
}

/// The row of one secret: its name, when it was last updated, and a form
/// that deletes it.
pub open spec fn secret_row_html(s: UpstreamSecret) -> Seq<char> {
    "<tr>\n<td>"@ + escaped(s.name@) + "</td>\n<td>"@ + escaped(s.updated_at@)
        + "</td>\n<td>\n  <form method=\"post\" action=\"/upstream-secrets/delete\">\n    <input type=\"hidden\" name=\"name\" value=\""@
        + escaped(s.name@)
        + "\">\n    <button type=\"submit\">Delete</button>\n  </form>\n</td>\n</tr>"@
}

/// The rows of the secret list.
pub open spec fn secret_rows_html(secrets: Seq<UpstreamSecret>) -> Seq<char>
    decreases secrets.len(),
{
    if secrets.len() == 0 {
        Seq::empty()
    } else {
        secret_rows_html(secrets.drop_last()) + secret_row_html(secrets.last())
    }
}

/// The form and table head of the secret page.
pub open spec fn secrets_form_html() -> Seq<char> {
    "\n<form method=\"post\" action=\"/upstream-secrets\">\n  <label>Name <input name=\"name\" required></label>\n  <label>API key <input name=\"value\" type=\"password\" required></label>\n  <button type=\"submit\">Save secret</button>\n</form>\n<table>\n  <thead><tr><th>Name</th><th>Updated</th><th></th></tr></thead>\n  <tbody>\n"@
}

/// The body of the secret page: a message if there is one, the form that
/// stores secrets, and the list of secrets (never their values).
pub open spec fn secrets_body_html(secrets: Seq<UpstreamSecret>, message: Option<Seq<char>>) -> Seq<
    char,
> {
    "<h1>Upstream secrets</h1>"@ + match message {
        Some(m) => "<p>"@ + escaped(m) + "</p>"@,
        None => Seq::empty(),
    } + secrets_form_html() + secret_rows_html(secrets)
        + "</tbody></table><p><a href=\"/\">Dashboard</a></p>"@
}

/// The secret page.
pub fn render_upstream_secrets_page(secrets: &[UpstreamSecret], message: Option<&str>) -> (r: String)
    ensures
        r@ == page_html(
            "Upstream Secrets"@,
            secrets_body_html(
                secrets@,
                match message {
                    Some(m) => Some(m@),
                    None => None,
                },
            ),
        ),
{
    let mut body = String::new();
    append_str(&mut body, "<h1>Upstream secrets</h1>");
    match message {
        Some(m) => {
            append_str(&mut body, "<p>");
            push_escaped(&mut body, m);
            append_str(&mut body, "</p>");
        },
        None => {},
    }
    append_str(
        &mut body,
        "\n<form method=\"post\" action=\"/upstream-secrets\">\n  <label>Name <input name=\"name\" required></label>\n  <label>API key <input name=\"value\" type=\"password\" required></label>\n  <button type=\"submit\">Save secret</button>\n</form>\n<table>\n  <thead><tr><th>Name</th><th>Updated</th><th></th></tr></thead>\n  <tbody>\n",
    );
    let ghost start = body@;
    let mut i: usize = 0;
    assert(secrets@.take(0) =~= Seq::<UpstreamSecret>::empty());
    while i < secrets.len()
        invariant
            i <= secrets@.len(),
            body@ == start + secret_rows_html(secrets@.take(i as int)),
        decreases secrets.len() - i,
    {
        let s = &secrets[i];
        append_str(&mut body, "<tr>\n<td>");
        push_escaped(&mut body, s.name.as_str());
        append_str(&mut body, "</td>\n<td>");
        push_escaped(&mut body, s.updated_at.as_str());
        append_str(
            &mut body,
            "</td>\n<td>\n  <form method=\"post\" action=\"/upstream-secrets/delete\">\n    <input type=\"hidden\" name=\"name\" value=\"",
        );
        push_escaped(&mut body, s.name.as_str());
        append_str(
            &mut body,
            "\">\n    <button type=\"submit\">Delete</button>\n  </form>\n</td>\n</tr>",
        );
        assert(secrets@.take(i + 1).drop_last() =~= secrets@.take(i as int));
        i = i + 1;
        assert(body@ =~= start + secret_rows_html(secrets@.take(i as int)));
    }
    assert(secrets@.take(secrets@.len() as int) =~= secrets@);
    append_str(&mut body, "</tbody></table><p><a href=\"/\">Dashboard</a></p>");
    assert(body@ =~= secrets_body_html(
        secrets@,
        match message {
            Some(m) => Some(m@),
            None => None,
        },
    ));
    page("Upstream Secrets", body.as_str())
}

// ---------------------------------------------------------------- dashboard

/// The label of a reporting period in the range switcher.
pub open spec fn period_label(p: DashboardPeriod) -> Seq<char> {
    match p {
        DashboardPeriod::Last24Hours => "24 hours"@,
        DashboardPeriod::Last7Days => "7 days"@,
        DashboardPeriod::Last30Days => "30 days"@,
    }
}

/// The switcher entry of `candidate`: the current period in bold, the
/// others as links.
pub open spec fn period_entry_html(candidate: DashboardPeriod, current: DashboardPeriod) -> Seq<char> {
    if candidate == current {
        "<strong>"@ + escaped(period_label(candidate)) + "</strong> "@
    } else {
        "<a href=\"/?period="@ + candidate.query_text() + "\">"@ + escaped(period_label(candidate))
            + "</a> "@
    }
}

/// The range switcher of the dashboard.
pub open spec fn period_switcher_html(current: DashboardPeriod) -> Seq<char> {
    "<section><h2>Range</h2><p>"@ + period_entry_html(DashboardPeriod::Last24Hours, current)
        + period_entry_html(DashboardPeriod::Last7Days, current) + period_entry_html(
        DashboardPeriod::Last30Days,
        current,
    ) + "</p></section>"@
}

/// The label of a reporting period in the range switcher.
fn period_label_text(p: DashboardPeriod) -> (r: &'static str)
    ensures
        r@ == period_label(p),
{
    match p {
        DashboardPeriod::Last24Hours => "24 hours",
        DashboardPeriod::Last7Days => "7 days",
        DashboardPeriod::Last30Days => "30 days",
    }
}

/// Appends the switcher entry of `candidate`.
fn write_period_entry(body: &mut String, candidate: DashboardPeriod, current: DashboardPeriod)
    ensures
        final(body)@ == old(body)@ + period_entry_html(candidate, current),
{
    let label = period_label_text(candidate);
    let same = match (candidate, current) {
        (DashboardPeriod::Last24Hours, DashboardPeriod::Last24Hours) => true,
        (DashboardPeriod::Last7Days, DashboardPeriod::Last7Days) => true,
        (DashboardPeriod::Last30Days, DashboardPeriod::Last30Days) => true,
        _ => false,
    };
    if same {
        append_str(body, "<strong>");
        push_escaped(body, label);
        append_str(body, "</strong> ");
    } else {
        append_str(body, "<a href=\"/?period=");
        append_str(body, candidate.as_query());
        append_str(body, "\">");
        push_escaped(body, label);
        append_str(body, "</a> ");
    }
    assert(final(body)@ =~= old(body)@ + period_entry_html(candidate, current));
}

/// Appends the range switcher of the dashboard: each period in turn, the
/// current one in bold and the others as links.
pub fn render_period_switcher(body: &mut String, period: DashboardPeriod)
    ensures
        final(body)@ == old(body)@ + period_switcher_html(period),
{
    append_str(body, "<section><h2>Range</h2><p>");
    write_period_entry(body, DashboardPeriod::Last24Hours, period);
    write_period_entry(body, DashboardPeriod::Last7Days, period);
    write_period_entry(body, DashboardPeriod::Last30Days, period);
    append_str(body, "</p></section>");
    assert(final(body)@ =~= old(body)@ + period_switcher_html(period));
}

/// The head of the dashboard: its navigation and the runtime settings.
pub open spec fn dashboard_head_html(
    proxy_listen: Seq<char>,
    admin_listen: Seq<char>,
    default_route: Seq<char>,
) -> Seq<char> {
    "<h1>LLM Proxy</h1><nav><a href=\"/requests\">Requests</a> <a href=\"/keys\">Proxy API keys</a> <a href=\"/upstream-secrets\">Upstream secrets</a> <form method=\"post\" action=\"/logout\"><button type=\"submit\">Log out</button></form></nav><section><h2>Runtime</h2><dl><dt>Proxy listen</dt><dd>"@
        + proxy_listen + "</dd><dt>Admin listen</dt><dd>"@ + admin_listen
        + "</dd><dt>Default route</dt><dd>"@ + default_route + "</dd></dl></section>"@
}

/// Appends the head of the dashboard: navigation, then the listen addresses
/// and the default route as configured.
pub fn render_dashboard_head(body: &mut String, config: &crate::config::Config)
    ensures
        final(body)@ == old(body)@ + dashboard_head_html(
            config.proxy_listen@,
            config.admin_listen@,
            config.default_route@,
        ),
{
    append_str(
        body,
        "<h1>LLM Proxy</h1><nav><a href=\"/requests\">Requests</a> <a href=\"/keys\">Proxy API keys</a> <a href=\"/upstream-secrets\">Upstream secrets</a> <form method=\"post\" action=\"/logout\"><button type=\"submit\">Log out</button></form></nav><section><h2>Runtime</h2><dl><dt>Proxy listen</dt><dd>",
    );
    append_str(body, config.proxy_listen.as_str());
    append_str(body, "</dd><dt>Admin listen</dt><dd>");
    append_str(body, config.admin_listen.as_str());
    append_str(body, "</dd><dt>Default route</dt><dd>");
    append_str(body, config.default_route.as_str());
    append_str(body, "</dd></dl></section>");
    assert(final(body)@ =~= old(body)@ + dashboard_head_html(
        config.proxy_listen@,
        config.admin_listen@,
        config.default_route@,
    ));
}

/// The overview figures of the dashboard, with the averages already
/// written out as text.
#[derive(Debug, Clone, PartialEq, Eq)]
pub struct OverviewFigures {
    pub request_count: i64,
    pub total_tokens: i64,
    pub input_tokens: i64,
    pub output_tokens: i64,
    pub avg_duration: String,
    pub avg_tokens_per_second: String,
    pub avg_time_to_first_token: String,
    pub error_count: i64,
}

/// The overview section of the dashboard.
pub open spec fn overview_html(o: OverviewFigures) -> Seq<char> {
    "<section><h2>Overview</h2><dl><dt>Requests</dt><dd>"@ + signed_decimal(o.request_count as int)
        + "</dd><dt>Total tokens</dt><dd>"@ + signed_decimal(o.total_tokens as int)
        + "</dd><dt>Input tokens</dt><dd>"@ + signed_decimal(o.input_tokens as int)
        + "</dd><dt>Output tokens</dt><dd>"@ + signed_decimal(o.output_tokens as int)
        + "</dd><dt>Average duration</dt><dd>"@ + o.avg_duration@
        + "</dd><dt>Average tokens/sec</dt><dd>"@ + o.avg_tokens_per_second@
        + "</dd><dt>Average TTFT</dt><dd>"@ + o.avg_time_to_first_token@
        + "</dd><dt>Errors</dt><dd>"@ + signed_decimal(o.error_count as int)
        + "</dd></dl></section>"@
}

/// Appends the overview section: request, token and error counts and the
/// averages of duration, speed and time to first token.
#[verifier::rlimit(40)]
pub fn render_overview(body: &mut String, overview: &OverviewFigures)
    ensures
        final(body)@ == old(body)@ + overview_html(*overview),
{
    let ghost start = body@;
    append_str(body, "<section><h2>Overview</h2><dl><dt>Requests</dt><dd>");
    push_signed_decimal(body, overview.request_count);
    append_str(body, "</dd><dt>Total tokens</dt><dd>");
    push_signed_decimal(body, overview.total_tokens);
    append_str(body, "</dd><dt>Input tokens</dt><dd>");
    push_signed_decimal(body, overview.input_tokens);
    append_str(body, "</dd><dt>Output tokens</dt><dd>");
    push_signed_decimal(body, overview.output_tokens);
    append_str(body, "</dd><dt>Average duration</dt><dd>");
    append_str(body, overview.avg_duration.as_str());
    append_str(body, "</dd><dt>Average tokens/sec</dt><dd>");
    append_str(body, overview.avg_tokens_per_second.as_str());
    append_str(body, "</dd><dt>Average TTFT</dt><dd>");
    append_str(body, overview.avg_time_to_first_token.as_str());
    append_str(body, "</dd><dt>Errors</dt><dd>");
    push_signed_decimal(body, overview.error_count);
    append_str(body, "</dd></dl></section>");
    assert(body@ =~= start + overview_html(*overview));
}

/// A row of a breakdown table (by model or by key), with its fractional
/// columns already written out as text.
#[derive(Debug, Clone, PartialEq, Eq)]
pub struct DimensionRow {
    pub label: String,
    pub request_count: i64,
    pub total_tokens: i64,
    pub tokens_per_second: String,
    pub time_to_first_token: String,
}

/// The largest token total among `rows`, or zero when none is larger.
pub open spec fn max_total_tokens(rows: Seq<DimensionRow>) -> int
    decreases rows.len(),
{
    if rows.len() == 0 {
        0
    } else {
        let m = max_total_tokens(rows.drop_last());
        if rows.last().total_tokens > m {
            rows.last().total_tokens as int
        } else {
            m
        }
    }
}

/// What the token bars are scaled to: the largest total, and at least one.
pub open spec fn bar_scale(rows: Seq<DimensionRow>) -> int {
    if max_total_tokens(rows) < 1 {
        1
    } else {
        max_total_tokens(rows)
    }
}

/// The width in percent of the bar of a row with `total` tokens: its
/// share of `scale`, rounded toward zero, and at least one.
pub open spec fn bar_width(total: int, scale: int) -> int {
    if total <= 0 {
        1
    } else if total * 100 / scale < 1 {
        1
    } else {
        total * 100 / scale
    }
}

/// A row of a breakdown table.
pub open spec fn dimension_row_html(row: DimensionRow, scale: int) -> Seq<char> {
    "<tr><td>"@ + escaped(row.label@) + "</td><td>"@ + signed_decimal(row.request_count as int)
        + "</td><td>"@ + signed_decimal(row.total_tokens as int) + "</td><td>"@
        + row.tokens_per_second@ + "</td><td>"@ + row.time_to_first_token@
        + "</td><td><div style=\"background:#2563eb;height:0.75rem;width:"@ + signed_decimal(
        bar_width(row.total_tokens as int, scale),
    ) + "%;\"></div></td></tr>"@
}

/// The rows of a breakdown table, their bars scaled to `scale`.
pub open spec fn dimension_rows_html(rows: Seq<DimensionRow>, scale: int) -> Seq<char>
    decreases rows.len(),
{
    if rows.len() == 0 {
        Seq::empty()
    } else {
        dimension_rows_html(rows.drop_last(), scale) + dimension_row_html(rows.last(), scale)
    }
}

/// A breakdown table titled `title`, whose first column is `heading`.
pub open spec fn dimension_table_html(title: Seq<char>, heading: Seq<char>, rows: Seq<DimensionRow>) -> Seq<char> {
    "<section><h2>"@ + escaped(title) + "</h2><table><thead><tr><th>"@ + escaped(heading)
        + "</th><th>Requests</th><th>Tokens</th><th>Tokens/sec</th><th>TTFT</th><th></th></tr></thead><tbody>"@
        + dimension_rows_html(rows, bar_scale(rows)) + "</tbody></table></section>"@
}

/// Every token total of `rows` can be multiplied by 100 in 64 bits.
pub open spec fn totals_scale_fit(rows: Seq<DimensionRow>) -> bool {
    forall|i: int|
        0 <= i < rows.len() ==> i64::MIN <= #[trigger] rows[i].total_tokens * 100 <= i64::MAX
}

/// Whether every token total of `rows` can be multiplied by 100 in 64
/// bits, as [`render_dimension_table`] needs.
pub fn totals_scale_fit_check(rows: &[DimensionRow]) -> (r: bool)
    ensures
        r == totals_scale_fit(rows@),
{
    let mut i: usize = 0;
    while i < rows.len()
        invariant
            i <= rows@.len(),
            forall|k: int|
                0 <= k < i ==> i64::MIN <= #[trigger] rows@[k].total_tokens * 100 <= i64::MAX,
        decreases rows.len() - i,
    {
        let t = rows[i].total_tokens;
        if t > i64::MAX / 100 || t < i64::MIN / 100 {
            return false;
        }
        i = i + 1;
    }
    true
}

/// The largest token total of `rows`, or zero.
fn max_total(rows: &[DimensionRow]) -> (m: i64)
    ensures
        m == max_total_tokens(rows@),
{
    let mut m: i64 = 0;
    let mut i: usize = 0;
    assert(rows@.take(0) =~= Seq::<DimensionRow>::empty());
    while i < rows.len()
        invariant
            i <= rows@.len(),
            m == max_total_tokens(rows@.take(i as int)),
        decreases rows.len() - i,
    {
        assert(rows@.take(i + 1).drop_last() =~= rows@.take(i as int));
        if rows[i].total_tokens > m {
            m = rows[i].total_tokens;
        }
        i = i + 1;
    }
    assert(rows@.take(rows@.len() as int) =~= rows@);
    m
}

/// Appends one row of a breakdown table.
#[verifier::rlimit(40)]
fn write_dimension_row(body: &mut String, row: &DimensionRow, scale: i64)
    requires
        scale >= 1,
        i64::MIN <= row.total_tokens * 100 <= i64::MAX,
    ensures
        final(body)@ == old(body)@ + dimension_row_html(*row, scale as int),
{
    let width: i64 = if row.total_tokens <= 0 {
        1
    } else {
        let w = row.total_tokens * 100 / scale;
        if w < 1 {
            1
        } else {
            w
        }
    };
    let ghost start = body@;
    append_str(body, "<tr><td>");
    push_escaped(body, row.label.as_str());
    append_str(body, "</td><td>");
    push_signed_decimal(body, row.request_count);
    append_str(body, "</td><td>");
    push_signed_decimal(body, row.total_tokens);
    append_str(body, "</td><td>");
    append_str(body, row.tokens_per_second.as_str());
    append_str(body, "</td><td>");
    append_str(body, row.time_to_first_token.as_str());
    append_str(body, "</td><td><div style=\"background:#2563eb;height:0.75rem;width:");
    push_signed_decimal(body, width);
    append_str(body, "%;\"></div></td></tr>");
    assert(body@ =~= start + dimension_row_html(*row, scale as int));
}

/// Appends a breakdown table: for each row its label, request count,
/// token total, speed and time to first token, and a bar whose width is
/// the row's share of the largest total.
pub fn render_dimension_table(body: &mut String, title: &str, label_heading: &str, rows: &[DimensionRow])
    requires
        totals_scale_fit(rows@),
    ensures
        final(body)@ == old(body)@ + dimension_table_html(title@, label_heading@, rows@),
{
    let m = max_total(rows);
    let scale: i64 = if m < 1 {
        1
    } else {
        m
    };
    let ghost start = body@;
    append_str(body, "<section><h2>");
    push_escaped(body, title);
    append_str(body, "</h2><table><thead><tr><th>");
    push_escaped(body, label_heading);
    append_str(
        body,
        "</th><th>Requests</th><th>Tokens</th><th>Tokens/sec</th><th>TTFT</th><th></th></tr></thead><tbody>",
    );
    let ghost head = body@;
    let mut i: usize = 0;
    assert(rows@.take(0) =~= Seq::<DimensionRow>::empty());
    while i < rows.len()
        invariant
            i <= rows@.len(),
            scale as int == bar_scale(rows@),
            scale >= 1,
            totals_scale_fit(rows@),
            body@ == head + dimension_rows_html(rows@.take(i as int), scale as int),
        decreases rows.len() - i,
    {
        assert(i64::MIN <= rows@[i as int].total_tokens * 100 <= i64::MAX);
        write_dimension_row(body, &rows[i], scale);
        assert(rows@.take(i + 1).drop_last() =~= rows@.take(i as int));
        assert(rows@.take(i + 1).last() == rows@[i as int]);
        i = i + 1;
    }
    assert(rows@.take(rows@.len() as int) =~= rows@);
    append_str(body, "</tbody></table></section>");
    assert(body@ =~= start + dimension_table_html(title@, label_heading@, rows@));
}

/// The rows of the status table.
pub open spec fn status_rows_html(rows: Seq<StatusMetric>) -> Seq<char>
    decreases rows.len(),
{
    if rows.len() == 0 {
        Seq::empty()
    } else {
        status_rows_html(rows.drop_last()) + "<tr><td>"@ + escaped(rows.last().label@)
            + "</td><td>"@ + signed_decimal(rows.last().request_count as int) + "</td></tr>"@
    }
}

/// The status table of the dashboard.
pub open spec fn status_table_html(rows: Seq<StatusMetric>) -> Seq<char> {
    "<section><h2>Status rates</h2><table><thead><tr><th>Status</th><th>Requests</th></tr></thead><tbody>"@
        + status_rows_html(rows) + "</tbody></table></section>"@
}

/// Appends the status table of the dashboard: each status class with its
/// request count.
pub fn render_status_rows(body: &mut String, rows: &[StatusMetric])
    ensures
        final(body)@ == old(body)@ + status_table_html(rows@),
{
    append_str(
        body,
        "<section><h2>Status rates</h2><table><thead><tr><th>Status</th><th>Requests</th></tr></thead><tbody>",
    );
    let ghost start = body@;
    let mut i: usize = 0;
    assert(rows@.take(0) =~= Seq::<StatusMetric>::empty());
    while i < rows.len()
        invariant
            i <= rows@.len(),
            body@ == start + status_rows_html(rows@.take(i as int)),
        decreases rows.len() - i,
    {
        append_str(body, "<tr><td>");
        push_escaped(body, rows[i].label.as_str());
        append_str(body, "</td><td>");
        push_signed_decimal(body, rows[i].request_count);
        append_str(body, "</td></tr>");
        assert(rows@.take(i + 1).drop_last() =~= rows@.take(i as int));
        i = i + 1;
        assert(body@ =~= start + status_rows_html(rows@.take(i as int)));
    }
    assert(rows@.take(rows@.len() as int) =~= rows@);
    append_str(body, "</tbody></table></section>");
    assert(final(body)@ =~= old(body)@ + status_table_html(rows@));
}

} // verus!
