//! Token accounting: provider-reported usage, or a character-count estimate.
use vstd::prelude::*;

use crate::json::{json_as_u64, json_get, JsonValue};
use crate::text::{lines_chars, lines_seq, has_prefix, skip_chars, starts_with_chars, trim_chars, trim_seq, chars_of, chars_eq, string_from_chars};

verus! {

/// Token counts of one request, as reported by the provider or estimated.
#[derive(Debug, Clone, PartialEq, Eq)]
pub struct TokenUsage {
    pub input_tokens: Option<u64>,
    pub output_tokens: Option<u64>,
    pub total_tokens: Option<u64>,
    pub cached_input_tokens: Option<u64>,
    pub reasoning_tokens: Option<u64>,
    pub accepted_prediction_tokens: Option<u64>,
    pub rejected_prediction_tokens: Option<u64>,
    pub token_source: String,
}

/// The counts of a [`TokenUsage`] and its source, as plain values.
pub struct TokenUsageView {
    pub input_tokens: Option<u64>,
    pub output_tokens: Option<u64>,
    pub total_tokens: Option<u64>,
    pub cached_input_tokens: Option<u64>,
    pub reasoning_tokens: Option<u64>,
    pub accepted_prediction_tokens: Option<u64>,
    pub rejected_prediction_tokens: Option<u64>,
    pub token_source: Seq<char>,
}

impl View for TokenUsage {
    type V = TokenUsageView;

    open spec fn view(&self) -> TokenUsageView {
        TokenUsageView {
            input_tokens: self.input_tokens,
            output_tokens: self.output_tokens,
            total_tokens: self.total_tokens,
            cached_input_tokens: self.cached_input_tokens,
            reasoning_tokens: self.reasoning_tokens,
            accepted_prediction_tokens: self.accepted_prediction_tokens,
            rejected_prediction_tokens: self.rejected_prediction_tokens,
            token_source: self.token_source@,
        }
    }
}

/// Number of tokens estimated for a text of `chars` characters: a quarter of
/// the character count, rounded up.
pub open spec fn estimated_tokens(chars: nat) -> nat {
    (chars + 3) / 4
}

/// Estimates the token count of `text` as `ceil(chars / 4)`.
pub fn estimate_tokens_from_chars(text: &str) -> (tokens: u64)
    ensures
        tokens == estimated_tokens(text@.len()),
        text@.len() <= usize::MAX,
{
    let n: usize = text.unicode_len();
    let n64: u64 = n as u64;
    n64 / 4 + if n64 % 4 == 0 {
        0
    } else {
        1
    }
}

/// The first of `keys` whose member in `usage` holds a non-negative 64-bit
/// integer, and that integer.
pub open spec fn usage_u64_spec(usage: JsonValue, keys: Seq<Seq<char>>) -> Option<u64>
    decreases keys.len(),
{
    if keys.len() == 0 {
        None
    } else {
        match json_get(usage, keys[0]) {
            Some(v) => match json_as_u64(v) {
                Some(n) => Some(n),
                None => usage_u64_spec(usage, keys.drop_first()),
            },
            None => usage_u64_spec(usage, keys.drop_first()),
        }
    }
}

/// The value of the first of `parents` that `usage` has as a member.
pub open spec fn first_member(usage: JsonValue, parents: Seq<Seq<char>>) -> Option<JsonValue>
    decreases parents.len(),
{
    if parents.len() == 0 {
        None
    } else {
        match json_get(usage, parents[0]) {
            Some(v) => Some(v),
            None => first_member(usage, parents.drop_first()),
        }
    }
}

/// A count found under the first present member of `parents`.
pub open spec fn nested_usage_u64_spec(
    usage: JsonValue,
    parents: Seq<Seq<char>>,
    keys: Seq<Seq<char>>,
) -> Option<u64> {
    match first_member(usage, parents) {
        Some(details) => usage_u64_spec(details, keys),
        None => None,
    }
}

/// The texts of a slice of string slices.
pub open spec fn strs_view(keys: Seq<&str>) -> Seq<Seq<char>> {
    Seq::new(keys.len(), |i: int| keys[i]@)
}

/// The first of `keys` whose member in `usage` holds a non-negative 64-bit
/// integer.
pub fn usage_u64(usage: &JsonValue, keys: &[&str]) -> (r: Option<u64>)
    ensures
        r == usage_u64_spec(*usage, strs_view(keys@)),
{
    let mut i: usize = 0;
    assert(strs_view(keys@).skip(0) =~= strs_view(keys@));
    while i < keys.len()
        invariant
            i <= keys@.len(),
            usage_u64_spec(*usage, strs_view(keys@)) == usage_u64_spec(
                *usage,
                strs_view(keys@).skip(i as int),
            ),
        decreases keys.len() - i,
    {
        let ghost rest = strs_view(keys@).skip(i as int);
        assert(rest.drop_first() =~= strs_view(keys@).skip(i + 1));
        assert(rest[0] == keys@[i as int]@);
        match usage.get(keys[i]) {
            Some(v) => match v.as_u64() {
                Some(n) => {
                    return Some(n);
                },
                None => {},
            },
            None => {},
        }
        i = i + 1;
    }
    assert(strs_view(keys@).skip(keys@.len() as int) =~= Seq::<Seq<char>>::empty());
    None
}

/// A count found under the first member of `parents` that `usage` has.
pub fn nested_usage_u64(usage: &JsonValue, parents: &[&str], keys: &[&str]) -> (r: Option<u64>)
    ensures
        r == nested_usage_u64_spec(*usage, strs_view(parents@), strs_view(keys@)),
{
    let mut i: usize = 0;
    assert(strs_view(parents@).skip(0) =~= strs_view(parents@));
    while i < parents.len()
        invariant
            i <= parents@.len(),
            first_member(*usage, strs_view(parents@)) == first_member(
                *usage,
                strs_view(parents@).skip(i as int),
            ),
        decreases parents.len() - i,
    {
        let ghost rest = strs_view(parents@).skip(i as int);
        assert(rest.drop_first() =~= strs_view(parents@).skip(i + 1));
        assert(rest[0] == parents@[i as int]@);
        match usage.get(parents[i]) {
            Some(details) => {
                return usage_u64(details, keys);
            },
            None => {},
        }
        i = i + 1;
    }
    assert(strs_view(parents@).skip(parents@.len() as int) =~= Seq::<Seq<char>>::empty());
    None
}

pub open spec fn input_keys() -> Seq<Seq<char>> {
    seq!["prompt_tokens"@, "input_tokens"@]
}

pub open spec fn output_keys() -> Seq<Seq<char>> {
    seq!["completion_tokens"@, "output_tokens"@]
}

pub open spec fn total_keys() -> Seq<Seq<char>> {
    seq!["total_tokens"@]
}

pub open spec fn input_detail_parents() -> Seq<Seq<char>> {
    seq!["prompt_tokens_details"@, "input_tokens_details"@]
}

pub open spec fn output_detail_parents() -> Seq<Seq<char>> {
    seq!["completion_tokens_details"@, "output_tokens_details"@]
}

/// Input tokens reported in a provider usage block.
pub open spec fn reported_input(usage: JsonValue) -> Option<u64> {
    usage_u64_spec(usage, input_keys())
}

/// Output tokens reported in a provider usage block.
pub open spec fn reported_output(usage: JsonValue) -> Option<u64> {
    usage_u64_spec(usage, output_keys())
}

/// Total tokens reported in a provider usage block.
pub open spec fn reported_total(usage: JsonValue) -> Option<u64> {
    usage_u64_spec(usage, total_keys())
}

/// When the provider reports no total, the total is the sum of the input and
/// output counts (a missing one counting as zero); that sum must fit in 64 bits.
pub open spec fn provider_total_fits(usage: JsonValue) -> bool {
    reported_total(usage) is Some || reported_input(usage).unwrap_or(0) as int + reported_output(
        usage,
    ).unwrap_or(0) as int <= u64::MAX
}

/// The token usage a provider usage block reports: `None` when it reports
/// none of the input, output and total counts; otherwise the counts found,
/// the total derived from input and output when missing, detail counts
/// taken from the first details object present, and the source "provider".
pub open spec fn provider_token_usage(usage: JsonValue) -> Option<TokenUsageView> {
    let input = reported_input(usage);
    let output = reported_output(usage);
    let total = reported_total(usage);
    if input is None && output is None && total is None {
        None
    } else {
        Some(
            TokenUsageView {
                input_tokens: input,
                output_tokens: output,
                total_tokens: if total is Some {
                    total
                } else {
                    Some((input.unwrap_or(0) + output.unwrap_or(0)) as u64)
                },
                cached_input_tokens: nested_usage_u64_spec(
                    usage,
                    input_detail_parents(),
                    seq!["cached_tokens"@],
                ),
                reasoning_tokens: nested_usage_u64_spec(
                    usage,
                    output_detail_parents(),
                    seq!["reasoning_tokens"@],
                ),
                accepted_prediction_tokens: nested_usage_u64_spec(
                    usage,
                    output_detail_parents(),
                    seq!["accepted_prediction_tokens"@],
                ),
                rejected_prediction_tokens: nested_usage_u64_spec(
                    usage,
                    output_detail_parents(),
                    seq!["rejected_prediction_tokens"@],
                ),
                token_source: "provider"@,
            },
        )
    }
}

/// The count under `key` in a JSON object: its value when that is a
/// non-negative 64-bit integer.
pub open spec fn json_count(v: JsonValue, key: Seq<char>) -> Option<u64> {
    match json_get(v, key) {
        Some(x) => json_as_u64(x),
        None => None,
    }
}

/// Where the detail counts of a provider's usage come from: the reasoning
/// and prediction counts are read from `completion_tokens_details` (chat
/// completions) or, when the block has none, from `output_tokens_details`
/// (the responses and messages APIs); the cached input count likewise from
/// `prompt_tokens_details` or else `input_tokens_details`. A detail the
/// details object does not hold is reported as absent.
pub proof fn usage_details_come_from_either_api(usage: JsonValue, details: JsonValue)
    requires
        provider_token_usage(usage) is Some,
    ensures
        ({
            let u = provider_token_usage(usage)->0;
            (json_get(usage, "completion_tokens_details"@) == Some(details) || (json_get(
                usage,
                "completion_tokens_details"@,
            ) is None && json_get(usage, "output_tokens_details"@) == Some(details))) ==> {
                &&& u.reasoning_tokens == json_count(details, "reasoning_tokens"@)
                &&& u.accepted_prediction_tokens == json_count(details, "accepted_prediction_tokens"@)
                &&& u.rejected_prediction_tokens == json_count(details, "rejected_prediction_tokens"@)
            }
        }),
        ({
            let u = provider_token_usage(usage)->0;
            (json_get(usage, "prompt_tokens_details"@) == Some(details) || (json_get(
                usage,
                "prompt_tokens_details"@,
            ) is None && json_get(usage, "input_tokens_details"@) == Some(details))) ==> u.cached_input_tokens
                == json_count(details, "cached_tokens"@)
        }),
        ({
            let u = provider_token_usage(usage)->0;
            json_get(usage, "completion_tokens_details"@) is None && json_get(
                usage,
                "output_tokens_details"@,
            ) is None ==> u.reasoning_tokens is None && u.accepted_prediction_tokens is None
                && u.rejected_prediction_tokens is None
        }),
{
    reveal_with_fuel(first_member, 3);
    reveal_with_fuel(usage_u64_spec, 2);
}

/// Whether `provider_total_fits` holds of `usage`.
pub fn usage_total_fits(usage: &JsonValue) -> (r: bool)
    ensures
        r == provider_total_fits(*usage),
{
    let input_keys_arr: [&str; 2] = ["prompt_tokens", "input_tokens"];
    let output_keys_arr: [&str; 2] = ["completion_tokens", "output_tokens"];
    let total_keys_arr: [&str; 1] = ["total_tokens"];
    assert(strs_view(input_keys_arr@) =~= input_keys());
    assert(strs_view(output_keys_arr@) =~= output_keys());
    assert(strs_view(total_keys_arr@) =~= total_keys());
    let input = usage_u64(usage, &input_keys_arr);
    let output = usage_u64(usage, &output_keys_arr);
    let total = usage_u64(usage, &total_keys_arr);
    match total {
        Some(_) => true,
        None => {
            let a: u64 = match input {
                Some(n) => n,
                None => 0,
            };
            let b: u64 = match output {
                Some(n) => n,
                None => 0,
            };
            a <= u64::MAX - b
        },
    }
}

/// Reads the token usage a provider reported in its `usage` block.
pub fn token_usage_from_provider(usage: &JsonValue) -> (r: Option<TokenUsage>)
    requires
        provider_total_fits(*usage),
    ensures
        r is Some == provider_token_usage(*usage) is Some,
        r matches Some(u) ==> u@ == provider_token_usage(*usage).unwrap(),
{
    let input_keys_arr: [&str; 2] = ["prompt_tokens", "input_tokens"];
    let output_keys_arr: [&str; 2] = ["completion_tokens", "output_tokens"];
    let total_keys_arr: [&str; 1] = ["total_tokens"];
    assert(strs_view(input_keys_arr@) =~= input_keys());
    assert(strs_view(output_keys_arr@) =~= output_keys());
    assert(strs_view(total_keys_arr@) =~= total_keys());
    let input_tokens = usage_u64(usage, &input_keys_arr);
    let output_tokens = usage_u64(usage, &output_keys_arr);
    let total_tokens = usage_u64(usage, &total_keys_arr);
    if input_tokens.is_none() && output_tokens.is_none() && total_tokens.is_none() {
        return None;
    }
    let output_details: [&str; 2] = ["completion_tokens_details", "output_tokens_details"];
    let input_details: [&str; 2] = ["prompt_tokens_details", "input_tokens_details"];
    assert(strs_view(output_details@) =~= output_detail_parents());
    assert(strs_view(input_details@) =~= input_detail_parents());
    let cached_keys: [&str; 1] = ["cached_tokens"];
    let reasoning_keys: [&str; 1] = ["reasoning_tokens"];
    let accepted_keys: [&str; 1] = ["accepted_prediction_tokens"];
    let rejected_keys: [&str; 1] = ["rejected_prediction_tokens"];
    assert(strs_view(cached_keys@) =~= seq!["cached_tokens"@]);
    assert(strs_view(reasoning_keys@) =~= seq!["reasoning_tokens"@]);
    assert(strs_view(accepted_keys@) =~= seq!["accepted_prediction_tokens"@]);
    assert(strs_view(rejected_keys@) =~= seq!["rejected_prediction_tokens"@]);
    let total = match total_tokens {
        Some(t) => Some(t),
        None => {
            let a: u64 = match input_tokens {
                Some(n) => n,
                None => 0,
            };
            let b: u64 = match output_tokens {
                Some(n) => n,
                None => 0,
            };
            Some(a + b)
        },
    };
    Some(
        TokenUsage {
            input_tokens,
            output_tokens,
            total_tokens: total,
            cached_input_tokens: nested_usage_u64(usage, &input_details, &cached_keys),
            reasoning_tokens: nested_usage_u64(usage, &output_details, &reasoning_keys),
            accepted_prediction_tokens: nested_usage_u64(usage, &output_details, &accepted_keys),
            rejected_prediction_tokens: nested_usage_u64(usage, &output_details, &rejected_keys),
            token_source: "provider".to_owned(),
        },
    )
}

/// The usage estimated from the texts of a request and of its response.
pub open spec fn estimated_usage(request_text: Seq<char>, response_text: Seq<char>) -> TokenUsageView {
    let input = estimated_tokens(request_text.len());
    let output = estimated_tokens(response_text.len());
    TokenUsageView {
        input_tokens: Some(input as u64),
        output_tokens: Some(output as u64),
        total_tokens: Some((input + output) as u64),
        cached_input_tokens: None,
        reasoning_tokens: None,
        accepted_prediction_tokens: None,
        rejected_prediction_tokens: None,
        token_source: "estimated_char_heuristic"@,
    }
}

/// Estimates the usage of a request from the JSON texts of the request and
/// of the response.
pub fn estimate_token_usage(request_text: &str, response_text: &str) -> (r: TokenUsage)
    ensures
        r@ == estimated_usage(request_text@, response_text@),
{
    let input_tokens = estimate_tokens_from_chars(request_text);
    let output_tokens = estimate_tokens_from_chars(response_text);
    TokenUsage {
        input_tokens: Some(input_tokens),
        output_tokens: Some(output_tokens),
        total_tokens: Some(input_tokens + output_tokens),
        cached_input_tokens: None,
        reasoning_tokens: None,
        accepted_prediction_tokens: None,
        rejected_prediction_tokens: None,
        token_source: "estimated_char_heuristic".to_owned(),
    }
}

/// The usage recorded for a completed request: what the provider reported
/// in the response's `usage` member, or else the estimate.
pub open spec fn response_token_usage(
    request_text: Seq<char>,
    response: Option<JsonValue>,
    response_text: Seq<char>,
) -> TokenUsageView {
    let reported = match response {
        Some(v) => match json_get(v, "usage"@) {
            Some(u) => provider_token_usage(u),
            None => None,
        },
        None => None,
    };
    match reported {
        Some(u) => u,
        None => estimated_usage(request_text, response_text),
    }
}

/// The value an optional reference points to.
pub open spec fn opt_value(v: Option<&JsonValue>) -> Option<JsonValue> {
    match v {
        Some(x) => Some(*x),
        None => None,
    }
}

/// The `usage` member of a parsed response fits the derived-total bound.
pub open spec fn response_usage_fits(response: Option<JsonValue>) -> bool {
    match response {
        Some(v) => match json_get(v, "usage"@) {
            Some(u) => provider_total_fits(u),
            None => true,
        },
        None => true,
    }
}

/// Token usage of a non-streamed response: provider usage when reported,
/// otherwise an estimate from `request_text` and `response_text` (the JSON
/// text of the response, or of the response body as a JSON string when the
/// body is not JSON).
pub fn token_usage_for_response(
    request_text: &str,
    response: Option<&JsonValue>,
    response_text: &str,
) -> (r: Option<TokenUsage>)
    requires
        response_usage_fits(opt_value(response)),
    ensures
        r matches Some(u) && u@ == response_token_usage(
            request_text@,
            opt_value(response),
            response_text@,
        ),
{
    let reported = match response {
        Some(v) => match v.get("usage") {
            Some(u) => token_usage_from_provider(u),
            None => None,
        },
        None => None,
    };
    match reported {
        Some(u) => Some(u),
        None => Some(estimate_token_usage(request_text, response_text)),
    }
}

// ---------------------------------------------------------------- streams

/// Whether a server-sent-event payload is worth parsing: not empty and not
/// the `[DONE]` marker.
pub open spec fn is_event_payload(p: Seq<char>) -> bool {
    p.len() > 0 && p != "[DONE]"@
}

/// The trimmed payloads of the `data:` lines of a server-sent-event body, in
/// order, without empty payloads and `[DONE]` markers.
pub open spec fn sse_payloads_from(lines: Seq<Seq<char>>) -> Seq<Seq<char>>
    decreases lines.len(),
{
    if lines.len() == 0 {
        Seq::empty()
    } else {
        let rest = sse_payloads_from(lines.drop_first());
        let l = lines[0];
        if has_prefix(l, "data:"@) && is_event_payload(trim_seq(l.skip(5))) {
            seq![trim_seq(l.skip(5))] + rest
        } else {
            rest
        }
    }
}

/// The event payloads of a streamed response body.
pub open spec fn sse_payloads(body: Seq<char>) -> Seq<Seq<char>> {
    sse_payloads_from(lines_seq(body))
}

/// Extracts the `data:` payloads of a server-sent-event stream body.
pub fn sse_data_payloads(body: &str) -> (r: Vec<String>)
    ensures
        r@.map_values(|s: String| s@) == sse_payloads(body@),
{
    let chars = chars_of(body);
    let lines = lines_chars(&chars);
    let prefix = chars_of("data:");
    let done_marker = chars_of("[DONE]");
    proof {
        reveal_strlit("data:");
    }
    let ghost all = crate::text::vec_views(lines@);
    let mut out: Vec<String> = Vec::new();
    let mut i: usize = 0;
    assert(all.skip(0) =~= all);
    while i < lines.len()
        invariant
            i <= lines@.len(),
            all == crate::text::vec_views(lines@),
            all == lines_seq(body@),
            prefix@ == "data:"@,
            prefix@.len() == 5,
            done_marker@ == "[DONE]"@,
            out@.map_values(|s: String| s@) + sse_payloads_from(all.skip(i as int))
                == sse_payloads(body@),
        decreases lines.len() - i,
    {
        let ghost prev = out@.map_values(|s: String| s@);
        let line = &lines[i];
        assert(all.skip(i as int).drop_first() =~= all.skip(i + 1));
        assert(all.skip(i as int)[0] == line@);
        if starts_with_chars(line, &prefix) {
            let payload = trim_chars(&skip_chars(line, 5));
            if payload.len() > 0 && !chars_eq(&payload, &done_marker) {
                out.push(string_from_chars(&payload));
                assert(out@.map_values(|s: String| s@) =~= prev.push(payload@));
                assert(prev + (seq![payload@] + sse_payloads_from(all.skip(i + 1)))
                    =~= prev.push(payload@) + sse_payloads_from(all.skip(i + 1)));
            }
        }
        i = i + 1;
    }
    assert(all.skip(lines@.len() as int) =~= Seq::<Seq<char>>::empty());
    assert(out@.map_values(|s: String| s@) + Seq::<Seq<char>>::empty() =~= out@.map_values(
        |s: String| s@,
    ));
    out
}

/// Index of the first chunk whose `usage` member is present and not null.
pub open spec fn first_usage_index(chunks: Seq<JsonValue>, from: int) -> Option<int>
    decreases chunks.len() - from,
{
    if from < 0 || from >= chunks.len() {
        None
    } else if json_get(chunks[from], "usage"@) matches Some(u) && !(u is Null) {
        Some(from)
    } else {
        first_usage_index(chunks, from + 1)
    }
}

/// The first non-null `usage` member among the parsed chunks of a stream.
pub fn first_stream_usage(chunks: &[JsonValue]) -> (r: Option<&JsonValue>)
    ensures
        r is Some == first_usage_index(chunks@, 0) is Some,
        r matches Some(u) ==> *u == json_get(chunks@[first_usage_index(chunks@, 0)->0], "usage"@)->0,
{
    let mut i: usize = 0;
    while i < chunks.len()
        invariant
            i <= chunks@.len(),
            first_usage_index(chunks@, 0) == first_usage_index(chunks@, i as int),
        decreases chunks.len() - i,
    {
        match chunks[i].get("usage") {
            Some(u) => {
                if !u.is_null() {
                    return Some(u);
                }
            },
            None => {},
        }
        i = i + 1;
    }
    None
}

/// The usage recorded for a completed stream: what the provider reported in
/// the first chunk with a non-null `usage` member, or else the estimate.
pub open spec fn stream_token_usage(
    request_text: Seq<char>,
    chunks: Seq<JsonValue>,
    response_text: Seq<char>,
) -> TokenUsageView {
    let reported = match first_usage_index(chunks, 0) {
        Some(i) => provider_token_usage(json_get(chunks[i], "usage"@)->0),
        None => None,
    };
    match reported {
        Some(u) => u,
        None => estimated_usage(request_text, response_text),
    }
}

/// The usage reported in a stream, if any, fits the derived-total bound.
pub open spec fn stream_usage_fits(chunks: Seq<JsonValue>) -> bool {
    match first_usage_index(chunks, 0) {
        Some(i) => provider_total_fits(json_get(chunks[i], "usage"@)->0),
        None => true,
    }
}

/// Token usage of a streamed response, from its parsed event chunks: the
/// provider's report when one chunk carries it, otherwise an estimate from
/// `request_text` and `response_text` (the stream body as a JSON string).
/// Also hands back the reported `usage` member itself.
pub fn token_usage_for_stream_response<'a>(
    request_text: &str,
    chunks: &'a [JsonValue],
    response_text: &str,
) -> (r: (Option<TokenUsage>, Option<&'a JsonValue>))
    requires
        stream_usage_fits(chunks@),
    ensures
        r.0 matches Some(u) && u@ == stream_token_usage(request_text@, chunks@, response_text@),
        r.1 is Some == first_usage_index(chunks@, 0) is Some,
        r.1 matches Some(u) ==> *u == json_get(
            chunks@[first_usage_index(chunks@, 0)->0],
            "usage"@,
        )->0,
{
    let provider_usage = first_stream_usage(chunks);
    let reported = match provider_usage {
        Some(u) => token_usage_from_provider(u),
        None => None,
    };
    let usage = match reported {
        Some(u) => u,
        None => estimate_token_usage(request_text, response_text),
    };
    (Some(usage), provider_usage)
}

} // verus!
