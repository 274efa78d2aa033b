//! Specs from the upstream over HTTP.

use crate::codecs;
use crate::datastore::data_providers::{DataProviderRequestResult, DataProviderResult};
use crate::observers;
use crate::observers::{EventStat, OperationType, ProxyEvent, ProxyEventType};
use crate::servers::authorized_request_context;
use crate::servers::authorized_request_context::AuthorizedRequestContext;
use crate::servers::normalized_path::NormalizedPath;
use crate::servers::sdk_key_normalizer;
use crate::text;
use crate::utils::compress_encoder;
use crate::utils::compress_encoder::CompressionEncoder;
use regex::Regex;
use std::sync::Arc;
use vstd::prelude::*;
use vstd::utf8::*;

verus! {

/// A response body and how it is encoded.
#[derive(Debug)]
pub struct ResponsePayload {
    pub encoding: CompressionEncoder,
    pub use_proto: bool,
    pub data: Vec<u8>,
}

/// The model of a payload.
pub struct PayloadView {
    pub encoding: CompressionEncoder,
    pub use_proto: bool,
    pub data: Seq<u8>,
}

impl View for ResponsePayload {
    type V = PayloadView;

    open spec fn view(&self) -> PayloadView {
        PayloadView { encoding: self.encoding, use_proto: self.use_proto, data: self.data@ }
    }
}

/// Takes the data of a key.
pub trait DataProviderObserver {
    fn update(&self, key: &str, data: &str);
}

/// How an attempt to reach the upstream ended.
#[derive(Debug)]
pub enum AttemptOutcome {
    /// There is a response.
    Response,
    /// There is nothing new, which was told without a body.
    NoDataAvailable { status_code: u16 },
    /// There was no connection.
    NotConnected { message: String },
    /// Something else failed.
    Failed { message: String },
}

/// What follows an attempt.
#[derive(Debug)]
pub enum AttemptStep {
    ReadHead,
    TryAgain,
    NoData { status_code: u16 },
    GiveUp { message: String },
}

/// The model of what follows an attempt.
pub enum AttemptStepView {
    ReadHead,
    TryAgain,
    NoData(u16),
    GiveUp(Seq<char>),
}

impl View for AttemptStep {
    type V = AttemptStepView;

    open spec fn view(&self) -> AttemptStepView {
        match self {
            AttemptStep::ReadHead => AttemptStepView::ReadHead,
            AttemptStep::TryAgain => AttemptStepView::TryAgain,
            AttemptStep::NoData { status_code } => AttemptStepView::NoData(*status_code),
            AttemptStep::GiveUp { message } => AttemptStepView::GiveUp(message@),
        }
    }
}

/// What follows an attempt: a missing connection is tried once more.
pub open spec fn step_after(outcome: AttemptOutcome, is_retry: bool) -> AttemptStepView {
    match outcome {
        AttemptOutcome::Response => AttemptStepView::ReadHead,
        AttemptOutcome::NoDataAvailable { status_code } => AttemptStepView::NoData(status_code),
        AttemptOutcome::NotConnected { message } => if is_retry {
            AttemptStepView::GiveUp(message@)
        } else {
            AttemptStepView::TryAgain
        },
        AttemptOutcome::Failed { message } => AttemptStepView::GiveUp(message@),
    }
}

/// The headers of a response that matter here, where they are text.
#[derive(Debug)]
pub struct ResponseHead {
    pub status: u16,
    pub content_encoding: Option<String>,
    pub content_type: Option<String>,
    pub x_since_time: Option<String>,
    pub x_ms_meta_lcut: Option<String>,
}

/// A text in which each secret key, a `secret-` with letters and digits behind
/// it, is replaced.
pub open spec fn secrets_replaced(s: Seq<char>, by: Seq<char>) -> Seq<char>
    decreases s.len(),
{
    if s.len() == 0 {
        s
    } else {
        let n = secret_len(s);
        if 0 < n <= s.len() {
            by + secrets_replaced(s.skip(n), by)
        } else {
            seq![s[0]] + secrets_replaced(s.drop_first(), by)
        }
    }
}

/// The length of the secret key that a text starts with, zero where it starts
/// with none.
pub open spec fn secret_len(s: Seq<char>) -> int {
    if text::has_prefix(s, "secret-"@) && sdk_key_normalizer::alphanumeric_run(s.skip(7)) > 0 {
        7 + sdk_key_normalizer::alphanumeric_run(s.skip(7))
    } else {
        0
    }
}

/// A text in which each match of a pattern is replaced, with the parts of the match
/// put in where dollar signs stand for them.
pub uninterp spec fn matches_expanded(
    pattern: Seq<char>,
    message: Seq<char>,
    by: Seq<char>,
) -> Seq<char>;

/// A text in which each secret key is replaced. A dollar sign in what replaces it
/// stands for a part of the key.
pub open spec fn secrets_redacted(message: Seq<char>, by: Seq<char>) -> Seq<char> {
    if by.contains('$') {
        matches_expanded("(secret-[a-zA-Z0-9]+)"@, message, by)
    } else {
        secrets_replaced(message, by)
    }
}

/// `Regex::replace_all` of the pattern of secret keys by a text. Without a dollar
/// sign in that text each key gives way to it; how dollar signs are expanded is not
/// said, only that it depends on the arguments alone.
#[verifier::external_body]
fn replace_secrets(pattern: &str, message: &str, by: &str) -> (r: String)
    requires
        pattern@ == "(secret-[a-zA-Z0-9]+)"@,
    ensures
        r@ == matches_expanded(pattern@, message@, by@),
        !by@.contains('$') ==> r@ == secrets_replaced(message@, by@),
{
    Regex::new(pattern).unwrap().replace_all(message, by).into_owned()
}

/// `std::str::from_utf8`: the text that some bytes encode, where they encode one.
#[verifier::external_body]
pub(crate) fn utf8_text(data: &[u8]) -> (r: Option<String>)
    ensures
        match r {
            Some(s) => valid_utf8(data@) && s@ == decode_utf8(data@),
            None => !valid_utf8(data@),
        },
{
    std::str::from_utf8(data).ok().map(|s| s.to_string())
}

/// What a failed response holds, without its compression.
pub open spec fn error_body(data: Seq<u8>, encoding: Option<Seq<char>>) -> Option<Seq<u8>> {
    match encoding {
        None => Some(data),
        Some(e) => {
            let name = text::lowered(text::trimmed(e));
            if name == "gzip"@ {
                codecs::gunzipped(data)
            } else if name == "br"@ || name == "statsig-br"@ {
                codecs::unbrotlied(data, 4096)
            } else if name.len() == 0 {
                Some(data)
            } else {
                None
            }
        },
    }
}

/// How much of a failed response is logged, in characters.
pub const MAX_PREVIEW_LEN: usize = 256;

/// How much of a failed response that is no text is logged, in bytes.
pub const MAX_HEX_BYTES: usize = 32;

/// One hexadecimal digit.
pub open spec fn hex_digit(n: int) -> char {
    if n < 10 {
        ('0' as int + n) as char
    } else {
        ('a' as int + n - 10) as char
    }
}

/// The two hexadecimal digits of each byte.
pub open spec fn hex_pairs(data: Seq<u8>) -> Seq<Seq<char>> {
    Seq::new(
        data.len(),
        |i: int| seq![hex_digit(data[i] as int / 16), hex_digit(data[i] as int % 16)],
    )
}

/// The preview of a failed response that is text.
pub open spec fn text_preview(t: Seq<char>) -> Seq<char> {
    let trimmed = text::trimmed(t);
    if trimmed.len() == 0 {
        "<empty>"@
    } else if trimmed.len() > MAX_PREVIEW_LEN {
        trimmed.take(MAX_PREVIEW_LEN as int) + "...<truncated>"@
    } else {
        trimmed
    }
}

/// The preview of a failed response that is no text.
pub open spec fn hex_preview(data: Seq<u8>) -> Seq<char> {
    if data.len() > MAX_HEX_BYTES {
        "<non_utf8 hex="@ + text::join_spec(hex_pairs(data.take(MAX_HEX_BYTES as int)), " "@)
            + " ...<truncated>"@ + ">"@
    } else {
        "<non_utf8 hex="@ + text::join_spec(hex_pairs(data), " "@) + ">"@
    }
}

/// The preview of a failed response.
pub open spec fn preview_of(data: Seq<u8>, encoding: Option<Seq<char>>) -> Seq<char> {
    match error_body(data, encoding) {
        None => "<unable_to_decode encoding="@ + (match encoding {
            Some(e) => e,
            None => "unknown"@,
        }) + ">"@,
        Some(body) => if valid_utf8(body) {
            text_preview(decode_utf8(body))
        } else {
            hex_preview(body)
        },
    }
}

/// The outcome of a request: what it brought, the events to publish in order,
/// and what to log.
pub struct FetchReport {
    pub result: DataProviderResult,
    pub events: Vec<ProxyEvent>,
    pub log: Option<String>,
}

/// The views of some events.
pub open spec fn event_views(v: Seq<ProxyEvent>) -> Seq<observers::EventView> {
    Seq::new(v.len(), |i: int| v[i]@)
}

/// How an error is classed by its status.
pub open spec fn error_class(status_code: Option<u16>) -> DataProviderRequestResult {
    match status_code {
        Some(s) => if s == 401 || s == 403 {
            DataProviderRequestResult::Unauthorized
        } else if 400 <= s <= 499 {
            DataProviderRequestResult::ClientError
        } else {
            DataProviderRequestResult::Error
        },
        None => DataProviderRequestResult::Error,
    }
}

pub open spec fn timed(ms: i64) -> Option<EventStat> {
    Some(EventStat { operation_type: OperationType::Distribution, value: ms })
}

/// The event of a failed request.
pub open spec fn error_event(
    context: authorized_request_context::ContextView,
    lcut: u64,
    ms: i64,
    status_code: Option<u16>,
    encoding: Option<Seq<char>>,
) -> observers::EventView {
    observers::EventView {
        lcut: Some(lcut),
        stat: timed(ms),
        status_code,
        response_encoding: match encoding {
            Some(e) => Some(observers::encoding_tag(e)),
            None => None,
        },
        ..observers::bare_event(ProxyEventType::HttpDataProviderError, Some(context))
    }
}

/// The event of a request that brought nothing new.
pub open spec fn no_data_event(
    context: authorized_request_context::ContextView,
    lcut: u64,
    ms: i64,
    status_code: u16,
) -> observers::EventView {
    observers::EventView {
        lcut: Some(lcut),
        stat: timed(ms),
        status_code: Some(status_code),
        ..observers::bare_event(ProxyEventType::HttpDataProviderNoData, Some(context))
    }
}

/// The time of the last change that a response names: its own header first,
/// then the one of a stored blob.
pub open spec fn named_since_time(head: ResponseHead) -> Option<int> {
    let own = match head.x_since_time {
        Some(t) => text::parse_unsigned(t@, u64::MAX as int),
        None => None,
    };
    match own {
        Some(n) => Some(n),
        None => match head.x_ms_meta_lcut {
            Some(t) => text::parse_unsigned(t@, u64::MAX as int),
            None => None,
        },
    }
}

/// The time of the last change of what a response brought.
pub open spec fn since_time_of(
    head: ResponseHead,
    lcut: u64,
    context: authorized_request_context::ContextView,
) -> u64 {
    if !context.use_lcut {
        lcut
    } else {
        match named_since_time(head) {
            Some(n) => n as u64,
            None => 0,
        }
    }
}

/// The event of a response without the time of its last change.
pub open spec fn bad_lcut_event(
    context: authorized_request_context::ContextView,
    lcut: u64,
    ms: i64,
) -> observers::EventView {
    observers::EventView {
        lcut: Some(lcut),
        stat: timed(ms),
        ..observers::bare_event(ProxyEventType::HttpDataProviderNoDataDueToBadLcut, Some(context))
    }
}

/// Whether a text holds another.
pub open spec fn holds(s: Seq<char>, part: Seq<char>) -> bool {
    exists|i: int| 0 <= i <= s.len() && text::has_prefix(#[trigger] s.skip(i), part)
}

/// Whether a response is binary.
pub open spec fn is_proto(head: ResponseHead) -> bool {
    head.content_type matches Some(c) && holds(c@, "application/octet-stream"@)
}

/// The encoding of a response: plain text where its header names no encoding.
pub open spec fn encoding_of(head: ResponseHead) -> CompressionEncoder {
    match head.content_encoding {
        Some(e) => match compress_encoder::encoder_named(e@) {
            Some(x) => x,
            None => CompressionEncoder::PlainText,
        },
        None => CompressionEncoder::PlainText,
    }
}

/// The event of a response with data.
pub open spec fn got_data_event(
    context: authorized_request_context::ContextView,
    since_time: u64,
    encoding: CompressionEncoder,
    ms: i64,
    status_code: u16,
) -> observers::EventView {
    observers::EventView {
        lcut: Some(since_time),
        stat: timed(ms),
        status_code: Some(status_code),
        response_encoding: Some(
            observers::encoding_tag(compress_encoder::encoder_name(encoding)),
        ),
        ..observers::bare_event(ProxyEventType::HttpDataProviderGotData, Some(context))
    }
}

/// The event with the size of a fetched file.
pub open spec fn file_size_event(
    context: authorized_request_context::ContextView,
    len: int,
) -> observers::EventView {
    observers::EventView {
        stat: Some(
            EventStat {
                operation_type: OperationType::Gauge,
                value: if len <= i64::MAX {
                    len as i64
                } else {
                    i64::MAX
                },
            },
        ),
        ..observers::bare_event(ProxyEventType::DownloadIdListFileSizeBytes, Some(context))
    }
}

/// The events of a response with data, in order.
pub open spec fn success_events(
    head: ResponseHead,
    context: authorized_request_context::ContextView,
    lcut: u64,
    ms: i64,
    len: int,
) -> Seq<observers::EventView> {
    let bad = if context.use_lcut && named_since_time(head) is None {
        seq![bad_lcut_event(context, lcut, ms)]
    } else {
        Seq::empty()
    };
    let got = bad.push(
        got_data_event(
            context,
            since_time_of(head, lcut, context),
            encoding_of(head),
            ms,
            head.status,
        ),
    );
    if context.path is V1DownloadIdListFile {
        got.push(file_size_event(context, len))
    } else {
        got
    }
}

/// The description of a failed response.
pub open spec fn description(head: ResponseHead, data: Seq<u8>) -> Seq<char> {
    "status="@ + text::decimal(head.status as nat) + " content_type="@ + (
    match head.content_type {
        Some(c) => c@,
        None => "unknown"@,
    }) + " response_encoding="@ + (match head.content_encoding {
        Some(c) => c@,
        None => "none"@,
    }) + " body_len="@ + text::decimal(data.len()) + " body_preview="@ + preview_of(
        data,
        text::text_option(head.content_encoding),
    )
}

/// What follows the body of a response.
pub enum BodyStep {
    /// The request has failed.
    Failed(FetchReport),
    /// The request builder decides whether the body is new.
    CheckUpdate(Vec<u8>),
}

/// Fetches specs over HTTP.
pub struct HttpDataProvider {}

fn hex_char(n: u8) -> (r: char)
    requires
        n < 16,
    ensures
        r == hex_digit(n as int),
{
    if n < 10 {
        (48 + n) as char
    } else {
        (97 + (n - 10)) as char
    }
}

/// Whether the text holds another.
pub fn contains_text(s: &str, part: &str) -> (r: bool)
    ensures
        r == holds(s@, part@),
{
    let n = s.unicode_len();
    let mut i: usize = 0;
    while i <= n
        invariant
            n == s@.len(),
            i <= n + 1,
            forall|j: int| 0 <= j < i ==> !text::has_prefix(#[trigger] s@.skip(j), part@),
        decreases n + 1 - i,
    {
        assert(s@.subrange(i as int, n as int) == s@.skip(i as int));
        if text::starts_with(s.substring_char(i, n), part) {
            assert(text::has_prefix(s@.skip(i as int), part@));
            return true;
        }
        if i == n {
            return false;
        }
        i += 1;
    }
    false
}

impl HttpDataProvider {
    /// The messages of an error and of what caused it, one behind the other.
    pub fn make_useful_error_message(chain: &Vec<String>) -> (r: String)
        ensures
            r@ == text::join_spec(text::texts(chain@), "\\nCaused by: "@),
    {
        text::join(chain, "\\nCaused by: ")
    }

    /// What follows an attempt to reach the upstream.
    pub fn after_attempt(outcome: AttemptOutcome, is_retry: bool) -> (r: AttemptStep)
        ensures
            r@ == step_after(outcome, is_retry),
    {
        match outcome {
            AttemptOutcome::Response => AttemptStep::ReadHead,
            AttemptOutcome::NoDataAvailable { status_code } => AttemptStep::NoData { status_code },
            AttemptOutcome::NotConnected { message } => if is_retry {
                AttemptStep::GiveUp { message }
            } else {
                AttemptStep::TryAgain
            },
            AttemptOutcome::Failed { message } => AttemptStep::GiveUp { message },
        }
    }

    /// Whether the body of a response is to be read: not where there is none by
    /// its status.
    pub fn wants_body(head: &ResponseHead) -> (r: bool)
        ensures
            r == (head.status != 204),
    {
        head.status != 204
    }

    pub fn decompress_error_body(data: &[u8], response_encoding: &Option<String>) -> (r: Option<
        Vec<u8>,
    >)
        ensures
            codecs::bytes_option(r) == error_body(data@, text::text_option(*response_encoding)),
    {
        let encoding = match response_encoding {
            Some(e) => e,
            None => {
                return Some(vstd::slice::slice_to_vec(data));
            },
        };
        let name = text::to_lowered(text::trim(encoding.as_str()));
        if text::same_text(name.as_str(), "gzip") {
            codecs::gunzip(data)
        } else if text::same_text(name.as_str(), "br") || text::same_text(
            name.as_str(),
            "statsig-br",
        ) {
            codecs::unbrotli(data, 4096)
        } else if name.as_str().is_empty() {
            Some(vstd::slice::slice_to_vec(data))
        } else {
            None
        }
    }

    /// The start of a failed response, as text where it is text.
    pub fn format_error_body_preview(data: &[u8], response_encoding: &Option<String>) -> (r: String)
        ensures
            r@ == preview_of(data@, text::text_option(*response_encoding)),
    {
        let decoded = match Self::decompress_error_body(data, response_encoding) {
            Some(decoded) => decoded,
            None => {
                let mut out = "<unable_to_decode encoding=".to_owned();
                match response_encoding {
                    Some(e) => out.append(e.as_str()),
                    None => out.append("unknown"),
                }
                out.append(">");
                return out;
            },
        };
        if let Some(t) = utf8_text(decoded.as_slice()) {
            let trimmed = text::trim(t.as_str());
            let n = trimmed.unicode_len();
            let preview = if n == 0 {
                "<empty>".to_owned()
            } else if n > MAX_PREVIEW_LEN {
                assert(trimmed@.subrange(0, 256) == trimmed@.take(256));
                let mut out = trimmed.substring_char(0, MAX_PREVIEW_LEN).to_owned();
                out.append("...<truncated>");
                out
            } else {
                trimmed.to_owned()
            };
            return preview;
        }
        let n: usize = decoded.len();
        let shown: usize = if n > MAX_HEX_BYTES {
            MAX_HEX_BYTES
        } else {
            n
        };
        let ghost part = decoded@.take(shown as int);
        let mut pairs: Vec<String> = Vec::new();
        let mut i: usize = 0;
        while i < shown
            invariant
                i <= shown <= decoded@.len(),
                part == decoded@.take(shown as int),
                text::texts(pairs@) =~= hex_pairs(part).take(i as int),
            decreases shown - i,
        {
            let b: u8 = decoded[i];
            let mut pair = String::new();
            pair.push(hex_char(b / 16));
            pair.push(hex_char(b % 16));
            let ghost before = pairs@;
            assert(pair@ =~= hex_pairs(part)[i as int]);
            pairs.push(pair);
            assert(text::texts(pairs@) =~= text::texts(before).push(pair@));
            i += 1;
        }
        assert(text::texts(pairs@) =~= hex_pairs(part));
        let mut out = "<non_utf8 hex=".to_owned();
        out.append(text::join(&pairs, " ").as_str());
        if n > MAX_HEX_BYTES {
            out.append(" ...<truncated>");
        } else {
            assert(part =~= decoded@);
        }
        out.append(">");
        out
    }

    /// The report of a failed request.
    pub fn handle_error(
        message: String,
        elapsed_ms: i64,
        request_context: &Arc<AuthorizedRequestContext>,
        lcut: u64,
        status_code: Option<u16>,
        response_encoding: Option<String>,
    ) -> (r: FetchReport)
        requires
            observers::is_loggable(request_context@.sdk_key),
        ensures
            r.result.result == error_class(status_code),
            r.result.body is None,
            r.result.lcut == 0,
            event_views(r.events@) == seq![
                error_event(
                    request_context@,
                    lcut,
                    elapsed_ms,
                    status_code,
                    text::text_option(response_encoding),
                ),
            ],
            r.log is Some,
            (r.log->0)@ == "Failed to get data from http provider. "@ + secrets_redacted(
                message@,
                observers::tagged_key(request_context@.sdk_key),
            ),
    {
        let mut event = ProxyEvent::new_with_rc(
            ProxyEventType::HttpDataProviderError,
            request_context,
        ).with_lcut(lcut).with_stat(
            EventStat { operation_type: OperationType::Distribution, value: elapsed_ms },
        );
        if let Some(code) = status_code {
            event = event.with_status_code(code);
        }
        if let Some(encoding) = response_encoding {
            event = event.with_response_encoding(encoding);
        }
        let key = match event.get_sdk_key() {
            Some(key) => key,
            None => "REDACTED".to_owned(),
        };
        let redacted = replace_secrets("(secret-[a-zA-Z0-9]+)", message.as_str(), key.as_str());
        let mut log = "Failed to get data from http provider. ".to_owned();
        log.append(redacted.as_str());
        let result = match status_code {
            Some(s) => if s == 401 || s == 403 {
                DataProviderRequestResult::Unauthorized
            } else if 400 <= s && s <= 499 {
                DataProviderRequestResult::ClientError
            } else {
                DataProviderRequestResult::Error
            },
            None => DataProviderRequestResult::Error,
        };
        let mut events: Vec<ProxyEvent> = Vec::new();
        events.push(event);
        assert(event_views(events@) =~= seq![
            error_event(
                request_context@,
                lcut,
                elapsed_ms,
                status_code,
                text::text_option(response_encoding),
            ),
        ]);
        FetchReport {
            result: DataProviderResult { result, body: None, lcut: 0 },
            events,
            log: Some(log),
        }
    }

    /// The report of a request that brought nothing new.
    pub fn handle_no_data(
        lcut: u64,
        elapsed_ms: i64,
        request_context: &Arc<AuthorizedRequestContext>,
        status_code: u16,
    ) -> (r: FetchReport)
        ensures
            r.result.result == DataProviderRequestResult::NoDataAvailable,
            r.result.body is None,
            r.result.lcut == 0,
            event_views(r.events@) == seq![
                no_data_event(request_context@, lcut, elapsed_ms, status_code),
            ],
            r.log is None,
    {
        let event = ProxyEvent::new_with_rc(
            ProxyEventType::HttpDataProviderNoData,
            request_context,
        ).with_lcut(lcut).with_status_code(status_code).with_stat(
            EventStat { operation_type: OperationType::Distribution, value: elapsed_ms },
        );
        let mut events: Vec<ProxyEvent> = Vec::new();
        events.push(event);
        assert(event_views(events@) =~= seq![
            no_data_event(request_context@, lcut, elapsed_ms, status_code),
        ]);
        FetchReport {
            result: DataProviderResult {
                result: DataProviderRequestResult::NoDataAvailable,
                body: None,
                lcut: 0,
            },
            events,
            log: None,
        }
    }

    /// What follows the body of a response, or the failure to read it.
    pub fn after_body(
        head: &ResponseHead,
        body: Result<Vec<u8>, String>,
        elapsed_ms: i64,
        request_context: &Arc<AuthorizedRequestContext>,
        lcut: u64,
    ) -> (r: BodyStep)
        requires
            observers::is_loggable(request_context@.sdk_key),
        ensures
            match r {
                BodyStep::CheckUpdate(data) => {
                    &&& body == Ok::<Vec<u8>, String>(data)
                    &&& 200 <= head.status <= 299
                },
                BodyStep::Failed(report) => {
                    &&& body is Err || !(200 <= head.status <= 299)
                    &&& report.result.result == error_class(Some(head.status))
                    &&& report.result.body is None
                    &&& report.result.lcut == 0
                    &&& event_views(report.events@) == seq![
                        error_event(
                            request_context@,
                            lcut,
                            elapsed_ms,
                            Some(head.status),
                            if body is Err {
                                None
                            } else {
                                text::text_option(head.content_encoding)
                            },
                        ),
                    ]
                    &&& report.log is Some
                    &&& (report.log->0)@ == "Failed to get data from http provider. "@
                        + secrets_redacted(
                        match body {
                            Ok(data) => description(*head, data@),
                            Err(e) => e@,
                        },
                        observers::tagged_key(request_context@.sdk_key),
                    )
                },
            },
    {
        let data = match body {
            Ok(data) => data,
            Err(message) => {
                return BodyStep::Failed(
                    Self::handle_error(
                        message,
                        elapsed_ms,
                        request_context,
                        lcut,
                        Some(head.status),
                        None,
                    ),
                );
            },
        };
        if 200 <= head.status && head.status <= 299 {
            return BodyStep::CheckUpdate(data);
        }
        let preview = Self::format_error_body_preview(data.as_slice(), &head.content_encoding);
        let mut message = "status=".to_owned();
        text::push_decimal(&mut message, head.status as u64);
        message.append(" content_type=");
        match &head.content_type {
            Some(c) => message.append(c.as_str()),
            None => message.append("unknown"),
        }
        message.append(" response_encoding=");
        match &head.content_encoding {
            Some(c) => message.append(c.as_str()),
            None => message.append("none"),
        }
        message.append(" body_len=");
        text::push_decimal(&mut message, data.len() as u64);
        message.append(" body_preview=");
        message.append(preview.as_str());
        BodyStep::Failed(
            Self::handle_error(
                message,
                elapsed_ms,
                request_context,
                lcut,
                Some(head.status),
                head.content_encoding.clone(),
            ),
        )
    }

    /// The time of the last change of what a response brought, and the event
    /// where it names none.
    pub fn parse_since_time(
        head: &ResponseHead,
        lcut: u64,
        elapsed_ms: i64,
        request_context: &Arc<AuthorizedRequestContext>,
    ) -> (r: (u64, Option<ProxyEvent>))
        ensures
            r.0 == since_time_of(*head, lcut, request_context@),
            match r.1 {
                Some(e) => request_context@.use_lcut && named_since_time(*head) is None && e@
                    == bad_lcut_event(request_context@, lcut, elapsed_ms),
                None => !request_context@.use_lcut || named_since_time(*head) is Some,
            },
    {
        if !request_context.use_lcut {
            return (lcut, None);
        }
        if let Some(t) = &head.x_since_time {
            if let Some(n) = text::parse_u64(t.as_str()) {
                return (n, None);
            }
        }
        if let Some(t) = &head.x_ms_meta_lcut {
            if let Some(n) = text::parse_u64(t.as_str()) {
                return (n, None);
            }
        }
        let event = ProxyEvent::new_with_rc(
            ProxyEventType::HttpDataProviderNoDataDueToBadLcut,
            request_context,
        ).with_lcut(lcut).with_stat(
            EventStat { operation_type: OperationType::Distribution, value: elapsed_ms },
        );
        (0, Some(event))
    }

    pub fn parse_use_proto(head: &ResponseHead) -> (r: bool)
        ensures
            r == is_proto(*head),
    {
        match &head.content_type {
            Some(c) => contains_text(c.as_str(), "application/octet-stream"),
            None => false,
        }
    }

    /// The event with the size of a fetched file, where a file was fetched.
    pub fn publish_download_id_list_file_size_metric(
        request_context: &Arc<AuthorizedRequestContext>,
        fetched_blob_len: u64,
    ) -> (r: Option<ProxyEvent>)
        ensures
            match r {
                Some(e) => request_context@.path is V1DownloadIdListFile && e@ == file_size_event(
                    request_context@,
                    fetched_blob_len as int,
                ),
                None => !(request_context@.path is V1DownloadIdListFile),
            },
    {
        if request_context.path != NormalizedPath::V1DownloadIdListFile {
            return None;
        }
        let value: i64 = if fetched_blob_len <= i64::MAX as u64 {
            fetched_blob_len as i64
        } else {
            i64::MAX
        };
        Some(
            ProxyEvent::new_with_rc(
                ProxyEventType::DownloadIdListFileSizeBytes,
                request_context,
            ).with_stat(EventStat { operation_type: OperationType::Gauge, value }),
        )
    }

    /// The report of a successful response, once it is known whether its body is
    /// new.
    pub fn after_update_check(
        head: &ResponseHead,
        data: Vec<u8>,
        is_an_update: bool,
        elapsed_ms: i64,
        request_context: &Arc<AuthorizedRequestContext>,
        lcut: u64,
    ) -> (r: FetchReport)
        ensures
            r.log is None,
            r.result.body is Some <==> is_an_update,
            r.result.body matches Some(p) ==> p.data@ == data@ && (
            head.content_encoding matches Some(name) ==> (compress_encoder::encoder_named(
                name@,
            ) matches Some(x) ==> p.encoding == x)),
            if is_an_update {
                &&& r.result.result == DataProviderRequestResult::DataAvailable
                &&& r.result.lcut == since_time_of(*head, lcut, request_context@)
                &&& r.result.body matches Some(p) && p@ == (PayloadView {
                    encoding: encoding_of(*head),
                    use_proto: is_proto(*head),
                    data: data@,
                })
                &&& event_views(r.events@) == success_events(
                    *head,
                    request_context@,
                    lcut,
                    elapsed_ms,
                    data@.len() as int,
                )
            } else {
                &&& r.result.result == DataProviderRequestResult::NoDataAvailable
                &&& r.result.body is None
                &&& r.result.lcut == 0
                &&& event_views(r.events@) == seq![
                    no_data_event(request_context@, lcut, elapsed_ms, head.status),
                ]
            },
    {
        if !is_an_update {
            return Self::handle_no_data(lcut, elapsed_ms, request_context, head.status);
        }
        let mut events: Vec<ProxyEvent> = Vec::new();
        let (since_time, bad) = Self::parse_since_time(head, lcut, elapsed_ms, request_context);
        assert(event_views(events@) =~= Seq::<observers::EventView>::empty());
        if let Some(e) = bad {
            events.push(e);
            assert(event_views(events@) =~= seq![e@]);
        }
        let use_proto = Self::parse_use_proto(head);
        let encoding = match &head.content_encoding {
            Some(e) => match CompressionEncoder::named(e.as_str()) {
                Some(x) => x,
                None => CompressionEncoder::PlainText,
            },
            None => CompressionEncoder::PlainText,
        };
        let got = ProxyEvent::new_with_rc(
            ProxyEventType::HttpDataProviderGotData,
            request_context,
        ).with_lcut(since_time).with_response_encoding(encoding.to_string()).with_status_code(
            head.status,
        ).with_stat(EventStat { operation_type: OperationType::Distribution, value: elapsed_ms });
        let ghost before = events@;
        events.push(got);
        assert(event_views(events@) =~= event_views(before).push(got@));
        let ghost middle = events@;
        if let Some(e) = Self::publish_download_id_list_file_size_metric(
            request_context,
            data.len() as u64,
        ) {
            events.push(e);
            assert(event_views(events@) =~= event_views(middle).push(e@));
        }
        FetchReport {
            result: DataProviderResult {
                result: DataProviderRequestResult::DataAvailable,
                body: Some(Arc::new(ResponsePayload { encoding, use_proto, data })),
                lcut: since_time,
            },
            events,
            log: None,
        }
    }
}

/// Only a refused key is classed as unauthorized.
pub proof fn law_error_classes(status: u16)
    ensures
        error_class(Some(status)) == DataProviderRequestResult::Unauthorized <==> status == 401
            || status == 403,
        error_class(Some(status)) == DataProviderRequestResult::ClientError <==> 400 <= status
            <= 499 && status != 401 && status != 403,
        error_class(None) == DataProviderRequestResult::Error,
{
}

/// The payload of an answer has the encoding that its Content-Encoding header names,
/// however it is cased. It is plain only where the header is missing, where it names
/// none that is known, or where it names that one.
pub proof fn law_payloads_keep_their_encoding(head: ResponseHead, encoder: CompressionEncoder)
    ensures
        head.content_encoding matches Some(name) ==> {
            &&& compress_encoder::encoder_named(name@) == Some(encoder) ==> encoding_of(head)
                == encoder
            &&& compress_encoder::encoder_named(name@) is None ==> encoding_of(head)
                == CompressionEncoder::PlainText
            &&& text::lowered(name@) == "gzip"@ ==> encoding_of(head) == CompressionEncoder::Gzip
            &&& text::lowered(name@) == "br"@ ==> encoding_of(head) == CompressionEncoder::Brotli
            &&& text::lowered(name@) == "statsig-br"@ ==> encoding_of(head)
                == CompressionEncoder::StatsigBrotli
        },
        head.content_encoding is None ==> encoding_of(head) == CompressionEncoder::PlainText,
        encoding_of(head) != CompressionEncoder::PlainText ==> head.content_encoding is Some,
{
    if let Some(name) = head.content_encoding {
        compress_encoder::law_encodings_have_their_usual_names(CompressionEncoder::Gzip);
        compress_encoder::law_encodings_have_their_usual_names(CompressionEncoder::Brotli);
        compress_encoder::law_encodings_have_their_usual_names(CompressionEncoder::StatsigBrotli);
        compress_encoder::law_encodings_are_read_by_name(CompressionEncoder::Gzip, name@);
        compress_encoder::law_encodings_are_read_by_name(CompressionEncoder::Brotli, name@);
        compress_encoder::law_encodings_are_read_by_name(CompressionEncoder::StatsigBrotli, name@);
    }
}

/// A payload is taken for protobuf exactly where its Content-Type holds the word for
/// bytes, wherever in it.
pub proof fn law_bytes_are_taken_for_protobuf(
    head: ResponseHead,
    before: Seq<char>,
    after: Seq<char>,
)
    ensures
        (head.content_type matches Some(c) && c@ == before + "application/octet-stream"@ + after)
            ==> is_proto(head),
        is_proto(head) ==> (head.content_type matches Some(c) && exists|i: int|
            0 <= i && i + "application/octet-stream"@.len() <= c@.len()
                && #[trigger] c@.subrange(i, i + "application/octet-stream"@.len() as int)
                == "application/octet-stream"@),
{
    let word = "application/octet-stream"@;
    if let Some(c) = head.content_type {
        if c@ == before + word + after {
            let i = before.len() as int;
            assert(c@.skip(i).take(word.len() as int) =~= word);
            assert(text::has_prefix(c@.skip(i), word));
        }
        if is_proto(head) {
            let i = choose|i: int|
                0 <= i <= c@.len() && text::has_prefix(#[trigger] c@.skip(i), word);
            assert(c@.subrange(i, i + word.len() as int) =~= word);
        }
    }
}

/// Where the time of an answer counts, it is that of its own header, else that of the
/// blob's, and zero where neither tells one. Where it does not count, it is the time that
/// was asked from.
pub proof fn law_answers_tell_their_time(
    head: ResponseHead,
    lcut: u64,
    context: authorized_request_context::ContextView,
    own: u64,
    of_blob: u64,
)
    ensures
        !context.use_lcut ==> since_time_of(head, lcut, context) == lcut,
        context.use_lcut && (head.x_since_time matches Some(t) && t@ == text::decimal(own as nat))
            ==> since_time_of(head, lcut, context) == own,
        context.use_lcut && head.x_since_time is None && (head.x_ms_meta_lcut matches Some(t) && t@
            == text::decimal(of_blob as nat)) ==> since_time_of(head, lcut, context) == of_blob,
        context.use_lcut && head.x_since_time is None && head.x_ms_meta_lcut is None
            ==> since_time_of(head, lcut, context) == 0,
{
    text::law_numbers_are_read_back(own as nat, own as nat, u64::MAX as int);
    text::law_numbers_are_read_back(of_blob as nat, of_blob as nat, u64::MAX as int);
}

/// Only a request that did not connect is tried again, and that once.
pub proof fn law_requests_are_tried_twice_at_most(outcome: AttemptOutcome, is_retry: bool)
    ensures
        step_after(outcome, is_retry) is TryAgain <==> outcome is NotConnected && !is_retry,
        step_after(outcome, true) !is TryAgain,
        step_after(outcome, is_retry) is ReadHead <==> outcome is Response,
        step_after(outcome, is_retry) is NoData <==> outcome is NoDataAvailable,
        outcome matches AttemptOutcome::NoDataAvailable { status_code } ==> step_after(
            outcome,
            is_retry,
        ) == AttemptStepView::NoData(status_code),
        outcome matches AttemptOutcome::Failed { message } ==> step_after(outcome, is_retry)
            == AttemptStepView::GiveUp(message@),
        outcome matches AttemptOutcome::NotConnected { message } ==> step_after(outcome, true)
            == AttemptStepView::GiveUp(message@),
{
}

/// The body of an error is read as its encoding says, however that is written and spaced,
/// and as it is where no encoding is named.
pub proof fn law_error_bodies_are_decoded(data: Seq<u8>, encoding: Seq<char>)
    ensures
        error_body(data, None) == Some(data),
        text::lowered(text::trimmed(encoding)) == "gzip"@ ==> error_body(data, Some(encoding))
            == codecs::gunzipped(data),
        text::lowered(text::trimmed(encoding)) == "br"@ || text::lowered(text::trimmed(encoding))
            == "statsig-br"@ ==> error_body(data, Some(encoding)) == codecs::unbrotlied(
            data,
            4096,
        ),
        text::trimmed(encoding).len() == 0 ==> error_body(data, Some(encoding)) == Some(data),
{
    reveal_strlit("gzip");
    reveal_strlit("br");
    reveal_strlit("statsig-br");
    assert("gzip"@.len() == 4 && "br"@.len() == 2 && "statsig-br"@.len() == 10);
}

/// The preview of an error's body is never longer than its limit and the mark of the cut,
/// and begins as the text does. A short text is shown whole.
pub proof fn law_previews_are_short(t: Seq<char>)
    ensures
        0 < text::trimmed(t).len() <= MAX_PREVIEW_LEN ==> text_preview(t) == text::trimmed(t),
        text::trimmed(t).len() > MAX_PREVIEW_LEN ==> {
            &&& text_preview(t).take(MAX_PREVIEW_LEN as int) == text::trimmed(t).take(
                MAX_PREVIEW_LEN as int,
            )
            &&& text_preview(t).skip(MAX_PREVIEW_LEN as int) == "...<truncated>"@
        },
        text::trimmed(t).len() == 0 ==> text_preview(t) == "<empty>"@,
{
    let trimmed = text::trimmed(t);
    if trimmed.len() > MAX_PREVIEW_LEN {
        assert(text_preview(t).take(MAX_PREVIEW_LEN as int) =~= trimmed.take(
            MAX_PREVIEW_LEN as int,
        ));
        assert(text_preview(t).skip(MAX_PREVIEW_LEN as int) =~= "...<truncated>"@);
    }
}

/// Different bytes have different digits.
pub proof fn law_bytes_are_told_apart_by_their_digits(a: Seq<u8>, b: Seq<u8>)
    ensures
        hex_pairs(a).len() == a.len(),
        hex_pairs(a) == hex_pairs(b) ==> a == b,
{
    if hex_pairs(a) == hex_pairs(b) {
        assert(hex_pairs(a).len() == a.len() && hex_pairs(b).len() == b.len());
        assert forall|i: int| 0 <= i < a.len() implies a[i] == b[i] by {
            let x = a[i] as int;
            let y = b[i] as int;
            assert(hex_pairs(a)[i][0] == hex_digit(x / 16));
            assert(hex_pairs(a)[i][1] == hex_digit(x % 16));
            assert(hex_pairs(b)[i][0] == hex_digit(y / 16));
            assert(hex_pairs(b)[i][1] == hex_digit(y % 16));
        }
        assert(a =~= b);
    }
}

/// A text without a key in it is logged as it is. A key in it is replaced whole, and what
/// follows it is looked through in turn.
pub proof fn law_keys_are_taken_out(s: Seq<char>, by: Seq<char>)
    ensures
        (forall|i: int| 0 <= i < s.len() ==> secret_len(#[trigger] s.skip(i)) == 0)
            ==> secrets_replaced(s, by) == s,
        0 < secret_len(s) <= s.len() ==> secrets_replaced(s, by) == by + secrets_replaced(
            s.skip(secret_len(s)),
            by,
        ),
        s.len() > 0 && secret_len(s) == 0 ==> secrets_replaced(s, by) == seq![s[0]]
            + secrets_replaced(s.skip(1), by),
    decreases s.len(),
{
    assert(s.len() > 0 ==> s.drop_first() =~= s.skip(1));
    if s.len() > 0 && forall|i: int| 0 <= i < s.len() ==> secret_len(#[trigger] s.skip(i)) == 0 {
        assert(s.skip(0) =~= s);
        let rest = s.skip(1);
        assert forall|i: int| 0 <= i < rest.len() implies secret_len(#[trigger] rest.skip(i))
            == 0 by {
            assert(rest.skip(i) =~= s.skip(i + 1));
        }
        law_keys_are_taken_out(rest, by);
        assert(s =~= seq![s[0]] + rest);
    }
}

/// Digits are those of base sixteen, in lower case.
pub proof fn law_digits_are_hexadecimal(n: int)
    requires
        0 <= n < 16,
    ensures
        n < 10 ==> hex_digit(n) as u32 == '0' as u32 + n,
        n >= 10 ==> hex_digit(n) as u32 == 'a' as u32 + (n - 10),
{
}

/// The body of an error is shown as its text, in digits where it is none, and as what could
/// not be decoded where it could not.
pub proof fn law_error_bodies_are_shown(data: Seq<u8>, encoding: Option<Seq<char>>)
    ensures
        error_body(data, encoding) matches Some(body) ==> {
            &&& valid_utf8(body) ==> preview_of(data, encoding) == text_preview(decode_utf8(body))
            &&& !valid_utf8(body) ==> preview_of(data, encoding) == hex_preview(body)
        },
        error_body(data, encoding) is None ==> text::has_prefix(
            preview_of(data, encoding),
            "<unable_to_decode encoding="@,
        ),
{
    if error_body(data, encoding) is None {
        let p = "<unable_to_decode encoding="@;
        let r = preview_of(data, encoding);
        assert(r.take(p.len() as int) =~= p);
    }
}

/// Bytes that are no text are shown by the digits of the first of them, and marked where
/// there are more.
pub proof fn law_long_bytes_are_shown_in_part(data: Seq<u8>, rest: Seq<u8>)
    ensures
        data.len() <= MAX_HEX_BYTES ==> hex_preview(data) == "<non_utf8 hex="@ + text::join_spec(
            hex_pairs(data),
            " "@,
        ) + ">"@,
        data.len() == MAX_HEX_BYTES && rest.len() > 0 ==> hex_preview(data + rest)
            == "<non_utf8 hex="@ + text::join_spec(hex_pairs(data), " "@) + " ...<truncated>"@ + ">"@,
{
    assert((data + rest).take(data.len() as int) =~= data);
}

/// The events of a fetch tell what came of it, with its time, how long it took and its
/// status.
pub proof fn law_fetches_are_told(
    head: ResponseHead,
    c: authorized_request_context::ContextView,
    lcut: u64,
    ms: i64,
    len: int,
    status: Option<u16>,
    encoding: Option<Seq<char>>,
)
    ensures
        ({
            let all = success_events(head, c, lcut, ms, len);
            let bad = c.use_lcut && named_since_time(head) is None;
            let file = c.path is V1DownloadIdListFile;
            let n: int = if bad {
                1
            } else {
                0
            };
            &&& all.len() == 1 + n + (if file {
                1int
            } else {
                0
            })
            &&& all[n].event_type == ProxyEventType::HttpDataProviderGotData
            &&& all[n].lcut == Some(since_time_of(head, lcut, c))
            &&& all[n].status_code == Some(head.status)
            &&& all[n].stat == Some(
                EventStat { operation_type: OperationType::Distribution, value: ms },
            )
            &&& all[n].context == Some(c)
            &&& bad ==> all[0].event_type == ProxyEventType::HttpDataProviderNoDataDueToBadLcut
                && all[0].lcut == Some(lcut) && all[0].context == Some(c)
            &&& file ==> all.last().event_type == ProxyEventType::DownloadIdListFileSizeBytes
                && all.last().context == Some(c)
            &&& file && 0 <= len <= i64::MAX ==> all.last().stat == Some(
                EventStat { operation_type: OperationType::Gauge, value: len as i64 },
            )
        }),
        ({
            let e = error_event(c, lcut, ms, status, encoding);
            &&& e.event_type == ProxyEventType::HttpDataProviderError
            &&& e.context == Some(c)
            &&& e.lcut == Some(lcut)
            &&& e.status_code == status
            &&& e.stat == Some(
                EventStat { operation_type: OperationType::Distribution, value: ms },
            )
            &&& e.response_encoding is Some <==> encoding is Some
        }),
        ({
            let e = no_data_event(c, lcut, ms, head.status);
            &&& e.event_type == ProxyEventType::HttpDataProviderNoData
            &&& e.context == Some(c)
            &&& e.lcut == Some(lcut)
            &&& e.status_code == Some(head.status)
        }),
{
}

/// A message without a `$` in what replaces its keys has them replaced by it.
pub proof fn law_messages_have_their_keys_replaced(message: Seq<char>, by: Seq<char>)
    requires
        !by.contains('$'),
    ensures
        secrets_redacted(message, by) == secrets_replaced(message, by),
{
}

/// A key is a word that starts as secret ones do and goes on with letters or digits, as far
/// as those go.
pub proof fn law_keys_are_known_by_their_start(name: Seq<char>, rest: Seq<char>, by: Seq<char>)
    requires
        name.len() > 0,
        forall|i: int|
            0 <= i < name.len() ==> sdk_key_normalizer::is_alphanumeric(#[trigger] name[i]),
        rest.len() > 0 ==> !sdk_key_normalizer::is_alphanumeric(rest[0]),
    ensures
        secrets_replaced("secret-"@ + name + rest, by) == by + secrets_replaced(rest, by),
{
    reveal_strlit("secret-");
    let s = "secret-"@ + name + rest;
    assert("secret-"@.len() == 7);
    assert(s.take(7) =~= "secret-"@);
    assert(s.skip(7) =~= name + rest);
    sdk_key_normalizer::lemma_run(name, rest);
    assert(secret_len(s) == 7 + name.len());
    assert(s.skip(7 + name.len() as int) =~= rest);
}

/// The description of a failed answer starts with its status and ends with its body's
/// preview.
pub proof fn law_failed_answers_are_described(head: ResponseHead, data: Seq<u8>)
    ensures
        text::has_prefix(
            description(head, data),
            "status="@ + text::decimal(head.status as nat) + " content_type="@,
        ),
        text::has_suffix(
            description(head, data),
            " body_len="@ + text::decimal(data.len()) + " body_preview="@ + preview_of(
                data,
                text::text_option(head.content_encoding),
            ),
        ),
{
    let d = description(head, data);
    let p = "status="@ + text::decimal(head.status as nat) + " content_type="@;
    let s = " body_len="@ + text::decimal(data.len()) + " body_preview="@ + preview_of(
        data,
        text::text_option(head.content_encoding),
    );
    let kind = match head.content_type {
        Some(c) => c@,
        None => "unknown"@,
    };
    let coding = match head.content_encoding {
        Some(c) => c@,
        None => "none"@,
    };
    let middle = kind + " response_encoding="@ + coding;
    assert(d =~= p + middle + s);
    assert((p + middle + s).take(p.len() as int) =~= p);
    assert((p + middle + s).skip(d.len() - s.len()) =~= s);
}

} // verus!
