//! The event that each request leaves behind.

use crate::clock::Duration;
use crate::keyed_store;
use crate::observers;
use crate::observers::{EventStat, OperationType, ProxyEvent, ProxyEventType};
use crate::servers::authorized_request_context;
use crate::servers::authorized_request_context::{
    AuthorizedRequestContext, AuthorizedRequestContextCache, RequestHead,
};
use crate::servers::normalized_path;
use crate::servers::normalized_path::NormalizedPath;
use crate::text;
use crate::utils::compress_encoder;
use crate::utils::compress_encoder::ParsedAcceptEncoding;
use crate::utils::request_helper;
use std::sync::Arc;
use vstd::prelude::*;

verus! {

/// Told as the duration where none was measured.
pub const MISSING_TIMER_SENTINEL_MS: i64 = -2;

/// What of a request and its response goes into the event.
#[derive(Debug)]
pub struct LoggedExchange {
    pub head: RequestHead,
    /// The `statsig-sdk-type` header.
    pub sdk_type: Option<String>,
    /// The `statsig-sdk-version` header.
    pub sdk_version: Option<String>,
    /// The `x-request-service` header.
    pub service: Option<String>,
    pub status: u16,
    /// The `x-since-time` header of the response.
    pub x_since_time: Option<String>,
    /// All `Content-Encoding` headers of the response.
    pub content_encoding: Vec<String>,
    /// The `x-cache-hit` header of the response.
    pub x_cache_hit: Option<String>,
    /// The `x-deltas-used` header of the response.
    pub x_deltas_used: Option<String>,
    /// How long the request took, where that was measured.
    pub elapsed: Option<Duration>,
}

/// Whether a status tells success.
pub open spec fn is_success(status: u16) -> bool {
    200 <= status <= 299
}

/// A duration in whole milliseconds, or the mark of a missing one.
pub open spec fn duration_ms(elapsed: Option<Duration>) -> i64 {
    match elapsed {
        Some(d) => if d@ / 1_000_000 <= i64::MAX {
            (d@ / 1_000_000) as i64
        } else {
            MISSING_TIMER_SENTINEL_MS
        },
        None => MISSING_TIMER_SENTINEL_MS,
    }
}

pub fn request_duration_ms(elapsed: Option<Duration>) -> (r: i64)
    ensures
        r == duration_ms(elapsed),
{
    match elapsed {
        Some(d) => {
            let ms: u128 = d.as_millis();
            if ms <= i64::MAX as u128 {
                ms as i64
            } else {
                MISSING_TIMER_SENTINEL_MS
            }
        },
        None => MISSING_TIMER_SENTINEL_MS,
    }
}

/// Whether the kind of payload is told: for specs that were served.
pub open spec fn tells_payload_type(path: normalized_path::PathView, status: u16) -> bool {
    is_success(status) && (path is V1DownloadConfigSpecs || path is V2DownloadConfigSpecs
        || path is V2DownloadConfigSpecsDeltas)
}

pub fn should_log_response_payload_type(path: &NormalizedPath, status: u16) -> (r: bool)
    ensures
        r == tells_payload_type(path@, status),
{
    200 <= status && status <= 299 && match path {
        NormalizedPath::V1DownloadConfigSpecs
        | NormalizedPath::V2DownloadConfigSpecs
        | NormalizedPath::V2DownloadConfigSpecsDeltas => true,
        _ => false,
    }
}

/// Whether a header says true, in letters of any case.
pub open spec fn says_true(header: Option<Seq<char>>) -> bool {
    match header {
        Some(value) => text::lowered(value) == text::lowered("true"@),
        None => false,
    }
}

fn header_is_true(header: &Option<String>) -> (r: bool)
    ensures
        r == says_true(text::text_option(*header)),
{
    match header {
        Some(value) => text::same_lowered(value.as_str(), "true"),
        None => false,
    }
}

/// The kind of payload that the headers of a response tell.
pub open spec fn payload_type(cache_hit: Option<Seq<char>>, deltas_used: Option<Seq<char>>) -> Seq<
    char,
> {
    if says_true(deltas_used) {
        if says_true(cache_hit) {
            "delta_no_update"@
        } else {
            "delta"@
        }
    } else if says_true(cache_hit) {
        "no_update"@
    } else {
        "full"@
    }
}

pub fn classify_response_payload_type(
    x_cache_hit: &Option<String>,
    x_deltas_used: &Option<String>,
) -> (r: &'static str)
    ensures
        r@ == payload_type(text::text_option(*x_cache_hit), text::text_option(*x_deltas_used)),
{
    let no_update = header_is_true(x_cache_hit);
    let delta = header_is_true(x_deltas_used);
    match (delta, no_update) {
        (true, true) => "delta_no_update",
        (true, false) => "delta",
        (false, true) => "no_update",
        (false, false) => "full",
    }
}

/// The size of a file that a header tells.
pub open spec fn logged_size(header: Option<Seq<char>>) -> Option<u64> {
    match header {
        Some(value) => match text::parse_unsigned(text::trimmed(value), u64::MAX as int) {
            Some(n) => Some(n as u64),
            None => None,
        },
        None => None,
    }
}

pub fn parse_logged_id_list_file_size(header: &Option<String>) -> (r: Option<u64>)
    ensures
        r == logged_size(text::text_option(*header)),
{
    match header {
        Some(value) => text::parse_u64(text::trim(value.as_str())),
        None => None,
    }
}

/// The start of the range that a header tells, whatever its end.
pub open spec fn logged_range_start(header: Option<Seq<char>>) -> Option<u64> {
    match header {
        Some(value) => match text::after_prefix(text::trimmed(value), "bytes="@) {
            Some(range) => {
                let start = match text::split_once_spec(range, '-') {
                    Some((start, _)) => start,
                    None => range,
                };
                match text::parse_unsigned(start, u64::MAX as int) {
                    Some(n) => Some(n as u64),
                    None => None,
                }
            },
            None => None,
        },
        None => None,
    }
}

pub fn parse_logged_id_list_file_range_start(header: &Option<String>) -> (r: Option<u64>)
    ensures
        r == logged_range_start(text::text_option(*header)),
{
    match header {
        Some(value) => match text::strip_prefix(text::trim(value.as_str()), "bytes=") {
            Some(range) => match text::split_once(range, '-') {
                Some((start, _)) => text::parse_u64(start),
                None => text::parse_u64(range),
            },
            None => None,
        },
        None => None,
    }
}

pub open spec fn text_or(o: Option<Seq<char>>, otherwise: Seq<char>) -> Seq<char> {
    match o {
        Some(t) => t,
        None => otherwise,
    }
}

fn owned_or(o: &Option<String>, otherwise: &str) -> (r: String)
    ensures
        r@ == text_or(text::text_option(*o), otherwise@),
{
    match o {
        Some(t) => t.clone(),
        None => otherwise.to_owned(),
    }
}

/// The version of an SDK, unless it is blank.
pub open spec fn version_or_unknown(o: Option<Seq<char>>) -> Seq<char> {
    match o {
        Some(t) => if text::trimmed(t).len() > 0 {
            text::trimmed(t)
        } else {
            "unknown"@
        },
        None => "unknown"@,
    }
}

fn sdk_version_of(o: &Option<String>) -> (r: String)
    ensures
        r@ == version_or_unknown(text::text_option(*o)),
{
    match o {
        Some(t) => {
            let trimmed = text::trim(t.as_str());
            if trimmed.is_empty() {
                "unknown".to_owned()
            } else {
                trimmed.to_owned()
            }
        },
        None => "unknown".to_owned(),
    }
}

/// The context that a request is logged with. A download of a file has one of
/// its own, since it holds more than what is shared.
pub open spec fn logged_context(head: RequestHead) -> authorized_request_context::ContextView {
    let path = normalized_path::path_named(head.path@);
    let key = text_or(text::text_option(head.sdk_key), "no-key-provided"@);
    if path is V1DownloadIdListFile {
        authorized_request_context::ContextView {
            supports_proto: head.takes_proto(),
            accept_deltas: head.asks_for_deltas(),
            raw_path: Some(head.path@),
            raw_query: text::text_option(head.query),
            file_id: authorized_request_context::id_list_file_id(head.path@),
            range_start: logged_range_start(text::text_option(head.range)),
            id_list_size: logged_size(text::text_option(head.id_list_file_size)),
            ..authorized_request_context::new_context(key, path, head.accepted())
        }
    } else {
        authorized_request_context::cached_context(
            key,
            path,
            head.accepted(),
            head.takes_proto(),
            head.asks_for_deltas(),
            None,
        )
    }
}

/// The shared contexts once a request was logged with a context: that of a download is
/// not shared.
pub open spec fn shared_after_logging(
    m: Map<keyed_store::KeyView, Arc<AuthorizedRequestContext>>,
    context: Arc<AuthorizedRequestContext>,
) -> Map<keyed_store::KeyView, Arc<AuthorizedRequestContext>> {
    if context@.path is V1DownloadIdListFile {
        m
    } else {
        authorized_request_context::shared_after(m, context)
    }
}

pub fn build_request_context(
    cache: &mut AuthorizedRequestContextCache,
    head: &RequestHead,
    parsed_encoding: &ParsedAcceptEncoding,
) -> (r: Arc<AuthorizedRequestContext>)
    requires
        old(cache).wf(),
        parsed_encoding.says(head.accept_encoding_value()),
    ensures
        final(cache).wf(),
        r@ == logged_context(*head),
        final(cache).shared() == shared_after_logging(old(cache).shared(), r),
{
    let sdk_key = owned_or(&head.sdk_key, "no-key-provided");
    let path = NormalizedPath::parse(head.path.as_str());
    let supports_proto = request_helper::does_request_supports_proto(
        head.supports_proto_query,
        &head.supports_proto_header,
    );
    let accept_deltas = request_helper::does_request_accept_deltas(&head.query);
    let encodings = parsed_encoding.acceptable_encodings();
    if path == NormalizedPath::V1DownloadIdListFile {
        let file_id = authorized_request_context::parse_id_list_file_id(head.path.as_str());
        Arc::new(
            AuthorizedRequestContext::new(sdk_key, path, encodings).with_request_capabilities(
                supports_proto,
                accept_deltas,
            ).with_raw_request(Some(head.path.clone()), head.query.clone()).with_id_list_request(
                file_id,
                parse_logged_id_list_file_range_start(&head.range),
                parse_logged_id_list_file_size(&head.id_list_file_size),
            ),
        )
    } else {
        cache.get_or_insert(sdk_key, path, encodings, supports_proto, accept_deltas, None)
    }
}

/// The time that the response tells, zero where it tells none.
pub open spec fn told_lcut(header: Option<Seq<char>>) -> u64 {
    match header {
        Some(value) => match text::parse_unsigned(value, u64::MAX as int) {
            Some(n) => n as u64,
            None => 0,
        },
        None => 0,
    }
}

/// The event of a request and its response.
pub open spec fn exchange_event(x: LoggedExchange) -> observers::EventView {
    observers::EventView {
        status_code: Some(x.status),
        lcut: Some(told_lcut(text::text_option(x.x_since_time))),
        response_encoding: Some(
            observers::encoding_tag(
                text::join_spec(text::texts(x.content_encoding@), "+"@),
            ),
        ),
        sdk_type: Some(text_or(text::text_option(x.sdk_type), "unknown"@)),
        sdk_version: Some(version_or_unknown(text::text_option(x.sdk_version))),
        service: Some(text_or(text::text_option(x.service), "unknown"@)),
        stat: Some(
            EventStat {
                operation_type: OperationType::Distribution,
                value: duration_ms(x.elapsed),
            },
        ),
        accept_encoding: Some(
            compress_encoder::accept_encoding_tag(x.head.accept_encoding_value()),
        ),
        response_payload_type: if tells_payload_type(
            normalized_path::path_named(x.head.path@),
            x.status,
        ) {
            Some(
                payload_type(text::text_option(x.x_cache_hit), text::text_option(x.x_deltas_used)),
            )
        } else {
            None
        },
        ..observers::bare_event(
            if is_success(x.status) {
                ProxyEventType::HttpServerRequestSuccess
            } else {
                ProxyEventType::HttpServerRequestFailed
            },
            Some(logged_context(x.head)),
        )
    }
}

/// Makes the event of a request and its response.
pub fn on_response(cache: &mut AuthorizedRequestContextCache, exchange: &LoggedExchange) -> (r:
    ProxyEvent)
    requires
        old(cache).wf(),
    ensures
        final(cache).wf(),
        r@ == exchange_event(*exchange),
        r.request_context is Some,
        final(cache).shared() == shared_after_logging(
            old(cache).shared(),
            r.request_context->0,
        ),
{
    let head = &exchange.head;
    let parsed_encoding = ParsedAcceptEncoding::from_header_values(&head.accept_encoding);
    let accept_encoding_tag = parsed_encoding.logger_tag();
    let request_context = build_request_context(cache, head, &parsed_encoding);
    let success = 200 <= exchange.status && exchange.status <= 299;
    let lcut: u64 = match &exchange.x_since_time {
        Some(value) => match text::parse_u64(value.as_str()) {
            Some(n) => n,
            None => 0,
        },
        None => 0,
    };
    let path = NormalizedPath::parse(head.path.as_str());
    let mut event = ProxyEvent::new_with_rc(
        if success {
            ProxyEventType::HttpServerRequestSuccess
        } else {
            ProxyEventType::HttpServerRequestFailed
        },
        &request_context,
    ).with_status_code(exchange.status).with_lcut(lcut).with_response_encoding(
        text::join(&exchange.content_encoding, "+"),
    ).with_sdk_type(owned_or(&exchange.sdk_type, "unknown")).with_sdk_version(
        sdk_version_of(&exchange.sdk_version),
    ).with_service(owned_or(&exchange.service, "unknown")).with_stat(
        EventStat {
            operation_type: OperationType::Distribution,
            value: request_duration_ms(exchange.elapsed),
        },
    );
    if let Some(tag) = accept_encoding_tag {
        event = event.with_accept_encoding(tag);
    }
    if should_log_response_payload_type(&path, exchange.status) {
        let payload = classify_response_payload_type(&exchange.x_cache_hit, &exchange.x_deltas_used);
        event = event.with_response_payload_type(payload.to_owned());
    }
    event
}

/// A request is told as done or as failed by its status, with the time it took, its status
/// and its context.
pub proof fn law_exchanges_are_told_by_their_status(x: LoggedExchange)
    ensures
        ({
            let e = exchange_event(x);
            &&& e.event_type == ProxyEventType::HttpServerRequestSuccess <==> 200 <= x.status <= 299
            &&& e.event_type == ProxyEventType::HttpServerRequestFailed <==> !(200 <= x.status
                <= 299)
            &&& e.status_code == Some(x.status)
            &&& e.context == Some(logged_context(x.head))
            &&& e.stat matches Some(stat)
            &&& stat.operation_type == OperationType::Distribution
            &&& stat.value == duration_ms(x.elapsed)
            &&& x.sdk_type matches Some(t) ==> e.sdk_type == Some(t@)
            &&& x.service matches Some(t) ==> e.service == Some(t@)
            &&& x.sdk_type is None ==> e.sdk_type == Some("unknown"@)
            &&& x.service is None ==> e.service == Some("unknown"@)
            &&& x.sdk_version is None ==> e.sdk_version == Some("unknown"@)
            &&& x.sdk_version matches Some(t) ==> (text::trimmed(t@).len() > 0 ==> e.sdk_version
                == Some(text::trimmed(t@)))
            &&& e.response_payload_type is Some <==> 200 <= x.status <= 299 && (
            normalized_path::path_named(x.head.path@)
                == normalized_path::PathView::V1DownloadConfigSpecs || normalized_path::path_named(
                x.head.path@,
            ) == normalized_path::PathView::V2DownloadConfigSpecs || normalized_path::path_named(
                x.head.path@,
            ) == normalized_path::PathView::V2DownloadConfigSpecsDeltas)
        }),
{
}

/// The time of an answer is what its header writes, and zero where it writes none.
pub proof fn law_told_times_are_read(value: Seq<char>, n: u64)
    ensures
        told_lcut(None) == 0,
        value == text::decimal(n as nat) ==> told_lcut(Some(value)) == n,
        text::parse_unsigned(value, u64::MAX as int) is None ==> told_lcut(Some(value)) == 0,
{
    text::law_numbers_are_read_back(n as nat, n as nat, u64::MAX as int);
}

/// How long a request took is told in whole milliseconds, and below zero where it was not
/// measured.
pub proof fn law_durations_are_told_in_milliseconds(d: Duration)
    requires
        0 <= d@ / 1_000_000 <= i64::MAX,
    ensures
        duration_ms(Some(d)) * 1_000_000 <= d@ < (duration_ms(Some(d)) + 1) * 1_000_000,
        duration_ms(None) < 0,
{
}

/// What a payload was is told by two headers: whether it was one of deltas, and whether
/// there was nothing new.
pub proof fn law_payloads_are_told_by_two_headers(
    cache_hit: Option<Seq<char>>,
    deltas_used: Option<Seq<char>>,
    value: Seq<char>,
)
    ensures
        says_true(Some(value)) <==> text::lowered(value) == "true"@,
        !says_true(None),
        says_true(deltas_used) && says_true(cache_hit) ==> payload_type(cache_hit, deltas_used)
            == "delta_no_update"@,
        says_true(deltas_used) && !says_true(cache_hit) ==> payload_type(cache_hit, deltas_used)
            == "delta"@,
        !says_true(deltas_used) && says_true(cache_hit) ==> payload_type(cache_hit, deltas_used)
            == "no_update"@,
        !says_true(deltas_used) && !says_true(cache_hit) ==> payload_type(cache_hit, deltas_used)
            == "full"@,
{
    reveal_strlit("true");
    assert(text::lowered("true"@) =~= "true"@);
}

/// Sizes and ranges are logged as the numbers that they write. Of a range it is the start,
/// whatever its end.
pub proof fn law_logged_numbers_are_read(value: Seq<char>, n: u64, end: Seq<char>)
    ensures
        logged_size(None) is None,
        logged_range_start(None) is None,
        text::trimmed(value) == text::decimal(n as nat) ==> logged_size(Some(value)) == Some(n),
        text::trimmed(value) == "bytes="@ + (text::decimal(n as nat) + seq!['-'] + end)
            ==> logged_range_start(Some(value)) == Some(n),
        text::trimmed(value) == "bytes="@ + text::decimal(n as nat) ==> logged_range_start(
            Some(value),
        ) == Some(n),
        !text::has_prefix(text::trimmed(value), "bytes="@) ==> logged_range_start(Some(value))
            is None,
{
    let d = text::decimal(n as nat);
    text::law_numbers_are_read_back(n as nat, n as nat, u64::MAX as int);
    text::law_texts_start_and_end("bytes="@, d + seq!['-'] + end, d);
    text::law_texts_start_and_end("bytes="@, d, d);
    text::law_texts_are_cut_at_the_first(d, end, '-');
}

/// The context that is logged has the key of the request, or is marked as having none, its
/// endpoint, and for a file what was asked of it.
pub proof fn law_logged_contexts_are_those_of_the_request(head: RequestHead)
    ensures
        ({
            let c = logged_context(head);
            &&& head.sdk_key matches Some(k) ==> c.sdk_key == k@
            &&& head.sdk_key is None ==> c.sdk_key == "no-key-provided"@
            &&& c.path == normalized_path::path_named(head.path@)
            &&& c.encodings == authorized_request_context::canonical(head.accepted())
            &&& c.supports_proto == head.takes_proto()
            &&& c.accept_deltas == head.asks_for_deltas()
            &&& c.path == normalized_path::PathView::V1DownloadIdListFile ==> {
                &&& c.file_id == authorized_request_context::id_list_file_id(head.path@)
                &&& c.range_start == logged_range_start(text::text_option(head.range))
                &&& c.id_list_size == logged_size(text::text_option(head.id_list_file_size))
            }
            &&& c.path != normalized_path::PathView::V1DownloadIdListFile ==> c.file_id is None
                && c.range_start is None && c.id_list_size is None
        }),
{
}

} // verus!
