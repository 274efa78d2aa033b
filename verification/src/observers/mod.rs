//! What happens in the proxy, as events that loggers take.

pub mod http_data_provider_observer;
pub mod new_dcs_observer;
pub mod proxy_event_observer;

use crate::keyed_store;
use crate::keyed_store::StoreKey;
use crate::servers::authorized_request_context;
use crate::servers::authorized_request_context::AuthorizedRequestContext;
use crate::servers::normalized_path;
use crate::servers::normalized_path::NormalizedPath;
use crate::text;
use crate::utils::compress_encoder;
use std::hash::{Hash, Hasher};
use std::sync::Arc;
use vstd::prelude::*;

verus! {

#[derive(Debug, Copy, Clone, PartialEq, Eq, Hash, Structural)]
pub enum ProxyEventType {
    HttpServerRequestSuccess,
    HttpServerRequestFailed,
    HttpDataProviderGotData,
    HttpDataProviderNoData,
    HttpDataProviderNoDataDueToBadLcut,
    HttpDataProviderError,
    DownloadIdListFileSizeBytes,
    DcsFetchSource,
    BackgroundDataProviderRequestInterval,
    RedisCacheWriteSucceed,
    RedisCacheWriteFailed,
    RedisCacheReadSucceed,
    RedisCacheReadMiss,
    RedisCacheWriteSkipped,
    RedisCacheDeleteSucceed,
    RedisCacheDeleteFailed,
    RedisCacheReadFailed,
    InMemoryCacheWriteSucceed,
    InMemoryCacheWriteSkipped,
    InMemoryCacheReadSucceed,
    ConfigSpecStoreGotData,
    ConfigSpecCurrentLcut,
    GrpcStreamingStreamedInitialized,
    GrpcStreamingStreamedResponse,
    GrpcStreamingStreamUnauthorized,
    GrpcStreamingHealthcheckSent,
    GrpcStreamingStreamDisconnected,
    GrpcEstimatedActiveStreams,
    StreamingChannelGotNewData,
    UpdateConfigSpecStorePropagationDelayMs,
    LogEventStoreDeduped,
    LogEventStoreDedupeCacheCleared,
    NginxCacheBytesUsed,
    NginxCacheBytesLimit,
}

/// The name of an event.
pub open spec fn event_name(t: ProxyEventType) -> Seq<char> {
    match t {
        ProxyEventType::HttpServerRequestSuccess => "HttpServerRequestSuccess"@,
        ProxyEventType::HttpServerRequestFailed => "HttpServerRequestFailed"@,
        ProxyEventType::HttpDataProviderGotData => "HttpDataProviderGotData"@,
        ProxyEventType::HttpDataProviderNoData => "HttpDataProviderNoData"@,
        ProxyEventType::HttpDataProviderNoDataDueToBadLcut => "HttpDataProviderNoDataDueToBadLcut"@,
        ProxyEventType::HttpDataProviderError => "HttpDataProviderError"@,
        ProxyEventType::DownloadIdListFileSizeBytes => "DownloadIdListFileSizeBytes"@,
        ProxyEventType::DcsFetchSource => "DcsFetchSource"@,
        ProxyEventType::BackgroundDataProviderRequestInterval => "BackgroundDataProviderRequestInterval"@,
        ProxyEventType::RedisCacheWriteSucceed => "RedisCacheWriteSucceed"@,
        ProxyEventType::RedisCacheWriteFailed => "RedisCacheWriteFailed"@,
        ProxyEventType::RedisCacheReadSucceed => "RedisCacheReadSucceed"@,
        ProxyEventType::RedisCacheReadMiss => "RedisCacheReadMiss"@,
        ProxyEventType::RedisCacheWriteSkipped => "RedisCacheWriteSkipped"@,
        ProxyEventType::RedisCacheDeleteSucceed => "RedisCacheDeleteSucceed"@,
        ProxyEventType::RedisCacheDeleteFailed => "RedisCacheDeleteFailed"@,
        ProxyEventType::RedisCacheReadFailed => "RedisCacheReadFailed"@,
        ProxyEventType::InMemoryCacheWriteSucceed => "InMemoryCacheWriteSucceed"@,
        ProxyEventType::InMemoryCacheWriteSkipped => "InMemoryCacheWriteSkipped"@,
        ProxyEventType::InMemoryCacheReadSucceed => "InMemoryCacheReadSucceed"@,
        ProxyEventType::ConfigSpecStoreGotData => "ConfigSpecStoreGotData"@,
        ProxyEventType::ConfigSpecCurrentLcut => "ConfigSpecCurrentLcut"@,
        ProxyEventType::GrpcStreamingStreamedInitialized => "GrpcStreamingStreamedInitialized"@,
        ProxyEventType::GrpcStreamingStreamedResponse => "GrpcStreamingStreamedResponse"@,
        ProxyEventType::GrpcStreamingStreamUnauthorized => "GrpcStreamingStreamUnauthorized"@,
        ProxyEventType::GrpcStreamingHealthcheckSent => "GrpcStreamingHealthcheckSent"@,
        ProxyEventType::GrpcStreamingStreamDisconnected => "GrpcStreamingStreamDisconnected"@,
        ProxyEventType::GrpcEstimatedActiveStreams => "GrpcEstimatedActiveStreams"@,
        ProxyEventType::StreamingChannelGotNewData => "StreamingChannelGotNewData"@,
        ProxyEventType::UpdateConfigSpecStorePropagationDelayMs => "UpdateConfigSpecStorePropagationDelayMs"@,
        ProxyEventType::LogEventStoreDeduped => "LogEventStoreDeduped"@,
        ProxyEventType::LogEventStoreDedupeCacheCleared => "LogEventStoreDedupeCacheCleared"@,
        ProxyEventType::NginxCacheBytesUsed => "NginxCacheBytesUsed"@,
        ProxyEventType::NginxCacheBytesLimit => "NginxCacheBytesLimit"@,
    }
}

impl ProxyEventType {
    pub fn to_str(&self) -> (r: &'static str)
        ensures
            r@ == event_name(*self),
    {
        match self {
            ProxyEventType::HttpServerRequestSuccess => "HttpServerRequestSuccess",
            ProxyEventType::HttpServerRequestFailed => "HttpServerRequestFailed",
            ProxyEventType::HttpDataProviderGotData => "HttpDataProviderGotData",
            ProxyEventType::HttpDataProviderNoData => "HttpDataProviderNoData",
            ProxyEventType::HttpDataProviderNoDataDueToBadLcut => "HttpDataProviderNoDataDueToBadLcut",
            ProxyEventType::HttpDataProviderError => "HttpDataProviderError",
            ProxyEventType::DownloadIdListFileSizeBytes => "DownloadIdListFileSizeBytes",
            ProxyEventType::DcsFetchSource => "DcsFetchSource",
            ProxyEventType::BackgroundDataProviderRequestInterval => "BackgroundDataProviderRequestInterval",
            ProxyEventType::RedisCacheWriteSucceed => "RedisCacheWriteSucceed",
            ProxyEventType::RedisCacheWriteFailed => "RedisCacheWriteFailed",
            ProxyEventType::RedisCacheReadSucceed => "RedisCacheReadSucceed",
            ProxyEventType::RedisCacheReadMiss => "RedisCacheReadMiss",
            ProxyEventType::RedisCacheWriteSkipped => "RedisCacheWriteSkipped",
            ProxyEventType::RedisCacheDeleteSucceed => "RedisCacheDeleteSucceed",
            ProxyEventType::RedisCacheDeleteFailed => "RedisCacheDeleteFailed",
            ProxyEventType::RedisCacheReadFailed => "RedisCacheReadFailed",
            ProxyEventType::InMemoryCacheWriteSucceed => "InMemoryCacheWriteSucceed",
            ProxyEventType::InMemoryCacheWriteSkipped => "InMemoryCacheWriteSkipped",
            ProxyEventType::InMemoryCacheReadSucceed => "InMemoryCacheReadSucceed",
            ProxyEventType::ConfigSpecStoreGotData => "ConfigSpecStoreGotData",
            ProxyEventType::ConfigSpecCurrentLcut => "ConfigSpecCurrentLcut",
            ProxyEventType::GrpcStreamingStreamedInitialized => "GrpcStreamingStreamedInitialized",
            ProxyEventType::GrpcStreamingStreamedResponse => "GrpcStreamingStreamedResponse",
            ProxyEventType::GrpcStreamingStreamUnauthorized => "GrpcStreamingStreamUnauthorized",
            ProxyEventType::GrpcStreamingHealthcheckSent => "GrpcStreamingHealthcheckSent",
            ProxyEventType::GrpcStreamingStreamDisconnected => "GrpcStreamingStreamDisconnected",
            ProxyEventType::GrpcEstimatedActiveStreams => "GrpcEstimatedActiveStreams",
            ProxyEventType::StreamingChannelGotNewData => "StreamingChannelGotNewData",
            ProxyEventType::UpdateConfigSpecStorePropagationDelayMs => "UpdateConfigSpecStorePropagationDelayMs",
            ProxyEventType::LogEventStoreDeduped => "LogEventStoreDeduped",
            ProxyEventType::LogEventStoreDedupeCacheCleared => "LogEventStoreDedupeCacheCleared",
            ProxyEventType::NginxCacheBytesUsed => "NginxCacheBytesUsed",
            ProxyEventType::NginxCacheBytesLimit => "NginxCacheBytesLimit",
        }
    }

    pub fn to_string(&self) -> (r: String)
        ensures
            r@ == event_name(*self),
    {
        self.to_str().to_owned()
    }
}

/// How the value of an event is recorded.
#[derive(Clone, PartialEq, Eq, Debug, Copy, Hash, Structural)]
pub enum OperationType {
    Distribution,
    Timing,
    Gauge,
    IncrByValue,
}

/// The value of an event.
#[derive(Debug, Clone, Copy, PartialEq, Eq, Structural)]
pub struct EventStat {
    pub operation_type: OperationType,
    pub value: i64,
}

/// One event, with what is known of the request behind it.
#[derive(Debug)]
pub struct ProxyEvent {
    pub event_type: ProxyEventType,
    pub request_context: Option<Arc<AuthorizedRequestContext>>,
    pub lcut: Option<u64>,
    pub stat: Option<EventStat>,
    pub status_code: Option<u16>,
    pub response_encoding: Option<String>,
    pub sdk_type: Option<String>,
    pub sdk_version: Option<String>,
    pub accept_encoding: Option<String>,
    pub service: Option<String>,
    pub response_payload_type: Option<String>,
}

/// The model of an event.
pub struct EventView {
    pub event_type: ProxyEventType,
    pub context: Option<authorized_request_context::ContextView>,
    pub lcut: Option<u64>,
    pub stat: Option<EventStat>,
    pub status_code: Option<u16>,
    pub response_encoding: Option<Seq<char>>,
    pub sdk_type: Option<Seq<char>>,
    pub sdk_version: Option<Seq<char>>,
    pub accept_encoding: Option<Seq<char>>,
    pub service: Option<Seq<char>>,
    pub response_payload_type: Option<Seq<char>>,
}

impl View for ProxyEvent {
    type V = EventView;

    open spec fn view(&self) -> EventView {
        EventView {
            event_type: self.event_type,
            context: match self.request_context {
                Some(c) => Some(c@),
                None => None,
            },
            lcut: self.lcut,
            stat: self.stat,
            status_code: self.status_code,
            response_encoding: text::text_option(self.response_encoding),
            sdk_type: text::text_option(self.sdk_type),
            sdk_version: text::text_option(self.sdk_version),
            accept_encoding: text::text_option(self.accept_encoding),
            service: text::text_option(self.service),
            response_payload_type: text::text_option(self.response_payload_type),
        }
    }
}

/// An event of which only its type and context are known.
pub open spec fn bare_event(
    event_type: ProxyEventType,
    context: Option<authorized_request_context::ContextView>,
) -> EventView {
    EventView {
        event_type,
        context,
        lcut: None,
        stat: None,
        status_code: None,
        response_encoding: None,
        sdk_type: None,
        sdk_version: None,
        accept_encoding: None,
        service: None,
        response_payload_type: None,
    }
}

/// An event that is counted once.
pub open spec fn counted_event(
    event_type: ProxyEventType,
    context: authorized_request_context::ContextView,
    lcut: Option<u64>,
) -> EventView {
    EventView {
        lcut,
        stat: Some(EventStat { operation_type: OperationType::IncrByValue, value: 1 }),
        ..bare_event(event_type, Some(context))
    }
}

/// Whether a key can be cut for logs: its first 20 bytes are whole characters.
pub open spec fn is_loggable(key: Seq<char>) -> bool {
    text::byte_len(key) > 20 ==> text::is_boundary(key, 20)
}

/// A key as it is tagged: its first 20 bytes, marked where it was cut.
pub open spec fn tagged_key(key: Seq<char>) -> Seq<char> {
    if text::byte_len(key) > 20 {
        text::byte_prefix(key, 20) + "***"@
    } else {
        key
    }
}

/// The accepted encodings of an event as a tag.
pub open spec fn accepted_tag(e: EventView) -> Option<Seq<char>> {
    match e.accept_encoding {
        Some(a) => Some(a),
        None => match e.context {
            Some(c) => Some(
                if c.encodings.len() == 0 {
                    "none"@
                } else {
                    text::join_spec(
                        compress_encoder::names(
                            compress_encoder::ordered(
                                |x: compress_encoder::CompressionEncoder| c.encodings.contains(x),
                            ),
                        ),
                        "+"@,
                    )
                },
            ),
            None => None,
        },
    }
}

/// The parts of a list that are not blank, without the white space around them.
pub open spec fn non_blank_parts(parts: Seq<Seq<char>>) -> Seq<Seq<char>>
    decreases parts.len(),
{
    if parts.len() == 0 {
        Seq::empty()
    } else {
        let rest = non_blank_parts(parts.drop_last());
        if text::trimmed(parts.last()).len() > 0 {
            rest.push(text::trimmed(parts.last()))
        } else {
            rest
        }
    }
}

/// A response encoding as a tag: a plus sign for each comma.
pub open spec fn encoding_tag(encoding: Seq<char>) -> Seq<char> {
    text::join_spec(non_blank_parts(text::split_spec(encoding, ',')), "+"@)
}

impl ProxyEvent {
    pub fn new_with_rc(
        event_type: ProxyEventType,
        request_context: &Arc<AuthorizedRequestContext>,
    ) -> (r: ProxyEvent)
        ensures
            r@ == bare_event(event_type, Some(request_context@)),
            r.request_context == Some(*request_context),
    {
        ProxyEvent {
            event_type,
            request_context: Some(keyed_store::share(request_context)),
            lcut: None,
            stat: None,
            status_code: None,
            response_encoding: None,
            sdk_type: None,
            sdk_version: None,
            accept_encoding: None,
            service: None,
            response_payload_type: None,
        }
    }

    pub fn new(event_type: ProxyEventType) -> (r: ProxyEvent)
        ensures
            r@ == bare_event(event_type, None),
    {
        ProxyEvent {
            event_type,
            request_context: None,
            lcut: None,
            stat: None,
            status_code: None,
            response_encoding: None,
            sdk_type: None,
            sdk_version: None,
            accept_encoding: None,
            service: None,
            response_payload_type: None,
        }
    }

    /// An event that is counted once.
    pub fn counted(
        event_type: ProxyEventType,
        request_context: &Arc<AuthorizedRequestContext>,
        lcut: Option<u64>,
    ) -> (r: ProxyEvent)
        ensures
            r@ == counted_event(event_type, request_context@, lcut),
    {
        let event = ProxyEvent::new_with_rc(event_type, request_context).with_stat(
            EventStat { operation_type: OperationType::IncrByValue, value: 1 },
        );
        match lcut {
            Some(n) => event.with_lcut(n),
            None => event,
        }
    }

    /// The key behind the event, cut for tags.
    pub fn get_sdk_key(&self) -> (r: Option<String>)
        requires
            self@.context matches Some(c) ==> is_loggable(c.sdk_key),
        ensures
            text::text_option(r) == (match self@.context {
                Some(c) => Some(tagged_key(c.sdk_key)),
                None => None,
            }),
    {
        match &self.request_context {
            Some(rc) => {
                let key = rc.sdk_key.as_str();
                match text::cut_bytes(key, 20) {
                    Some(k) => {
                        assert(key@.subrange(0, k as int) == key@.take(k as int));
                        let mut truncated = key.substring_char(0, k).to_owned();
                        truncated.append("***");
                        Some(truncated)
                    },
                    None => Some(rc.sdk_key.clone()),
                }
            },
            None => None,
        }
    }

    pub fn get_path(&self) -> (r: Option<&str>)
        ensures
            match r {
                Some(p) => self@.context matches Some(c) && p@ == normalized_path::path_text(
                    c.path,
                ),
                None => self@.context is None,
            },
    {
        match &self.request_context {
            Some(rc) => Some(rc.path.as_str()),
            None => None,
        }
    }

    /// The file behind the event, where it is about a file.
    pub fn get_id_list_file_id(&self) -> (r: Option<&str>)
        ensures
            (match r {
                Some(id) => Some(id@),
                None => None,
            }) == (match self@.context {
                Some(c) => if c.path is V1DownloadIdListFile {
                    c.file_id
                } else {
                    None
                },
                None => None,
            }),
    {
        match &self.request_context {
            Some(rc) => {
                if rc.path == NormalizedPath::V1DownloadIdListFile {
                    match &rc.file_id {
                        Some(id) => Some(id.as_str()),
                        None => None,
                    }
                } else {
                    None
                }
            },
            None => None,
        }
    }

    pub fn should_tag_id_list_file_id(&self) -> (r: bool)
        ensures
            r == (self@.event_type == ProxyEventType::DownloadIdListFileSizeBytes),
    {
        self.event_type == ProxyEventType::DownloadIdListFileSizeBytes
    }

    pub fn get_accept_encodings(&self) -> (r: Option<String>)
        ensures
            text::text_option(r) == accepted_tag(self@),
    {
        if let Some(a) = &self.accept_encoding {
            return Some(a.clone());
        }
        match &self.request_context {
            Some(rc) => {
                if rc.encodings.is_empty() {
                    return Some("none".to_owned());
                }
                let sorted = compress_encoder::sort_and_dedup(rc.encodings.as_slice());
                Some(compress_encoder::join_names(sorted.as_slice(), "+"))
            },
            None => None,
        }
    }

    pub fn with_response_encoding(self, encoding: String) -> (r: Self)
        ensures
            r@ == (EventView { response_encoding: Some(encoding_tag(encoding@)), ..self@ }),
            r.request_context == self.request_context,
    {
        let parts = text::split(encoding.as_str(), ',');
        let mut kept: Vec<String> = Vec::new();
        let mut i: usize = 0;
        while i < parts.len()
            invariant
                i <= parts@.len(),
                text::texts(kept@) == non_blank_parts(text::texts(parts@).take(i as int)),
            decreases parts@.len() - i,
        {
            let ghost before = kept@;
            let part = text::trim(parts[i].as_str());
            assert(text::texts(parts@).take(i + 1).drop_last() == text::texts(parts@).take(
                i as int,
            ));
            if !part.is_empty() {
                kept.push(part.to_owned());
                assert(text::texts(kept@) == text::texts(before).push(part@));
            }
            i += 1;
        }
        assert(text::texts(parts@).take(i as int) == text::texts(parts@));
        let mut event = self;
        event.response_encoding = Some(text::join(&kept, "+"));
        event
    }

    pub fn with_lcut(self, lcut: u64) -> (r: Self)
        ensures
            r@ == (EventView { lcut: Some(lcut), ..self@ }),
            r.request_context == self.request_context,
    {
        let mut event = self;
        event.lcut = Some(lcut);
        event
    }

    pub fn with_stat(self, stat: EventStat) -> (r: Self)
        ensures
            r@ == (EventView { stat: Some(stat), ..self@ }),
            r.request_context == self.request_context,
    {
        let mut event = self;
        event.stat = Some(stat);
        event
    }

    pub fn with_status_code(self, code: u16) -> (r: Self)
        ensures
            r@ == (EventView { status_code: Some(code), ..self@ }),
            r.request_context == self.request_context,
    {
        let mut event = self;
        event.status_code = Some(code);
        event
    }

    pub fn with_sdk_type(self, sdk_type: String) -> (r: Self)
        ensures
            r@ == (EventView { sdk_type: Some(sdk_type@), ..self@ }),
            r.request_context == self.request_context,
    {
        let mut event = self;
        event.sdk_type = Some(sdk_type);
        event
    }

    pub fn with_sdk_version(self, sdk_version: String) -> (r: Self)
        ensures
            r@ == (EventView { sdk_version: Some(sdk_version@), ..self@ }),
            r.request_context == self.request_context,
    {
        let mut event = self;
        event.sdk_version = Some(sdk_version);
        event
    }

    pub fn with_accept_encoding(self, accept_encoding: String) -> (r: Self)
        ensures
            r@ == (EventView { accept_encoding: Some(accept_encoding@), ..self@ }),
            r.request_context == self.request_context,
    {
        let mut event = self;
        event.accept_encoding = Some(accept_encoding);
        event
    }

    pub fn with_service(self, service: String) -> (r: Self)
        ensures
            r@ == (EventView { service: Some(service@), ..self@ }),
            r.request_context == self.request_context,
    {
        let mut event = self;
        event.service = Some(service);
        event
    }

    pub fn with_response_payload_type(self, payload_type: String) -> (r: Self)
        ensures
            r@ == (EventView { response_payload_type: Some(payload_type@), ..self@ }),
            r.request_context == self.request_context,
    {
        let mut event = self;
        event.response_payload_type = Some(payload_type);
        event
    }
}

/// What makes two events the same for loggers that add them up: everything but
/// their values.
pub open spec fn same_event(a: EventView, b: EventView) -> bool {
    &&& a.event_type == b.event_type
    &&& (match (a.context, b.context) {
        (Some(c), Some(d)) => c.identity() == d.identity(),
        (None, None) => true,
        _ => false,
    })
    &&& a.lcut == b.lcut
    &&& a.response_encoding == b.response_encoding
    &&& a.accept_encoding == b.accept_encoding
    &&& a.sdk_type == b.sdk_type
    &&& a.sdk_version == b.sdk_version
    &&& a.service == b.service
    &&& a.response_payload_type == b.response_payload_type
    &&& a.status_code == b.status_code
}

impl PartialEq for ProxyEvent {
    fn eq(&self, other: &Self) -> (r: bool) {
        let same_context = match (&self.request_context, &other.request_context) {
            (Some(a), Some(b)) => **a == **b,
            (None, None) => true,
            _ => false,
        };
        self.event_type == other.event_type && same_context && self.lcut == other.lcut
            && text::same_text_option(&self.response_encoding, &other.response_encoding)
            && text::same_text_option(&self.accept_encoding, &other.accept_encoding)
            && text::same_text_option(&self.sdk_type, &other.sdk_type) && text::same_text_option(
            &self.sdk_version,
            &other.sdk_version,
        ) && text::same_text_option(&self.service, &other.service) && text::same_text_option(
            &self.response_payload_type,
            &other.response_payload_type,
        ) && self.status_code == other.status_code
    }
}

impl vstd::std_specs::cmp::PartialEqSpecImpl for ProxyEvent {
    open spec fn obeys_eq_spec() -> bool {
        true
    }

    open spec fn eq_spec(&self, other: &Self) -> bool {
        same_event(self@, other@)
    }
}

impl Eq for ProxyEvent {

}

/// A text that may be missing; a missing one is empty.
pub open spec fn option_name(o: Option<Seq<char>>) -> Seq<char> {
    match o {
        Some(t) => t,
        None => Seq::empty(),
    }
}

/// What is hashed of an event: everything but its value, and of its context the key and
/// the endpoint.
pub open spec fn event_key(e: EventView) -> keyed_store::KeyView {
    (
        seq![
            event_name(e.event_type),
            match e.context {
                Some(c) => c.sdk_key,
                None => Seq::empty(),
            },
            match e.context {
                Some(c) => normalized_path::path_text(c.path),
                None => Seq::empty(),
            },
            option_name(e.response_encoding),
            option_name(e.accept_encoding),
            option_name(e.sdk_type),
            option_name(e.sdk_version),
            option_name(e.service),
            option_name(e.response_payload_type),
        ],
        seq![
            match e.lcut {
                Some(n) => n,
                None => 0,
            },
            match e.status_code {
                Some(n) => n as u64,
                None => 0,
            },
        ],
    )
}

fn name_of(o: &Option<String>) -> (r: String)
    ensures
        r@ == option_name(text::text_option(*o)),
{
    match o {
        Some(t) => t.clone(),
        None => String::new(),
    }
}

impl ProxyEvent {
    /// What is hashed of the event.
    pub fn hash_key(&self) -> (r: StoreKey)
        ensures
            r@ == event_key(self@),
    {
        let mut names: Vec<String> = Vec::new();
        names.push(self.event_type.to_string());
        match &self.request_context {
            Some(c) => {
                names.push(c.sdk_key.clone());
                names.push(c.path.to_string());
            },
            None => {
                names.push(String::new());
                names.push(String::new());
            },
        }
        names.push(name_of(&self.response_encoding));
        names.push(name_of(&self.accept_encoding));
        names.push(name_of(&self.sdk_type));
        names.push(name_of(&self.sdk_version));
        names.push(name_of(&self.service));
        names.push(name_of(&self.response_payload_type));
        let mut numbers: Vec<u64> = Vec::new();
        numbers.push(
            match self.lcut {
                Some(n) => n,
                None => 0,
            },
        );
        numbers.push(
            match self.status_code {
                Some(n) => n as u64,
                None => 0,
            },
        );
        let key = StoreKey { names, numbers };
        assert(key@.0 =~= event_key(self@).0);
        assert(key@.1 =~= event_key(self@).1);
        key
    }
}

impl Hash for ProxyEvent {
    fn hash<H: Hasher>(&self, state: &mut H) {
        authorized_request_context::hash_store_key(&self.hash_key(), state);
    }
}

/// Events that are the same hash alike.
pub proof fn law_same_events_hash_alike(a: EventView, b: EventView)
    requires
        same_event(a, b),
    ensures
        event_key(a) == event_key(b),
{
    assert(a.context matches Some(c) ==> b.context matches Some(d) && c.identity().sdk_key
        == d.identity().sdk_key && c.identity().path == d.identity().path);
}

/// Takes events.
pub trait ProxyEventObserverTrait {
    fn handle_event(&self, event: &ProxyEvent);
}

/// A key is tagged by its first twenty bytes and a mark, and whole where it is no longer.
pub proof fn law_keys_are_tagged_in_part(key: Seq<char>, n: int)
    ensures
        text::byte_len(key) <= 20 ==> tagged_key(key) == key,
        text::byte_len(key) > 20 && 0 <= n <= key.len() && text::byte_len(key.take(n)) == 20
            ==> tagged_key(key) == key.take(n) + "***"@,
{
    if text::byte_len(key) > 20 && 0 <= n <= key.len() && text::byte_len(key.take(n)) == 20 {
        text::lemma_byte_prefix(key, n, 20);
    }
}

/// An event that counts, counts one, of its type and context.
pub proof fn law_events_count_one(
    t: ProxyEventType,
    c: authorized_request_context::ContextView,
    lcut: Option<u64>,
)
    ensures
        counted_event(t, c, lcut).event_type == t,
        counted_event(t, c, lcut).context == Some(c),
        counted_event(t, c, lcut).lcut == lcut,
        counted_event(t, c, lcut).stat == Some(
            EventStat { operation_type: OperationType::IncrByValue, value: 1 },
        ),
        bare_event(t, Some(c)).event_type == t,
        bare_event(t, Some(c)).context == Some(c),
        bare_event(t, Some(c)).stat is None,
        bare_event(t, Some(c)).status_code is None,
{
}

/// The encodings of an event are those that it tells, else those of its context by their
/// names, and none where that has none.
pub proof fn law_events_tell_accepted_encodings(
    e: EventView,
    c: authorized_request_context::ContextView,
    x: compress_encoder::CompressionEncoder,
)
    ensures
        e.accept_encoding is Some ==> accepted_tag(e) == e.accept_encoding,
        e.accept_encoding is None && e.context is None ==> accepted_tag(e) is None,
        e.accept_encoding is None && e.context == Some(c) && c.encodings.len() == 0
            ==> accepted_tag(e) == Some("none"@),
        e.accept_encoding is None && e.context == Some(c) && c.encodings == seq![x]
            ==> accepted_tag(e) == Some(compress_encoder::encoder_name(x)),
{
    if e.accept_encoding is None && e.context == Some(c) && c.encodings == seq![x] {
        let f = |y: compress_encoder::CompressionEncoder| c.encodings.contains(y);
        compress_encoder::law_ordered_encodings(f);
        let o = compress_encoder::ordered(f);
        assert(c.encodings[0] == x);
        assert(f(x));
        assert(o.contains(x));
        assert forall|i: int| 0 <= i < o.len() implies o[i] == x by {
            assert(o.contains(o[i]));
            assert(f(o[i]));
        }
        if o.len() > 1 {
            assert(compress_encoder::priority(o[0]) < compress_encoder::priority(o[1]));
        }
        assert(o.len() == 1);
        let n = compress_encoder::names(o);
        assert(n.len() == 1);
        assert(text::join_spec(n, "+"@) == n[0]);
    }
}

/// The tag of an encoding has its parts without the space around them, and without those
/// that are blank.
pub proof fn law_encodings_are_tagged_by_their_parts(parts: Seq<Seq<char>>, one: Seq<char>)
    ensures
        non_blank_parts(parts) == parts.map_values(|p: Seq<char>| text::trimmed(p)).filter(
            |p: Seq<char>| p.len() > 0,
        ),
        !one.contains(',') && text::trimmed(one).len() > 0 ==> encoding_tag(one) == text::trimmed(
            one,
        ),
    decreases parts.len(),
{
    reveal(Seq::filter);
    let cut = |p: Seq<char>| text::trimmed(p);
    let some = |p: Seq<char>| p.len() > 0;
    if parts.len() > 0 {
        law_encodings_are_tagged_by_their_parts(parts.drop_last(), one);
        assert(parts.map_values(cut).drop_last() =~= parts.drop_last().map_values(cut));
        assert(parts.map_values(cut).last() == text::trimmed(parts.last()));
    } else {
        assert(parts.map_values(cut).filter(some) =~= Seq::<Seq<char>>::empty());
    }
    if !one.contains(',') && text::trimmed(one).len() > 0 {
        text::law_texts_are_split_part_by_part(one, Seq::empty(), ',');
        reveal_with_fuel(non_blank_parts, 2);
        assert(seq![one].drop_last() =~= Seq::<Seq<char>>::empty());
        let n = non_blank_parts(seq![one]);
        assert(n.len() == 1 && n[0] == text::trimmed(one));
        assert(text::join_spec(n, "+"@) == n[0]);
    }
}

/// What an event measures does not make it another, and everything else does.
pub proof fn law_events_are_told_apart(a: EventView, b: EventView, stat: Option<EventStat>)
    ensures
        same_event(a, EventView { stat, ..a }),
        same_event(a, b) ==> same_event(b, a),
        same_event(a, b) ==> a.event_type == b.event_type && a.lcut == b.lcut && a.status_code
            == b.status_code && a.response_encoding == b.response_encoding && a.sdk_type
            == b.sdk_type && a.sdk_version == b.sdk_version && a.service == b.service
            && a.accept_encoding == b.accept_encoding && a.response_payload_type
            == b.response_payload_type,
        same_event(a, b) && a.context is Some ==> b.context is Some && (a.context->0).sdk_key == (
        b.context->0).sdk_key && (a.context->0).path == (b.context->0).path,
{
}

} // verus!
