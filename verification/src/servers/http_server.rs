//! The answers of the HTTP endpoints.

use crate::codecs;
use crate::datastore::config_spec_store;
use crate::datastore::config_spec_store::ServedConfigSpec;
use crate::datastore::data_providers::http_data_provider;
use crate::datastore::data_providers::http_data_provider::ResponsePayload;
use crate::datastore::deltas_store;
use crate::datastore::deltas_store::{DeltaProtoBuildResult, DeltasStore};
use crate::datastore::sdk_key_store;
use crate::datastore::sdk_key_store::SdkKeyStore;
use crate::servers::authorized_request_context;
use crate::servers::authorized_request_context::{
    AuthorizedRequestContext, DownloadIdListFileRequestGuard,
};
use crate::servers::normalized_path;
use crate::servers::normalized_path::NormalizedPath;
use crate::text;
use crate::utils::compress_encoder::CompressionEncoder;
use crate::utils::response_compression;
use vstd::prelude::*;

verus! {

/// The body of an answer.
#[derive(Debug, PartialEq)]
pub enum ResponseBody {
    Bytes(Vec<u8>),
    Text(String),
}

/// An answer: its status, headers and body.
#[derive(Debug, PartialEq)]
pub struct HttpResponse {
    pub status: u16,
    pub headers: Vec<(String, String)>,
    pub body: ResponseBody,
}

/// The model of a body.
pub enum BodyView {
    Bytes(Seq<u8>),
    Text(Seq<char>),
}

/// The model of an answer.
pub struct ResponseView {
    pub status: u16,
    pub headers: Seq<(Seq<char>, Seq<char>)>,
    pub body: BodyView,
}

impl View for HttpResponse {
    type V = ResponseView;

    open spec fn view(&self) -> ResponseView {
        ResponseView {
            status: self.status,
            headers: text::pair_texts(self.headers@),
            body: match self.body {
                ResponseBody::Bytes(b) => BodyView::Bytes(b@),
                ResponseBody::Text(t) => BodyView::Text(t@),
            },
        }
    }
}

/// What an endpoint answers.
#[derive(Debug, PartialEq)]
pub enum RequestPayloads {
    Gzipped(Vec<u8>, u64, bool),
    Brotli(Vec<u8>, u64, bool),
    Proto(Vec<u8>, u64, CompressionEncoder, bool),
    /// JSON, with the time of its last change.
    Plain(Vec<u8>, u64, bool),
    /// The bytes of a file, or the part of them that was asked for.
    Text { data: Vec<u8>, status: u16, content_range: Option<String> },
    RangeNotSatisfiable { complete_length: usize },
    /// An error told in plain text.
    Error(u16, &'static str),
    Unauthorized(),
}

/// The model of what an endpoint answers.
pub enum PayloadsView {
    Gzipped(Seq<u8>, u64, bool),
    Brotli(Seq<u8>, u64, bool),
    Proto(Seq<u8>, u64, CompressionEncoder, bool),
    Plain(Seq<u8>, u64, bool),
    Text(Seq<u8>, u16, Option<Seq<char>>),
    RangeNotSatisfiable(usize),
    Error(u16, Seq<char>),
    Unauthorized,
}

impl View for RequestPayloads {
    type V = PayloadsView;

    open spec fn view(&self) -> PayloadsView {
        match self {
            RequestPayloads::Gzipped(data, lcut, used) => PayloadsView::Gzipped(
                data@,
                *lcut,
                *used,
            ),
            RequestPayloads::Brotli(data, lcut, used) => PayloadsView::Brotli(data@, *lcut, *used),
            RequestPayloads::Proto(data, lcut, encoding, used) => PayloadsView::Proto(
                data@,
                *lcut,
                *encoding,
                *used,
            ),
            RequestPayloads::Plain(data, lcut, used) => PayloadsView::Plain(data@, *lcut, *used),
            RequestPayloads::Text { data, status, content_range } => PayloadsView::Text(
                data@,
                *status,
                text::text_option(*content_range),
            ),
            RequestPayloads::RangeNotSatisfiable { complete_length } =>
                PayloadsView::RangeNotSatisfiable(*complete_length),
            RequestPayloads::Error(status, body) => PayloadsView::Error(*status, body@),
            RequestPayloads::Unauthorized() => PayloadsView::Unauthorized,
        }
    }
}

/// The header that tells that changes were sent, where they were.
pub open spec fn delta_headers(used: bool) -> Seq<(Seq<char>, Seq<char>)> {
    if used {
        seq![("x-deltas-used"@, "true"@)]
    } else {
        Seq::empty()
    }
}

pub open spec fn since_header(lcut: u64) -> (Seq<char>, Seq<char>) {
    ("x-since-time"@, text::decimal(lcut as nat))
}

/// The headers of an answer in JSON.
pub open spec fn json_headers(encoding: Option<Seq<char>>, lcut: u64, used: bool) -> Seq<
    (Seq<char>, Seq<char>),
> {
    seq![("Content-Type"@, "application/json"@)] + (match encoding {
        Some(e) => seq![("Content-Encoding"@, e)],
        None => Seq::empty(),
    }) + seq![since_header(lcut)] + delta_headers(used)
}

/// The answer that a payload is sent as. The answer without news is marked, so
/// that a proxy in front of this one knows it.
pub open spec fn response_of(p: PayloadsView) -> ResponseView {
    match p {
        PayloadsView::Gzipped(data, lcut, used) => ResponseView {
            status: 200,
            headers: json_headers(Some("gzip"@), lcut, used),
            body: BodyView::Bytes(data),
        },
        PayloadsView::Brotli(data, lcut, used) => ResponseView {
            status: 200,
            headers: json_headers(Some("br"@), lcut, used),
            body: BodyView::Bytes(data),
        },
        PayloadsView::Proto(data, lcut, encoding, used) => ResponseView {
            status: 200,
            headers: seq![("Content-Type"@, "application/octet-stream"@)] + (match
            response_compression::content_encoding(encoding) {
                Some(e) => seq![("Content-Encoding"@, e)],
                None => Seq::empty(),
            }) + delta_headers(used) + seq![since_header(lcut)],
            body: BodyView::Bytes(data),
        },
        PayloadsView::Plain(data, lcut, used) => ResponseView {
            status: 200,
            headers: json_headers(None, lcut, used) + (if data
                == config_spec_store::no_update_bytes() {
                seq![("x-cache-hit"@, "true"@)]
            } else {
                Seq::empty()
            }),
            body: BodyView::Bytes(data),
        },
        PayloadsView::Text(data, status, content_range) => ResponseView {
            status,
            headers: seq![
                ("Content-Type"@, "application/octet-stream"@),
                ("Accept-Ranges"@, "bytes"@),
            ] + (match content_range {
                Some(range) => seq![("Content-Range"@, range)],
                None => Seq::empty(),
            }),
            body: BodyView::Bytes(data),
        },
        PayloadsView::RangeNotSatisfiable(complete_length) => ResponseView {
            status: 416,
            headers: seq![
                ("Content-Type"@, "application/octet-stream"@),
                ("Accept-Ranges"@, "bytes"@),
                ("Content-Range"@, "bytes */"@ + text::decimal(complete_length as nat)),
            ],
            body: BodyView::Bytes(Seq::empty()),
        },
        PayloadsView::Error(status, body) => ResponseView {
            status,
            headers: seq![("Content-Type"@, "text/plain; charset=utf-8"@)],
            body: BodyView::Text(body),
        },
        PayloadsView::Unauthorized => ResponseView {
            status: 401,
            headers: seq![("Content-Type"@, "text/plain; charset=utf-8"@)],
            body: BodyView::Text("Unauthorized"@),
        },
    }
}

fn push_header(headers: &mut Vec<(String, String)>, name: &str, value: &str)
    ensures
        text::pair_texts(final(headers)@) == text::pair_texts(old(headers)@).push((name@, value@)),
{
    headers.push((name.to_owned(), value.to_owned()));
    assert(text::pair_texts(headers@) =~= text::pair_texts(old(headers)@).push((name@, value@)));
}

fn attach_delta_used_header(headers: &mut Vec<(String, String)>, delta_used: bool)
    ensures
        text::pair_texts(final(headers)@) == text::pair_texts(old(headers)@) + delta_headers(delta_used),
{
    if delta_used {
        push_header(headers, "x-deltas-used", "true");
    }
    assert(text::pair_texts(headers@) =~= text::pair_texts(old(headers)@) + delta_headers(delta_used));
}

fn json_header_list(encoding: Option<&str>, lcut: u64, delta_used: bool) -> (r: Vec<
    (String, String),
>)
    ensures
        text::pair_texts(r@) == json_headers(
            match encoding {
                Some(e) => Some(e@),
                None => None,
            },
            lcut,
            delta_used,
        ),
{
    let mut headers: Vec<(String, String)> = Vec::new();
    assert(text::pair_texts(headers@) =~= Seq::empty());
    push_header(&mut headers, "Content-Type", "application/json");
    if let Some(e) = encoding {
        push_header(&mut headers, "Content-Encoding", e);
    }
    let since = text::decimal_string(lcut);
    push_header(&mut headers, "x-since-time", since.as_str());
    attach_delta_used_header(&mut headers, delta_used);
    proof {
        let e = match encoding {
            Some(e) => Some(e@),
            None => None,
        };
        assert(text::pair_texts(headers@) =~= json_headers(e, lcut, delta_used));
    }
    headers
}

pub fn same_bytes(a: &Vec<u8>, b: &Vec<u8>) -> (r: bool)
    ensures
        r == (a@ == b@),
{
    if a.len() != b.len() {
        return false;
    }
    let mut i: usize = 0;
    while i < a.len()
        invariant
            i <= a@.len() == b@.len(),
            a@.take(i as int) =~= b@.take(i as int),
        decreases a@.len() - i,
    {
        if a[i] != b[i] {
            assert(a@[i as int] != b@[i as int]);
            return false;
        }
        i += 1;
    }
    assert(a@.take(i as int) =~= a@);
    assert(b@.take(i as int) =~= b@);
    true
}

fn plain_text(status: u16, body: &str) -> (r: HttpResponse)
    ensures
        r@ == (ResponseView {
            status,
            headers: seq![("Content-Type"@, "text/plain; charset=utf-8"@)],
            body: BodyView::Text(body@),
        }),
{
    let mut headers: Vec<(String, String)> = Vec::new();
    assert(text::pair_texts(headers@) =~= Seq::empty());
    push_header(&mut headers, "Content-Type", "text/plain; charset=utf-8");
    assert(text::pair_texts(headers@) =~= seq![("Content-Type"@, "text/plain; charset=utf-8"@)]);
    HttpResponse { status, headers, body: ResponseBody::Text(body.to_owned()) }
}

impl RequestPayloads {
    /// The answer that this is sent as.
    pub fn respond_to(self) -> (r: HttpResponse)
        ensures
            r@ == response_of(self@),
            match self {
                RequestPayloads::Gzipped(data, _, _)
                | RequestPayloads::Brotli(data, _, _)
                | RequestPayloads::Proto(data, _, _, _)
                | RequestPayloads::Plain(data, _, _) => r.status == 200 && r.body
                    == ResponseBody::Bytes(data),
                RequestPayloads::Text { data, status, .. } => r.status == status && r.body
                    == ResponseBody::Bytes(data),
                RequestPayloads::Error(status, body) => r.status == status,
                RequestPayloads::RangeNotSatisfiable { .. } => r.status == 416,
                RequestPayloads::Unauthorized() => r.status == 401,
            },
    {
        let ghost view = self@;
        match self {
            RequestPayloads::Gzipped(data, lcut, delta_used) => HttpResponse {
                status: 200,
                headers: json_header_list(Some("gzip"), lcut, delta_used),
                body: ResponseBody::Bytes(data),
            },
            RequestPayloads::Brotli(data, lcut, delta_used) => HttpResponse {
                status: 200,
                headers: json_header_list(Some("br"), lcut, delta_used),
                body: ResponseBody::Bytes(data),
            },
            RequestPayloads::Proto(data, lcut, encoding, delta_used) => {
                let mut headers: Vec<(String, String)> = Vec::new();
                assert(text::pair_texts(headers@) =~= Seq::empty());
                push_header(&mut headers, "Content-Type", "application/octet-stream");
                if let Some(e) = response_compression::content_encoding_header_value(encoding) {
                    push_header(&mut headers, "Content-Encoding", e);
                }
                attach_delta_used_header(&mut headers, delta_used);
                let since = text::decimal_string(lcut);
                push_header(&mut headers, "x-since-time", since.as_str());
                assert(text::pair_texts(headers@) =~= response_of(view).headers);
                HttpResponse { status: 200, headers, body: ResponseBody::Bytes(data) }
            },
            RequestPayloads::Plain(data, lcut, delta_used) => {
                let mut headers = json_header_list(None, lcut, delta_used);
                if same_bytes(&data, &config_spec_store::no_update_json()) {
                    push_header(&mut headers, "x-cache-hit", "true");
                }
                assert(text::pair_texts(headers@) =~= response_of(view).headers);
                HttpResponse { status: 200, headers, body: ResponseBody::Bytes(data) }
            },
            RequestPayloads::Text { data, status, content_range } => {
                let mut headers: Vec<(String, String)> = Vec::new();
                assert(text::pair_texts(headers@) =~= Seq::empty());
                push_header(&mut headers, "Content-Type", "application/octet-stream");
                push_header(&mut headers, "Accept-Ranges", "bytes");
                if let Some(range) = content_range {
                    push_header(&mut headers, "Content-Range", range.as_str());
                }
                assert(text::pair_texts(headers@) =~= response_of(view).headers);
                HttpResponse { status, headers, body: ResponseBody::Bytes(data) }
            },
            RequestPayloads::RangeNotSatisfiable { complete_length } => {
                let mut headers: Vec<(String, String)> = Vec::new();
                assert(text::pair_texts(headers@) =~= Seq::empty());
                push_header(&mut headers, "Content-Type", "application/octet-stream");
                push_header(&mut headers, "Accept-Ranges", "bytes");
                let mut range = "bytes */".to_owned();
                text::push_decimal(&mut range, complete_length as u64);
                push_header(&mut headers, "Content-Range", range.as_str());
                assert(text::pair_texts(headers@) =~= response_of(view).headers);
                let body: Vec<u8> = Vec::new();
                HttpResponse { status: 416, headers, body: ResponseBody::Bytes(body) }
            },
            RequestPayloads::Error(status, body) => plain_text(status, body),
            RequestPayloads::Unauthorized() => plain_text(401, "Unauthorized"),
        }
    }
}

/// How a stored body is answered.
pub open spec fn payload_for(
    p: http_data_provider::PayloadView,
    lcut: u64,
    used: bool,
) -> PayloadsView {
    if p.use_proto {
        PayloadsView::Proto(p.data, lcut, p.encoding, used)
    } else if p.encoding == CompressionEncoder::Gzip {
        PayloadsView::Gzipped(p.data, lcut, used)
    } else if p.encoding == CompressionEncoder::Brotli {
        PayloadsView::Brotli(p.data, lcut, used)
    } else {
        PayloadsView::Plain(p.data, lcut, used)
    }
}

pub fn to_request_payload(payload: &ResponsePayload, lcut: u64) -> (r: RequestPayloads)
    ensures
        r@ == payload_for(payload@, lcut, false),
{
    to_request_payload_with_delta_used(payload, lcut, false)
}

pub fn to_request_payload_with_delta_used(
    payload: &ResponsePayload,
    lcut: u64,
    delta_used: bool,
) -> (r: RequestPayloads)
    ensures
        r@ == payload_for(payload@, lcut, delta_used),
{
    let data = payload.data.clone();
    if payload.use_proto {
        RequestPayloads::Proto(data, lcut, payload.encoding, delta_used)
    } else if payload.encoding == CompressionEncoder::Gzip {
        RequestPayloads::Gzipped(data, lcut, delta_used)
    } else if payload.encoding == CompressionEncoder::Brotli {
        RequestPayloads::Brotli(data, lcut, delta_used)
    } else {
        RequestPayloads::Plain(data, lcut, delta_used)
    }
}

/// The value of `Content-Range` for the end of a file from `start` on.
pub open spec fn content_range(start: int, len: int) -> Seq<char> {
    "bytes "@ + text::decimal(start as nat) + "-"@ + text::decimal((len - 1) as nat) + "/"@
        + text::decimal(len as nat)
}

/// The part of a file that is asked for.
pub open spec fn file_payload(range_start: Option<u64>, data: Seq<u8>) -> PayloadsView {
    match range_start {
        None => PayloadsView::Text(data, 200, None),
        Some(start) => if start >= data.len() {
            PayloadsView::RangeNotSatisfiable(data.len() as usize)
        } else {
            PayloadsView::Text(
                data.skip(start as int),
                206,
                Some(content_range(start as int, data.len() as int)),
            )
        },
    }
}

pub fn build_download_id_list_file_payload(
    request_context: &AuthorizedRequestContext,
    data: Vec<u8>,
) -> (r: RequestPayloads)
    ensures
        r@ == file_payload(request_context@.range_start, data@),
{
    let complete_length: usize = data.len();
    let range_start: u64 = match request_context.range_start {
        Some(s) => s,
        None => {
            return RequestPayloads::Text { data, status: 200, content_range: None };
        },
    };
    if range_start >= complete_length as u64 {
        return RequestPayloads::RangeNotSatisfiable { complete_length };
    }
    let start: usize = range_start as usize;
    let mut part: Vec<u8> = Vec::new();
    let mut i: usize = start;
    while i < complete_length
        invariant
            start <= i <= complete_length == data@.len(),
            part@ =~= data@.subrange(start as int, i as int),
        decreases complete_length - i,
    {
        part.push(data[i]);
        i += 1;
    }
    assert(part@ =~= data@.skip(start as int));
    let mut range = "bytes ".to_owned();
    text::push_decimal(&mut range, range_start);
    range.push('-');
    text::push_decimal(&mut range, (complete_length - 1) as u64);
    range.push('/');
    text::push_decimal(&mut range, complete_length as u64);
    proof {
        reveal_strlit("-");
        reveal_strlit("/");
        assert(range@ =~= content_range(start as int, complete_length as int));
    }
    RequestPayloads::Text { data: part, status: 206, content_range: Some(range) }
}

/// The parts of a file that follow one another make up the file: what a client
/// has, and what it is sent from there on.
pub proof fn law_ranges_complete_the_file(start: u64, data: Seq<u8>)
    requires
        start < data.len(),
    ensures
        file_payload(Some(start), data) matches PayloadsView::Text(part, status, range) && status
            == 206 && data.take(start as int) + part == data && part.len() > 0,
{
    assert(data.take(start as int) + data.skip(start as int) =~= data);
}

/// Why changes cannot be sent.
#[derive(Debug, Clone, Copy, PartialEq, Eq, Structural)]
pub enum DeltaPayloadError {
    DeltasDisabled,
    UnsupportedPath,
    SupportsProtoRequired,
    MissingSinceTime,
    ZeroSinceTime,
    SdkKeyNotRegistered,
    NoCachedDeltas,
    SinceTimeTooOld { since_time: u64, earliest_since_time: u64 },
    SerializationFailed,
}

impl DeltaPayloadError {
    pub open spec fn status(self) -> u16 {
        match self {
            DeltaPayloadError::DeltasDisabled => 503,
            DeltaPayloadError::UnsupportedPath => 500,
            DeltaPayloadError::SupportsProtoRequired => 400,
            DeltaPayloadError::MissingSinceTime => 400,
            DeltaPayloadError::ZeroSinceTime => 400,
            DeltaPayloadError::SdkKeyNotRegistered => 409,
            DeltaPayloadError::NoCachedDeltas => 409,
            DeltaPayloadError::SinceTimeTooOld { .. } => 409,
            DeltaPayloadError::SerializationFailed => 500,
        }
    }

    pub open spec fn text(self) -> Seq<char> {
        match self {
            DeltaPayloadError::DeltasDisabled => "Delta serving disabled"@,
            DeltaPayloadError::UnsupportedPath => "Delta payload requested for unsupported path"@,
            DeltaPayloadError::SupportsProtoRequired => "supports_proto=true is required"@,
            DeltaPayloadError::MissingSinceTime => "Missing sinceTime parameter"@,
            DeltaPayloadError::ZeroSinceTime =>
                "sinceTime must be greater than 0 for download_config_specs_deltas"@,
            DeltaPayloadError::SdkKeyNotRegistered => "SDK key not registered for delta tracking"@,
            DeltaPayloadError::NoCachedDeltas => "No cached deltas available yet"@,
            DeltaPayloadError::SinceTimeTooOld { .. } =>
                "sinceTime is older than the retained delta history"@,
            DeltaPayloadError::SerializationFailed => "Failed to serialize delta payload"@,
        }
    }

    pub fn http_status(&self) -> (r: u16)
        ensures
            r == self.status(),
    {
        match self {
            DeltaPayloadError::DeltasDisabled => 503,
            DeltaPayloadError::UnsupportedPath => 500,
            DeltaPayloadError::SupportsProtoRequired => 400,
            DeltaPayloadError::MissingSinceTime => 400,
            DeltaPayloadError::ZeroSinceTime => 400,
            DeltaPayloadError::SdkKeyNotRegistered => 409,
            DeltaPayloadError::NoCachedDeltas => 409,
            DeltaPayloadError::SinceTimeTooOld { .. } => 409,
            DeltaPayloadError::SerializationFailed => 500,
        }
    }

    pub fn body(&self) -> (r: &'static str)
        ensures
            r@ == self.text(),
    {
        match self {
            DeltaPayloadError::DeltasDisabled => "Delta serving disabled",
            DeltaPayloadError::UnsupportedPath => "Delta payload requested for unsupported path",
            DeltaPayloadError::SupportsProtoRequired => "supports_proto=true is required",
            DeltaPayloadError::MissingSinceTime => "Missing sinceTime parameter",
            DeltaPayloadError::ZeroSinceTime =>
                "sinceTime must be greater than 0 for download_config_specs_deltas",
            DeltaPayloadError::SdkKeyNotRegistered => "SDK key not registered for delta tracking",
            DeltaPayloadError::NoCachedDeltas => "No cached deltas available yet",
            DeltaPayloadError::SinceTimeTooOld { .. } =>
                "sinceTime is older than the retained delta history",
            DeltaPayloadError::SerializationFailed => "Failed to serialize delta payload",
        }
    }
}

/// The time from which on changes are asked for, where the request is in order.
pub open spec fn direct_delta_request(supports_proto: bool, since_time: Option<u64>) -> Result<
    u64,
    DeltaPayloadError,
> {
    if !supports_proto {
        Err(DeltaPayloadError::SupportsProtoRequired)
    } else {
        match since_time {
            None => Err(DeltaPayloadError::MissingSinceTime),
            Some(t) => if t == 0 {
                Err(DeltaPayloadError::ZeroSinceTime)
            } else {
                Ok(t)
            },
        }
    }
}

pub fn validate_direct_delta_request(
    rc: &AuthorizedRequestContext,
    since_time: Option<u64>,
) -> (r: Result<u64, DeltaPayloadError>)
    ensures
        r == direct_delta_request(rc@.supports_proto, since_time),
{
    if !rc.supports_proto {
        return Err(DeltaPayloadError::SupportsProtoRequired);
    }
    match since_time {
        Some(t) => if t == 0 {
            Err(DeltaPayloadError::ZeroSinceTime)
        } else {
            Ok(t)
        },
        None => Err(DeltaPayloadError::MissingSinceTime),
    }
}

/// What is answered with what was combined of the changes.
pub open spec fn delta_answer(
    built: deltas_store::BuildView,
    since_time: u64,
    encodings: Seq<CompressionEncoder>,
    no_update: http_data_provider::PayloadView,
) -> Result<PayloadsView, DeltaPayloadError> {
    match built {
        deltas_store::BuildView::SdkKeyNotRegistered => Err(DeltaPayloadError::SdkKeyNotRegistered),
        deltas_store::BuildView::NoCachedDeltas => Err(DeltaPayloadError::NoCachedDeltas),
        deltas_store::BuildView::SinceTimeTooOld(earliest_since_time) => Err(
            DeltaPayloadError::SinceTimeTooOld { since_time, earliest_since_time },
        ),
        deltas_store::BuildView::SerializationFailed => Err(DeltaPayloadError::SerializationFailed),
        deltas_store::BuildView::NoUpdates(lcut) => Ok(payload_for(no_update, lcut, true)),
        deltas_store::BuildView::Combined(lcut, payload) => {
            let encoding = response_compression::preferred(encodings);
            match response_compression::compressed(payload, encoding) {
                Some(body) => Ok(PayloadsView::Proto(body, lcut, encoding, true)),
                None => Ok(payload_for(no_update, lcut, true)),
            }
        },
    }
}

/// Whether changes are sent at all for a request.
pub open spec fn delta_refusal(
    enabled: bool,
    c: authorized_request_context::ContextView,
) -> Option<DeltaPayloadError> {
    if !enabled {
        Some(DeltaPayloadError::DeltasDisabled)
    } else if !(c.path is V2DownloadConfigSpecs || c.path is V2DownloadConfigSpecsDeltas) {
        Some(DeltaPayloadError::UnsupportedPath)
    } else if !c.supports_proto {
        Some(DeltaPayloadError::SupportsProtoRequired)
    } else {
        None
    }
}

pub open spec fn result_view(r: Result<RequestPayloads, DeltaPayloadError>) -> Result<
    PayloadsView,
    DeltaPayloadError,
> {
    match r {
        Ok(p) => Ok(p@),
        Err(e) => Err(e),
    }
}

/// The answer to a request for changes, from what was combined of them.
pub fn answer_with_deltas(
    built: DeltaProtoBuildResult,
    rc: &AuthorizedRequestContext,
    since_time: u64,
    no_update_payload: &ResponsePayload,
) -> (r: Result<RequestPayloads, DeltaPayloadError>)
    ensures
        result_view(r) == delta_answer(built@, since_time, rc@.encodings, no_update_payload@),
{
    match built {
        DeltaProtoBuildResult::SdkKeyNotRegistered => Err(DeltaPayloadError::SdkKeyNotRegistered),
        DeltaProtoBuildResult::NoCachedDeltas => Err(DeltaPayloadError::NoCachedDeltas),
        DeltaProtoBuildResult::SinceTimeTooOld { earliest_since_time } => Err(
            DeltaPayloadError::SinceTimeTooOld { since_time, earliest_since_time },
        ),
        DeltaProtoBuildResult::SerializationFailed => Err(DeltaPayloadError::SerializationFailed),
        DeltaProtoBuildResult::NoUpdates { lcut } => Ok(
            to_request_payload_with_delta_used(no_update_payload, lcut, true),
        ),
        DeltaProtoBuildResult::Combined { lcut, payload } => {
            let compression = response_compression::preferred_response_compression(
                rc.encodings.as_slice(),
            );
            match response_compression::compress_response_payload(payload.as_slice(), compression) {
                Some(compressed) => Ok(RequestPayloads::Proto(compressed, lcut, compression, true)),
                None => Ok(to_request_payload_with_delta_used(no_update_payload, lcut, true)),
            }
        },
    }
}

/// What is answered to a request for changes.
pub open spec fn delta_payload(
    enabled: bool,
    store: DeltasStore,
    sdk_keys: SdkKeyStore,
    c: authorized_request_context::ContextView,
    since_time: u64,
    no_update: http_data_provider::PayloadView,
) -> Result<PayloadsView, DeltaPayloadError> {
    match delta_refusal(enabled, c) {
        Some(e) => Err(e),
        None => delta_answer(
            deltas_store::build_result(
                sdk_keys.lcuts().contains_key(
                    sdk_key_store::context_key(deltas_store::delta_context(c)),
                ),
                store.of_key(c.sdk_key),
                since_time,
            ),
            since_time,
            c.encodings,
            no_update,
        ),
    }
}

pub fn try_build_delta_payload(
    deltas_background_loop_enabled: bool,
    deltas: &DeltasStore,
    sdk_keys: &SdkKeyStore,
    rc: &AuthorizedRequestContext,
    since_time: u64,
    no_update_payload: &ResponsePayload,
) -> (r: Result<RequestPayloads, DeltaPayloadError>)
    requires
        deltas.wf(),
        sdk_keys.wf(),
    ensures
        result_view(r) == delta_payload(
            deltas_background_loop_enabled,
            *deltas,
            *sdk_keys,
            rc@,
            since_time,
            no_update_payload@,
        ),
{
    if !deltas_background_loop_enabled {
        return Err(DeltaPayloadError::DeltasDisabled);
    }
    if !(rc.path == NormalizedPath::V2DownloadConfigSpecs || rc.path
        == NormalizedPath::V2DownloadConfigSpecsDeltas) {
        return Err(DeltaPayloadError::UnsupportedPath);
    }
    if !rc.supports_proto {
        return Err(DeltaPayloadError::SupportsProtoRequired);
    }
    answer_with_deltas(
        deltas.build_combined_delta_proto_payload(sdk_keys, rc, since_time),
        rc,
        since_time,
        no_update_payload,
    )
}

/// A binary answer is always the combined payload, compressed as the answer says
/// and as the client accepts.
pub proof fn law_sent_deltas_are_combined(
    built: deltas_store::BuildView,
    since_time: u64,
    encodings: Seq<CompressionEncoder>,
    no_update: http_data_provider::PayloadView,
)
    requires
        !no_update.use_proto,
    ensures
        match delta_answer(built, since_time, encodings, no_update) {
            Ok(PayloadsView::Proto(body, lcut, encoding, used)) => {
                &&& used
                &&& encoding == response_compression::preferred(encodings)
                &&& built is Combined
                &&& lcut == built->Combined_0
                &&& response_compression::compressed(built->Combined_1, encoding) == Some(body)
            },
            _ => true,
        },
{
}

/// What the endpoint for changes answers.
pub open spec fn deltas_response(
    validated: Result<u64, DeltaPayloadError>,
    built: Option<Result<PayloadsView, DeltaPayloadError>>,
) -> PayloadsView {
    match validated {
        Err(e) => PayloadsView::Error(e.status(), e.text()),
        Ok(_) => match built {
            None => PayloadsView::Error(503, "Deltas store unavailable"@),
            Some(Ok(p)) => p,
            Some(Err(e)) => PayloadsView::Error(e.status(), e.text()),
        },
    }
}

/// The endpoint for changes. The request is registered before it is answered, so
/// that its key is kept up to date from then on.
pub fn get_download_config_specs_deltas(
    deltas_background_loop_enabled: bool,
    deltas: Option<&DeltasStore>,
    sdk_keys: &mut SdkKeyStore,
    rc: &AuthorizedRequestContext,
    since_time: Option<u64>,
    no_update_payload: &ResponsePayload,
) -> (r: RequestPayloads)
    requires
        old(sdk_keys).wf(),
        deltas matches Some(d) ==> d.wf(),
    ensures
        final(sdk_keys).wf(),
        ({
            let validated = direct_delta_request(rc@.supports_proto, since_time);
            let registered = old(sdk_keys).lcuts().insert(
                sdk_key_store::context_key(deltas_store::delta_context(rc@)),
                validated->Ok_0,
            );
            &&& final(sdk_keys).lcuts() == (if validated is Ok && deltas is Some {
                registered
            } else {
                old(sdk_keys).lcuts()
            })
            &&& final(sdk_keys).requests() == (if validated is Ok && deltas is Some {
                sdk_key_store::upserted(
                    old(sdk_keys).requests(),
                    deltas_store::delta_context(rc@),
                    validated->Ok_0,
                )
            } else {
                old(sdk_keys).requests()
            })
            &&& r@ == deltas_response(
                validated,
                match deltas {
                    Some(d) => Some(
                        delta_payload(
                            deltas_background_loop_enabled,
                            *d,
                            *final(sdk_keys),
                            rc@,
                            validated->Ok_0,
                            no_update_payload@,
                        ),
                    ),
                    None => None,
                },
            )
        }),
{
    let since = match validate_direct_delta_request(rc, since_time) {
        Ok(t) => t,
        Err(e) => {
            return RequestPayloads::Error(e.http_status(), e.body());
        },
    };
    match deltas {
        Some(d) => {
            d.register_sdk_key(sdk_keys, rc, since);
            match try_build_delta_payload(
                deltas_background_loop_enabled,
                d,
                sdk_keys,
                rc,
                since,
                no_update_payload,
            ) {
                Ok(p) => p,
                Err(e) => RequestPayloads::Error(e.http_status(), e.body()),
            }
        },
        None => RequestPayloads::Error(503, "Deltas store unavailable"),
    }
}

/// What the endpoint for whole specs sends of the changes, where a client that
/// takes changes can be served them.
pub fn config_specs_as_deltas(
    deltas_background_loop_enabled: bool,
    deltas: Option<&DeltasStore>,
    sdk_keys: &SdkKeyStore,
    rc: &AuthorizedRequestContext,
    since_time: Option<u64>,
    accept_deltas: Option<bool>,
    no_update_payload: &ResponsePayload,
) -> (r: Option<RequestPayloads>)
    requires
        sdk_keys.wf(),
        deltas matches Some(d) ==> d.wf(),
    ensures
        r is Some ==> deltas_background_loop_enabled && accept_deltas == Some(true) && deltas is Some
            && rc@.supports_proto,
        (match r {
            Some(p) => Some(p@),
            None => None,
        }) == (if accept_deltas == Some(true) && deltas is Some {
            match delta_payload(
                deltas_background_loop_enabled,
                *(deltas->0),
                *sdk_keys,
                rc@,
                since_or_zero(since_time),
                no_update_payload@,
            ) {
                Ok(p) => Some(p),
                Err(_) => None,
            }
        } else {
            None
        }),
{
    let since: u64 = match since_time {
        Some(t) => t,
        None => 0,
    };
    let accepted = match accept_deltas {
        Some(b) => b,
        None => false,
    };
    if !accepted {
        return None;
    }
    match deltas {
        Some(d) => match try_build_delta_payload(
            deltas_background_loop_enabled,
            d,
            sdk_keys,
            rc,
            since,
            no_update_payload,
        ) {
            Ok(p) => Some(p),
            Err(_) => None,
        },
        None => None,
    }
}

pub open spec fn since_or_zero(since_time: Option<u64>) -> u64 {
    match since_time {
        Some(t) => t,
        None => 0,
    }
}

/// What the endpoints for whole specs answer, once the specs have been fetched
/// where they were missing.
pub fn config_spec_payload(served: &Option<ServedConfigSpec>) -> (r: RequestPayloads)
    ensures
        r@ is Unauthorized <==> served is None,
        served matches Some(s) ==> response_of(r@).body == BodyView::Bytes(s.spec.config.data@),
        r@ == (match served {
            Some(s) => payload_for(s.spec.config@, s.spec.lcut, false),
            None => PayloadsView::Unauthorized,
        }),
{
    match served {
        Some(s) => to_request_payload(&s.spec.config, s.spec.lcut),
        None => RequestPayloads::Unauthorized(),
    }
}

/// What the endpoint for the lists of ids answers.
pub fn id_lists_payload(idlists: Option<&ResponsePayload>) -> (r: RequestPayloads)
    ensures
        r@ is Unauthorized <==> idlists is None,
        idlists matches Some(p) ==> response_of(r@).body == BodyView::Bytes(p.data@),
        r@ == (match idlists {
            Some(p) => payload_for(p@, 0, false),
            None => PayloadsView::Unauthorized,
        }),
{
    match idlists {
        Some(p) => to_request_payload(p, 0),
        None => RequestPayloads::Unauthorized(),
    }
}

/// What the endpoint for a file of ids answers, from the bytes of the file where
/// there are any.
pub fn id_list_file_response(request: &DownloadIdListFileRequestGuard, data: Option<Vec<u8>>) -> (r:
    RequestPayloads)
    ensures
        r@ is Unauthorized <==> request@ is Authorized && data is None,
        request@ is Invalid ==> response_of(r@).status == 400,
        (request@ matches authorized_request_context::GuardView::Authorized(c)
            && c.range_start is None && data is Some) ==> response_of(r@).body == BodyView::Bytes(
            (data->0)@,
        ),
        r@ == (match request@ {
            authorized_request_context::GuardView::Invalid(e) => PayloadsView::Error(
                400,
                e.body_text(),
            ),
            authorized_request_context::GuardView::Authorized(c) => match codecs::bytes_option(
                data,
            ) {
                Some(bytes) => file_payload(c.range_start, bytes),
                None => PayloadsView::Unauthorized,
            },
        }),
{
    match request {
        DownloadIdListFileRequestGuard::Authorized(rc) => match data {
            Some(bytes) => build_download_id_list_file_payload(rc, bytes),
            None => RequestPayloads::Unauthorized(),
        },
        DownloadIdListFileRequestGuard::Invalid(e) => RequestPayloads::Error(400, e.body()),
    }
}

/// The answer where nothing else answers.
#[derive(Debug)]
pub struct DefaultResponse {
    pub code: u16,
    pub reason: &'static str,
}

/// The answer where nothing else answers, with the reason of the status where it
/// has one.
pub fn default_catcher(code: u16, reason: Option<&'static str>) -> (r: DefaultResponse)
    ensures
        r.code == code,
        r.reason@ == (match reason {
            Some(t) => t@,
            None => "No Reason Provided."@,
        }),
{
    DefaultResponse {
        code,
        reason: match reason {
            Some(t) => t,
            None => "No Reason Provided.",
        },
    }
}

/// A request for specs that was posted.
#[derive(Debug)]
pub struct DcsRequest {
    pub since_time: Option<u64>,
}

/// Whatever bytes a payload carries are exactly the body of the answer that it is sent as.
/// What is found is answered with success, and what is refused with its own status and
/// text.
pub proof fn law_payloads_are_sent_whole(p: PayloadsView)
    ensures
        match p {
            PayloadsView::Gzipped(data, _, _)
            | PayloadsView::Brotli(data, _, _)
            | PayloadsView::Proto(data, _, _, _)
            | PayloadsView::Plain(data, _, _) => response_of(p).body == BodyView::Bytes(data)
                && response_of(p).status == 200,
            PayloadsView::Text(data, status, _) => response_of(p).body == BodyView::Bytes(data)
                && response_of(p).status == status,
            PayloadsView::RangeNotSatisfiable(_) => response_of(p).body == BodyView::Bytes(
                Seq::empty(),
            ) && response_of(p).status == 416,
            PayloadsView::Error(status, body) => response_of(p).body == BodyView::Text(body)
                && response_of(p).status == status,
            PayloadsView::Unauthorized => response_of(p).status == 401,
        },
{
}

/// Whether an answer has a header, and no other value for its name.
pub open spec fn tells(r: ResponseView, name: Seq<char>, value: Seq<char>) -> bool {
    &&& r.headers.contains((name, value))
    &&& forall|i: int|
        0 <= i < r.headers.len() && (#[trigger] r.headers[i]).0 == name ==> r.headers[i].1 == value
}

/// Whether an answer has no header of a name.
pub open spec fn tells_no(r: ResponseView, name: Seq<char>) -> bool {
    forall|i: int| 0 <= i < r.headers.len() ==> (#[trigger] r.headers[i]).0 != name
}

proof fn lemma_header_names()
    ensures
        "Content-Type"@ != "Content-Encoding"@,
        "Content-Type"@ != "Content-Range"@,
        "Content-Type"@ != "Accept-Ranges"@,
        "Content-Type"@ != "x-since-time"@,
        "Content-Type"@ != "x-deltas-used"@,
        "Content-Type"@ != "x-cache-hit"@,
        "Content-Encoding"@ != "x-since-time"@,
        "Content-Encoding"@ != "x-deltas-used"@,
        "Content-Encoding"@ != "x-cache-hit"@,
        "Content-Range"@ != "Accept-Ranges"@,
        "x-since-time"@ != "x-deltas-used"@,
        "x-since-time"@ != "x-cache-hit"@,
        "x-deltas-used"@ != "x-cache-hit"@,
        "application/json"@ != "application/octet-stream"@,
{
    reveal_strlit("Content-Type");
    reveal_strlit("Content-Encoding");
    reveal_strlit("Content-Range");
    reveal_strlit("Accept-Ranges");
    reveal_strlit("x-since-time");
    reveal_strlit("x-deltas-used");
    reveal_strlit("x-cache-hit");
    reveal_strlit("application/json");
    reveal_strlit("application/octet-stream");
    assert("Content-Type"@[0] == 'C' && "x-since-time"@[0] == 'x');
    assert("Content-Type"@.len() == 12 && "Content-Encoding"@.len() == 16);
    assert("Content-Range"@.len() == 13 && "Accept-Ranges"@.len() == 13);
    assert("Content-Range"@[0] == 'C' && "Accept-Ranges"@[0] == 'A');
    assert("x-since-time"@.len() == 12 && "x-deltas-used"@.len() == 13 && "x-cache-hit"@.len()
        == 11);
    assert("application/json"@.len() == 16 && "application/octet-stream"@.len() == 24);
}

/// A stored payload is answered with its own bytes, whatever its encoding is. The answer
/// tells the time of the payload, whether deltas were used, and what the bytes are.
pub proof fn law_stored_payloads_are_answered(
    p: http_data_provider::PayloadView,
    lcut: u64,
    used: bool,
)
    ensures
        ({
            let r = response_of(payload_for(p, lcut, used));
            &&& r.status == 200
            &&& r.body == BodyView::Bytes(p.data)
            &&& tells(r, "x-since-time"@, text::decimal(lcut as nat))
            &&& used ==> tells(r, "x-deltas-used"@, "true"@)
            &&& !used ==> tells_no(r, "x-deltas-used"@)
            &&& p.use_proto ==> tells(r, "Content-Type"@, "application/octet-stream"@)
            &&& !p.use_proto ==> tells(r, "Content-Type"@, "application/json"@)
            &&& p.encoding == CompressionEncoder::Gzip ==> tells(r, "Content-Encoding"@, "gzip"@)
            &&& p.encoding == CompressionEncoder::Brotli ==> tells(r, "Content-Encoding"@, "br"@)
            &&& p.encoding == CompressionEncoder::StatsigBrotli && p.use_proto ==> tells(
                r,
                "Content-Encoding"@,
                "statsig-br"@,
            )
            &&& p.encoding == CompressionEncoder::PlainText ==> tells_no(r, "Content-Encoding"@)
        }),
{
    lemma_header_names();
    let r = response_of(payload_for(p, lcut, used));
    let h = r.headers;
    if p.use_proto {
        let named = response_compression::content_encoding(p.encoding);
        let n: int = if named is Some {
            1
        } else {
            0
        };
        let d: int = if used {
            1
        } else {
            0
        };
        assert(h.len() == 2 + n + d);
        assert(h[0] == ("Content-Type"@, "application/octet-stream"@));
        assert(h[n + d + 1] == ("x-since-time"@, text::decimal(lcut as nat)));
        assert(n == 1 ==> h[1] == ("Content-Encoding"@, named->0));
        assert(used ==> h[n + 1] == ("x-deltas-used"@, "true"@));
    } else {
        let encoded = p.encoding == CompressionEncoder::Gzip || p.encoding
            == CompressionEncoder::Brotli;
        let name = if p.encoding == CompressionEncoder::Gzip {
            "gzip"@
        } else {
            "br"@
        };
        let n: int = if encoded {
            1
        } else {
            0
        };
        let d: int = if used {
            1
        } else {
            0
        };
        let c: int = if !encoded && p.data == config_spec_store::no_update_bytes() {
            1
        } else {
            0
        };
        assert(h.len() == 2 + n + d + c);
        assert(h[0] == ("Content-Type"@, "application/json"@));
        assert(encoded ==> h[1] == ("Content-Encoding"@, name));
        assert(h[n + 1] == ("x-since-time"@, text::decimal(lcut as nat)));
        assert(used ==> h[n + 2] == ("x-deltas-used"@, "true"@));
        assert(c == 1 ==> h[n + d + 2] == ("x-cache-hit"@, "true"@));
    }
}

/// A plain answer is marked as one from the cache exactly where it says that nothing is
/// new.
pub proof fn law_no_updates_are_marked(data: Seq<u8>, lcut: u64, used: bool)
    ensures
        ({
            let r = response_of(PayloadsView::Plain(data, lcut, used));
            &&& data == config_spec_store::no_update_bytes() ==> tells(r, "x-cache-hit"@, "true"@)
            &&& data != config_spec_store::no_update_bytes() ==> tells_no(r, "x-cache-hit"@)
        }),
{
    lemma_header_names();
    let h = response_of(PayloadsView::Plain(data, lcut, used)).headers;
    let d: int = if used {
        1
    } else {
        0
    };
    assert(h[0] == ("Content-Type"@, "application/json"@));
    assert(h[1] == ("x-since-time"@, text::decimal(lcut as nat)));
    assert(used ==> h[2] == ("x-deltas-used"@, "true"@));
    if data == config_spec_store::no_update_bytes() {
        assert(h.len() == 3 + d);
        assert(h[d + 2] == ("x-cache-hit"@, "true"@));
    } else {
        assert(h.len() == 2 + d);
    }
}

/// The whole of a file is sent where no range is asked for. Where one is, what is sent is
/// the rest of the file, and the range in the answer tells its first and last place and
/// the size of the file. A range that starts behind the end is refused with that size.
pub proof fn law_files_are_sent_from_the_range_on(start: u64, data: Seq<u8>)
    requires
        data.len() <= usize::MAX,
    ensures
        response_of(file_payload(None, data)).status == 200,
        response_of(file_payload(None, data)).body == BodyView::Bytes(data),
        tells_no(response_of(file_payload(None, data)), "Content-Range"@),
        ({
            let r = response_of(file_payload(Some(start), data));
            &&& start < data.len() ==> {
                &&& r.status == 206
                &&& r.body matches BodyView::Bytes(part)
                &&& part == data.skip(start as int)
                &&& exists|from: Seq<char>, to: Seq<char>, size: Seq<char>|
                    #![trigger range_text(from, to, size)]
                    {
                        &&& tells(r, "Content-Range"@, range_text(from, to, size))
                        &&& text::parse_unsigned(from, u64::MAX as int) == Some(start as int)
                        &&& text::parse_unsigned(to, data.len() as int) == Some(data.len() - 1)
                        &&& text::parse_unsigned(size, data.len() as int) == Some(
                            data.len() as int,
                        )
                    }
            }
            &&& start >= data.len() ==> {
                &&& r.status == 416
                &&& r.body == BodyView::Bytes(Seq::empty())
                &&& tells(r, "Content-Range"@, "bytes */"@ + text::decimal(data.len()))
            }
        }),
{
    lemma_header_names();
    let whole = response_of(file_payload(None, data)).headers;
    assert(whole[0].0 == "Content-Type"@ && whole[1].0 == "Accept-Ranges"@ && whole.len() == 2);
    let r = response_of(file_payload(Some(start), data));
    let h = r.headers;
    assert(h[0].0 == "Content-Type"@ && h[1].0 == "Accept-Ranges"@ && h.len() == 3);
    assert(h[2].0 == "Content-Range"@);
    if start < data.len() {
        let from = text::decimal(start as nat);
        let to = text::decimal((data.len() - 1) as nat);
        let size = text::decimal(data.len());
        text::law_numbers_are_read_back(start as nat, start as nat, u64::MAX as int);
        text::law_numbers_are_read_back(
            (data.len() - 1) as nat,
            (data.len() - 1) as nat,
            data.len() as int,
        );
        text::law_numbers_are_read_back(data.len(), data.len(), data.len() as int);
        assert(h[2] == ("Content-Range"@, range_text(from, to, size)));
        assert(h.contains(("Content-Range"@, range_text(from, to, size))));
    } else {
        assert(h[2] == ("Content-Range"@, "bytes */"@ + text::decimal(data.len())));
    }
}

/// A range of bytes with its size, as the header writes it.
pub open spec fn range_text(from: Seq<char>, to: Seq<char>, size: Seq<char>) -> Seq<char> {
    "bytes "@ + from + "-"@ + to + "/"@ + size
}

/// A request for deltas is taken exactly where it takes protobuf and names a time after
/// zero, and the deltas are those from that time on.
pub proof fn law_delta_requests_name_a_time(supports_proto: bool, since_time: Option<u64>, t: u64)
    ensures
        direct_delta_request(supports_proto, since_time) == Ok::<u64, DeltaPayloadError>(t)
            <==> supports_proto && since_time == Some(t) && t > 0,
        direct_delta_request(supports_proto, since_time) is Err ==> {
            &&& direct_delta_request(supports_proto, since_time)->Err_0.status() == 400
            &&& direct_delta_request(supports_proto, since_time)
                == Err::<u64, DeltaPayloadError>(DeltaPayloadError::SupportsProtoRequired)
                <==> !supports_proto
            &&& direct_delta_request(supports_proto, since_time)
                == Err::<u64, DeltaPayloadError>(DeltaPayloadError::MissingSinceTime)
                <==> supports_proto && since_time is None
            &&& direct_delta_request(supports_proto, since_time)
                == Err::<u64, DeltaPayloadError>(DeltaPayloadError::ZeroSinceTime)
                <==> supports_proto && since_time == Some(0u64)
        },
{
}

/// A client whose request is wrong is told so with 400, one that has to fetch the whole
/// specs first with 409, and one that the proxy cannot serve with a status above 499.
pub proof fn law_delta_errors_have_their_status(e: DeltaPayloadError)
    ensures
        e.status() == 400 <==> e is SupportsProtoRequired || e is MissingSinceTime
            || e is ZeroSinceTime,
        e.status() == 409 <==> e is SdkKeyNotRegistered || e is NoCachedDeltas
            || e is SinceTimeTooOld,
        e.status() >= 500 <==> e is DeltasDisabled || e is UnsupportedPath
            || e is SerializationFailed,
        e.status() == 503 <==> e is DeltasDisabled,
        e.status() == 400 || e.status() == 409 || e.status() == 500 || e.status() == 503,
{
}

/// Deltas are answered exactly where they could be built or are known to be none. Each
/// reason for which they could not is answered as what it is.
pub proof fn law_built_deltas_are_answered(
    built: deltas_store::BuildView,
    since_time: u64,
    encodings: Seq<CompressionEncoder>,
    no_update: http_data_provider::PayloadView,
)
    ensures
        ({
            let answer = delta_answer(built, since_time, encodings, no_update);
            &&& answer is Ok <==> built is NoUpdates || built is Combined
            &&& answer is Err && answer->Err_0 is SdkKeyNotRegistered
                <==> built is SdkKeyNotRegistered
            &&& answer is Err && answer->Err_0 is NoCachedDeltas <==> built is NoCachedDeltas
            &&& answer is Err && answer->Err_0 is SerializationFailed
                <==> built is SerializationFailed
            &&& built matches deltas_store::BuildView::SinceTimeTooOld(earliest) ==> answer == Err::<
                PayloadsView,
                DeltaPayloadError,
            >(DeltaPayloadError::SinceTimeTooOld { since_time, earliest_since_time: earliest })
            &&& built matches deltas_store::BuildView::NoUpdates(lcut) ==> {
                &&& response_of(answer->Ok_0).status == 200
                &&& response_of(answer->Ok_0).body == BodyView::Bytes(no_update.data)
                &&& tells(response_of(answer->Ok_0), "x-since-time"@, text::decimal(lcut as nat))
                &&& tells(response_of(answer->Ok_0), "x-deltas-used"@, "true"@)
            }
            &&& built matches deltas_store::BuildView::Combined(lcut, payload) ==> {
                &&& response_of(answer->Ok_0).status == 200
                &&& tells(response_of(answer->Ok_0), "x-since-time"@, text::decimal(lcut as nat))
                &&& tells(response_of(answer->Ok_0), "x-deltas-used"@, "true"@)
                &&& response_compression::compressed(
                    payload,
                    response_compression::preferred(encodings),
                ) matches Some(body) ==> response_of(answer->Ok_0).body == BodyView::Bytes(body)
                &&& response_compression::preferred(encodings) == CompressionEncoder::PlainText
                    ==> response_of(answer->Ok_0).body == BodyView::Bytes(payload)
            }
        }),
{
    match built {
        deltas_store::BuildView::NoUpdates(lcut) => {
            law_stored_payloads_are_answered(no_update, lcut, true);
        },
        deltas_store::BuildView::Combined(lcut, payload) => {
            law_stored_payloads_are_answered(no_update, lcut, true);
            let encoding = response_compression::preferred(encodings);
            if let Some(body) = response_compression::compressed(payload, encoding) {
                law_stored_payloads_are_answered(
                    http_data_provider::PayloadView { encoding, use_proto: true, data: body },
                    lcut,
                    true,
                );
            }
        },
        _ => {},
    }
}

/// Deltas are refused where they are switched off, on any other path than those of the
/// second version, and where the client takes no protobuf, in this order. Nothing else
/// keeps what was built from being answered.
pub proof fn law_deltas_are_refused_for_cause(
    enabled: bool,
    store: DeltasStore,
    sdk_keys: SdkKeyStore,
    c: authorized_request_context::ContextView,
    since_time: u64,
    no_update: http_data_provider::PayloadView,
)
    ensures
        ({
            let r = delta_payload(enabled, store, sdk_keys, c, since_time, no_update);
            let on_path = c.path is V2DownloadConfigSpecs || c.path is V2DownloadConfigSpecsDeltas;
            &&& r is Err && r->Err_0 is DeltasDisabled <==> !enabled
            &&& r is Err && r->Err_0 is UnsupportedPath <==> enabled && !on_path
            &&& r is Err && r->Err_0 is SupportsProtoRequired <==> enabled && on_path
                && !c.supports_proto
            &&& enabled && on_path && c.supports_proto ==> r == delta_answer(
                deltas_store::build_result(
                    sdk_keys.lcuts().contains_key(
                        sdk_key_store::context_key(deltas_store::delta_context(c)),
                    ),
                    store.of_key(c.sdk_key),
                    since_time,
                ),
                since_time,
                c.encodings,
                no_update,
            )
        }),
{
}

/// A request for deltas that is not taken is answered with its own error, one that is
/// taken without a store with 503, and any other with what was built for it.
pub proof fn law_delta_answers_tell_what_failed(
    validated: Result<u64, DeltaPayloadError>,
    built: Option<Result<PayloadsView, DeltaPayloadError>>,
)
    ensures
        validated matches Err(e) ==> response_of(deltas_response(validated, built)).status
            == e.status() && response_of(deltas_response(validated, built)).body == BodyView::Text(
            e.text(),
        ),
        validated is Ok && built is None ==> response_of(deltas_response(validated, built)).status
            == 503,
        validated is Ok && built is Some ==> match built->0 {
            Ok(p) => deltas_response(validated, built) == p,
            Err(e) => response_of(deltas_response(validated, built)).status == e.status()
                && response_of(deltas_response(validated, built)).body == BodyView::Text(e.text()),
        },
{
}

} // verus!
