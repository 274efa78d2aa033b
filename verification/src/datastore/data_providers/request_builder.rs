//! The requests that go to the upstream.

use crate::clock;
use crate::clock::{Duration, Instant};
use crate::codecs;
use crate::datastore::data_providers::dcs_blob_url_generator;
use crate::datastore::data_providers::dcs_blob_url_generator::{
    DcsBlobUrlGenerator, DcsBlobVersion,
};
use crate::datastore::sdk_key_store;
use crate::keyed_store;
use crate::keyed_store::KeyedStore;
use crate::observers;
use crate::observers::{EventStat, OperationType, ProxyEvent, ProxyEventType};
use crate::servers::authorized_request_context;
use crate::servers::authorized_request_context::AuthorizedRequestContext;
use crate::servers::http_server;
use crate::servers::normalized_path;
use crate::servers::normalized_path::NormalizedPath;
use crate::servers::sdk_key_normalizer;
use crate::text;
use crate::utils::compress_encoder;
use crate::utils::compress_encoder::CompressionEncoder;
use std::sync::Arc;
use vstd::prelude::*;

verus! {

broadcast use crate::clock::group_time;

#[derive(Clone, Copy, Debug, PartialEq, Eq, Structural)]
pub enum RequestMethod {
    Get,
    Head,
    Post,
}

/// A request to the upstream. It has no timeout of its own.
#[derive(Debug, PartialEq)]
pub struct UpstreamRequest {
    pub method: RequestMethod,
    pub url: String,
    pub query: Vec<(String, String)>,
    pub headers: Vec<(String, String)>,
    pub body: Option<String>,
}

/// The model of a request.
pub struct UpstreamView {
    pub method: RequestMethod,
    pub url: Seq<char>,
    pub query: Seq<(Seq<char>, Seq<char>)>,
    pub headers: Seq<(Seq<char>, Seq<char>)>,
    pub body: Option<Seq<char>>,
}

impl View for UpstreamRequest {
    type V = UpstreamView;

    open spec fn view(&self) -> UpstreamView {
        UpstreamView {
            method: self.method,
            url: self.url@,
            query: text::pair_texts(self.query@),
            headers: text::pair_texts(self.headers@),
            body: text::text_option(self.body),
        }
    }
}

/// The `Accept-Encoding` that is sent for some encodings, where any of them
/// changes a body.
pub open spec fn outbound_encodings(encodings: Seq<CompressionEncoder>) -> Option<Seq<char>> {
    if exists|i: int|
        0 <= i < encodings.len() && #[trigger] encodings[i] != CompressionEncoder::PlainText {
        Some(text::join_spec(compress_encoder::names(encodings), ","@))
    } else {
        None
    }
}

pub fn maybe_outbound_accept_encoding(encodings: &[CompressionEncoder]) -> (r: Option<String>)
    ensures
        text::text_option(r) == outbound_encodings(encodings@),
{
    let mut changes = false;
    let mut i: usize = 0;
    while i < encodings.len()
        invariant
            i <= encodings@.len(),
            changes == exists|j: int|
                0 <= j < i && #[trigger] encodings@[j] != CompressionEncoder::PlainText,
        decreases encodings@.len() - i,
    {
        if encodings[i] != CompressionEncoder::PlainText {
            changes = true;
        }
        i += 1;
    }
    if !changes {
        return None;
    }
    Some(compress_encoder::format_compression_encodings(encodings))
}

/// The URL of the lists of ids.
pub open spec fn idlist_url(base_url: Seq<char>) -> Seq<char> {
    text::trim_end_char(base_url, '/') + "/v1/get_id_lists"@
}

pub fn build_idlist_url(base_url: &str) -> (r: String)
    ensures
        r@ == idlist_url(base_url@),
{
    let mut r = text::trim_end_matches(base_url, '/').to_owned();
    r.append("/v1/get_id_lists");
    r
}

fn push_pair(pairs: &mut Vec<(String, String)>, name: &str, value: &str)
    ensures
        text::pair_texts(final(pairs)@) == text::pair_texts(old(pairs)@).push(
            (name@, value@),
        ),
{
    pairs.push((name.to_owned(), value.to_owned()));
    assert(text::pair_texts(pairs@) =~= text::pair_texts(old(pairs)@).push(
        (name@, value@),
    ));
}

fn no_pairs() -> (r: Vec<(String, String)>)
    ensures
        text::pair_texts(r@) == Seq::<(Seq<char>, Seq<char>)>::empty(),
{
    let r: Vec<(String, String)> = Vec::new();
    assert(text::pair_texts(r@) =~= Seq::<(Seq<char>, Seq<char>)>::empty());
    r
}

/// What makes no requests.
pub struct NoopRequestBuilder {}

impl NoopRequestBuilder {
    pub fn should_make_request(&self, _rc: &AuthorizedRequestContext) -> (r: bool)
        ensures
            !r,
    {
        false
    }
}

/// Which builder makes the requests for each path, by the numbers of the builders.
pub open spec fn builders_of(entries: Seq<(NormalizedPath, usize)>) -> Map<
    normalized_path::PathView,
    usize,
>
    decreases entries.len(),
{
    if entries.len() == 0 {
        Map::empty()
    } else {
        builders_of(entries.drop_last()).insert(entries.last().0@, entries.last().1)
    }
}

/// The builders of requests, by path.
pub struct CachedRequestBuilders {
    builders: Vec<(NormalizedPath, usize)>,
}

impl View for CachedRequestBuilders {
    type V = Map<normalized_path::PathView, usize>;

    closed spec fn view(&self) -> Map<normalized_path::PathView, usize> {
        builders_of(self.builders@)
    }
}

impl CachedRequestBuilders {
    pub fn new() -> (r: Self)
        ensures
            r@ == Map::<normalized_path::PathView, usize>::empty(),
    {
        CachedRequestBuilders { builders: Vec::new() }
    }

    /// Sets the builder of a path.
    pub fn add_request_builder(&mut self, path: NormalizedPath, request_builder: usize)
        ensures
            final(self)@ == old(self)@.insert(path@, request_builder),
    {
        let ghost before = self.builders@;
        self.builders.push((path, request_builder));
        assert(self.builders@.drop_last() =~= before);
    }

    /// The builder of a path. A path without one makes no requests.
    pub fn get_request_builder(&self, path: &NormalizedPath) -> (r: Option<usize>)
        ensures
            r == self@.get(path@),
    {
        let mut i: usize = self.builders.len();
        assert(self.builders@.take(i as int) =~= self.builders@);
        while i > 0
            invariant
                i <= self.builders@.len(),
                self@.get(path@) == builders_of(self.builders@.take(i as int)).get(path@),
            decreases i,
        {
            assert(self.builders@.take(i as int).drop_last() =~= self.builders@.take(i - 1));
            if self.builders[i - 1].0 == *path {
                return Some(self.builders[i - 1].1);
            }
            i -= 1;
        }
        None
    }
}

/// Where the specs of a company lie in blob storage.
#[derive(Debug)]
pub struct DcsBlobConfig {
    pub url_generator: DcsBlobUrlGenerator,
    pub company_id: String,
}

/// Makes the requests for specs.
#[derive(Debug)]
pub struct DcsRequestBuilder {
    pub base_url: String,
    /// The version of the proxy, which each request tells.
    pub sfp_version: String,
    pub dcs_blob_config: Option<DcsBlobConfig>,
}

/// The header with the accepted encodings, where there is one.
pub open spec fn accept_header(encodings: Seq<CompressionEncoder>) -> Seq<(Seq<char>, Seq<char>)> {
    match outbound_encodings(encodings) {
        Some(value) => seq![("Accept-Encoding"@, value)],
        None => Seq::empty(),
    }
}

/// The request for specs to the content network.
pub open spec fn cdn_request(
    base_url: Seq<char>,
    sfp_version: Seq<char>,
    c: authorized_request_context::ContextView,
    lcut: u64,
) -> UpstreamView {
    UpstreamView {
        method: RequestMethod::Get,
        url: base_url + normalized_path::path_text(c.path) + c.sdk_key + ".json"@,
        query: (if lcut > 0 {
            seq![("sinceTime"@, text::decimal(lcut as nat))]
        } else {
            Seq::empty()
        }) + (if c.supports_proto {
            seq![("supports_proto"@, "true"@)]
        } else {
            Seq::empty()
        }),
        headers: (if c.supports_proto {
            seq![("statsig-supports-proto"@, "true"@)]
        } else {
            Seq::empty()
        }) + seq![("x-sfp-version"@, sfp_version)] + accept_header(c.encodings),
        body: None,
    }
}

/// The request for specs to blob storage.
pub open spec fn blob_request(
    url: Seq<char>,
    sfp_version: Seq<char>,
    c: authorized_request_context::ContextView,
) -> UpstreamView {
    UpstreamView {
        method: RequestMethod::Get,
        url,
        query: Seq::empty(),
        headers: seq![("x-sfp-version"@, sfp_version)] + accept_header(c.encodings),
        body: None,
    }
}

/// The request for how old the specs in blob storage are.
pub open spec fn metadata_request(url: Seq<char>, sfp_version: Seq<char>) -> UpstreamView {
    UpstreamView {
        method: RequestMethod::Head,
        url,
        query: Seq::empty(),
        headers: seq![("x-sfp-version"@, sfp_version)],
        body: None,
    }
}

/// Which blob holds the specs of an endpoint, where one does.
pub open spec fn blob_version(path: normalized_path::PathView) -> Option<DcsBlobVersion> {
    match path {
        normalized_path::PathView::V1DownloadConfigSpecs => Some(DcsBlobVersion::V1),
        normalized_path::PathView::V2DownloadConfigSpecs => Some(DcsBlobVersion::V2),
        _ => None,
    }
}

fn blob_version_of(path: &NormalizedPath) -> (r: Option<DcsBlobVersion>)
    ensures
        r == blob_version(path@),
{
    match path {
        NormalizedPath::V1DownloadConfigSpecs => Some(DcsBlobVersion::V1),
        NormalizedPath::V2DownloadConfigSpecs => Some(DcsBlobVersion::V2),
        _ => None,
    }
}

/// Whether specs in blob storage are no newer than those at hand.
pub open spec fn skips_blob(current_lcut: u64, blob_lcut: u64) -> bool {
    current_lcut > 0 && blob_lcut <= current_lcut
}

/// What came of asking how old the specs in blob storage are.
#[derive(Debug)]
pub struct MetadataReply {
    pub status: u16,
    /// The `x-ms-meta-lcut` header, where it is text.
    pub x_ms_meta_lcut: Option<String>,
}

/// The time that the metadata tells.
pub open spec fn metadata_lcut(header: Option<Seq<char>>) -> Option<u64> {
    match header {
        Some(value) => match text::parse_unsigned(value, u64::MAX as int) {
            Some(n) => Some(n as u64),
            None => None,
        },
        None => None,
    }
}

/// Whether the metadata tells that there is nothing newer.
pub open spec fn metadata_skips(reply: Option<MetadataReply>, lcut: u64) -> bool {
    match reply {
        Some(m) => 200 <= m.status <= 299 && match metadata_lcut(
            text::text_option(m.x_ms_meta_lcut),
        ) {
            Some(blob_lcut) => skips_blob(lcut, blob_lcut),
            None => false,
        },
        None => false,
    }
}

/// Where specs were fetched from.
#[derive(Clone, Copy, Debug, PartialEq, Eq, Structural)]
pub enum DcsSource {
    Blob,
    Cdn,
    CdnFallback,
}

impl DcsSource {
    pub open spec fn name(self) -> Seq<char> {
        match self {
            DcsSource::Blob => "blob"@,
            DcsSource::Cdn => "cdn"@,
            DcsSource::CdnFallback => "cdn_fallback"@,
        }
    }

    pub fn to_str(&self) -> (r: &'static str)
        ensures
            r@ == self.name(),
    {
        match self {
            DcsSource::Blob => "blob",
            DcsSource::Cdn => "cdn",
            DcsSource::CdnFallback => "cdn_fallback",
        }
    }
}

/// The event that tells where specs were fetched from.
pub open spec fn fetch_source_event(
    c: authorized_request_context::ContextView,
    source: Seq<char>,
    status_code: u16,
) -> observers::EventView {
    observers::EventView {
        status_code: Some(status_code),
        service: Some(source),
        ..observers::counted_event(ProxyEventType::DcsFetchSource, c, None)
    }
}

/// What is done next to fetch specs.
#[derive(Debug)]
pub enum DcsStep {
    /// Ask how old the specs in blob storage are.
    AskMetadata { request: UpstreamRequest },
    /// Fetch the specs from blob storage or the content network.
    Fetch { request: UpstreamRequest, source: DcsSource },
    /// There is nothing newer.
    NoDataAvailable { status_code: u16 },
    /// Hand on the response that came last.
    Deliver { event: ProxyEvent },
}

/// The model of what is done next.
pub enum DcsStepView {
    AskMetadata(UpstreamView),
    Fetch(UpstreamView, DcsSource),
    NoDataAvailable(u16),
    Deliver(observers::EventView),
}

impl View for DcsStep {
    type V = DcsStepView;

    open spec fn view(&self) -> DcsStepView {
        match self {
            DcsStep::AskMetadata { request } => DcsStepView::AskMetadata(request@),
            DcsStep::Fetch { request, source } => DcsStepView::Fetch(request@, *source),
            DcsStep::NoDataAvailable { status_code } => DcsStepView::NoDataAvailable(*status_code),
            DcsStep::Deliver { event } => DcsStepView::Deliver(event@),
        }
    }
}

/// The fetch itself: from blob storage where there is a URL for it.
pub open spec fn fetch_step(
    base_url: Seq<char>,
    sfp_version: Seq<char>,
    c: authorized_request_context::ContextView,
    lcut: u64,
    blob_url: Option<Seq<char>>,
) -> DcsStepView {
    match blob_url {
        Some(url) => DcsStepView::Fetch(blob_request(url, sfp_version, c), DcsSource::Blob),
        None => DcsStepView::Fetch(cdn_request(base_url, sfp_version, c, lcut), DcsSource::Cdn),
    }
}

/// The first step: what has specs asks first whether there are newer ones.
pub open spec fn first_step(
    base_url: Seq<char>,
    sfp_version: Seq<char>,
    c: authorized_request_context::ContextView,
    lcut: u64,
    blob_url: Option<Seq<char>>,
) -> DcsStepView {
    match blob_url {
        Some(url) => if c.use_lcut && lcut > 0 {
            DcsStepView::AskMetadata(metadata_request(url, sfp_version))
        } else {
            fetch_step(base_url, sfp_version, c, lcut, blob_url)
        },
        None => fetch_step(base_url, sfp_version, c, lcut, blob_url),
    }
}

/// What follows a response: the content network where blob storage lacks the
/// specs, and only then.
pub open spec fn step_after_response(
    base_url: Seq<char>,
    sfp_version: Seq<char>,
    c: authorized_request_context::ContextView,
    lcut: u64,
    source: DcsSource,
    status: u16,
) -> DcsStepView {
    if source == DcsSource::Blob && status == 404 {
        DcsStepView::Fetch(cdn_request(base_url, sfp_version, c, lcut), DcsSource::CdnFallback)
    } else {
        DcsStepView::Deliver(fetch_source_event(c, source.name(), status))
    }
}

impl DcsRequestBuilder {
    pub fn new(
        base_url: String,
        sfp_version: String,
        dcs_blob_config: Option<DcsBlobConfig>,
    ) -> (r: DcsRequestBuilder)
        ensures
            r.base_url@ == base_url@,
            r.sfp_version@ == sfp_version@,
            r.dcs_blob_config == dcs_blob_config,
    {
        DcsRequestBuilder { base_url, sfp_version, dcs_blob_config }
    }

    /// The signed URL of the specs in blob storage.
    pub open spec fn signed_url(
        &self,
        c: authorized_request_context::ContextView,
        now: i64,
    ) -> Option<Seq<char>> {
        match (blob_version(c.path), self.dcs_blob_config) {
            (Some(version), Some(config)) => if dcs_blob_url_generator::can_sign_with(
                config.url_generator.source(),
            ) && dcs_blob_url_generator::EARLIEST_EXPIRY <= now
                + dcs_blob_url_generator::SIGNED_URL_TTL_SECONDS
                <= dcs_blob_url_generator::LATEST_EXPIRY {
                match dcs_blob_url_generator::download_url(
                    dcs_blob_url_generator::signed_blob_url(
                        config.url_generator.source(),
                        version.container(),
                        dcs_blob_url_generator::blob_name(config.company_id@, c.sdk_key),
                        true,
                        (now + dcs_blob_url_generator::SIGNED_URL_TTL_SECONDS) as i64,
                    ),
                ) {
                    Ok(url) => Some(url),
                    Err(_) => None,
                }
            } else {
                None
            },
            _ => None,
        }
    }

    /// The signed URL of the specs in blob storage, at a time in seconds since
    /// 1970; nothing where none can be made.
    pub fn blob_url(&self, request_context: &AuthorizedRequestContext, now: i64) -> (r: Option<
        String,
    >)
        ensures
            text::text_option(r) == self.signed_url(request_context@, now),
    {
        let version = match blob_version_of(&request_context.path) {
            Some(version) => version,
            None => {
                return None;
            },
        };
        match &self.dcs_blob_config {
            Some(config) => match config.url_generator.try_build_download_url(
                version,
                config.company_id.as_str(),
                request_context.sdk_key.as_str(),
                now,
            ) {
                Some(Ok(url)) => Some(url),
                _ => None,
            },
            None => None,
        }
    }

    pub fn build_cdn_request(&self, request_context: &AuthorizedRequestContext, lcut: u64) -> (r:
        UpstreamRequest)
        ensures
            r@ == cdn_request(self.base_url@, self.sfp_version@, request_context@, lcut),
    {
        let mut url = self.base_url.clone();
        url.append(request_context.path.as_str());
        url.append(request_context.sdk_key.as_str());
        url.append(".json");
        let mut query = no_pairs();
        let mut headers = no_pairs();
        if lcut > 0 {
            let since = text::decimal_string(lcut);
            push_pair(&mut query, "sinceTime", since.as_str());
        }
        if request_context.supports_proto {
            push_pair(&mut query, "supports_proto", "true");
            push_pair(&mut headers, "statsig-supports-proto", "true");
        }
        push_pair(&mut headers, "x-sfp-version", self.sfp_version.as_str());
        if let Some(value) = maybe_outbound_accept_encoding(request_context.encodings.as_slice()) {
            push_pair(&mut headers, "Accept-Encoding", value.as_str());
        }
        let r = UpstreamRequest { method: RequestMethod::Get, url, query, headers, body: None };
        proof {
            let v = cdn_request(self.base_url@, self.sfp_version@, request_context@, lcut);
            assert(r@.query =~= v.query);
            assert(r@.headers =~= v.headers);
        }
        r
    }

    pub fn build_blob_body_request(
        &self,
        request_context: &AuthorizedRequestContext,
        blob_url: String,
    ) -> (r: UpstreamRequest)
        ensures
            r@ == blob_request(blob_url@, self.sfp_version@, request_context@),
    {
        let query = no_pairs();
        let mut headers = no_pairs();
        push_pair(&mut headers, "x-sfp-version", self.sfp_version.as_str());
        if let Some(value) = maybe_outbound_accept_encoding(request_context.encodings.as_slice()) {
            push_pair(&mut headers, "Accept-Encoding", value.as_str());
        }
        let r = UpstreamRequest {
            method: RequestMethod::Get,
            url: blob_url,
            query,
            headers,
            body: None,
        };
        proof {
            let v = blob_request(blob_url@, self.sfp_version@, request_context@);
            assert(r@.query =~= v.query);
            assert(r@.headers =~= v.headers);
        }
        r
    }

    pub fn build_blob_metadata_request(&self, blob_url: String) -> (r: UpstreamRequest)
        ensures
            r@ == metadata_request(blob_url@, self.sfp_version@),
    {
        let query = no_pairs();
        let mut headers = no_pairs();
        push_pair(&mut headers, "x-sfp-version", self.sfp_version.as_str());
        let r = UpstreamRequest {
            method: RequestMethod::Head,
            url: blob_url,
            query,
            headers,
            body: None,
        };
        proof {
            let v = metadata_request(blob_url@, self.sfp_version@);
            assert(r@.query =~= v.query);
            assert(r@.headers =~= v.headers);
        }
        r
    }

    /// The request for specs, to blob storage where there is a URL for it.
    pub fn build_request(
        &self,
        request_context: &AuthorizedRequestContext,
        lcut: u64,
        blob_url: Option<String>,
    ) -> (r: UpstreamRequest)
        ensures
            r@ == (match text::text_option(blob_url) {
                Some(url) => blob_request(url, self.sfp_version@, request_context@),
                None => cdn_request(self.base_url@, self.sfp_version@, request_context@, lcut),
            }),
    {
        match blob_url {
            Some(url) => self.build_blob_body_request(request_context, url),
            None => self.build_cdn_request(request_context, lcut),
        }
    }

    pub fn parse_blob_metadata_lcut(header: &Option<String>) -> (r: Option<u64>)
        ensures
            r == metadata_lcut(text::text_option(*header)),
    {
        match header {
            Some(value) => text::parse_u64(value.as_str()),
            None => None,
        }
    }

    pub fn should_skip_blob_download(current_lcut: u64, blob_lcut: u64) -> (r: bool)
        ensures
            r == skips_blob(current_lcut, blob_lcut),
    {
        current_lcut > 0 && blob_lcut <= current_lcut
    }

    pub fn should_fallback_to_cdn(status: u16) -> (r: bool)
        ensures
            r == (status == 404),
    {
        status == 404
    }

    /// Whether the metadata tells that there is nothing newer. A reply that does
    /// not tell, or none at all, means that the specs are fetched.
    pub fn should_skip_download_using_metadata(reply: &Option<MetadataReply>, lcut: u64) -> (r:
        bool)
        ensures
            r == metadata_skips(*reply, lcut),
    {
        match reply {
            Some(m) => {
                if m.status < 200 || m.status > 299 {
                    return false;
                }
                match Self::parse_blob_metadata_lcut(&m.x_ms_meta_lcut) {
                    Some(blob_lcut) => Self::should_skip_blob_download(lcut, blob_lcut),
                    None => false,
                }
            },
            None => false,
        }
    }

    /// The event that tells where specs were fetched from.
    pub fn dcs_fetch_source_event(
        request_context: &Arc<AuthorizedRequestContext>,
        source: &str,
        status_code: u16,
    ) -> (r: ProxyEvent)
        ensures
            r@ == fetch_source_event(request_context@, source@, status_code),
    {
        ProxyEvent::new_with_rc(ProxyEventType::DcsFetchSource, request_context).with_status_code(
            status_code,
        ).with_service(source.to_owned()).with_stat(
            EventStat { operation_type: OperationType::IncrByValue, value: 1 },
        )
    }

    /// The first step of a fetch.
    pub fn start(
        &self,
        request_context: &AuthorizedRequestContext,
        lcut: u64,
        blob_url: Option<String>,
    ) -> (r: DcsStep)
        ensures
            r@ == first_step(
                self.base_url@,
                self.sfp_version@,
                request_context@,
                lcut,
                text::text_option(blob_url),
            ),
    {
        match blob_url {
            Some(url) => if request_context.use_lcut && lcut > 0 {
                DcsStep::AskMetadata { request: self.build_blob_metadata_request(url) }
            } else {
                self.fetch(request_context, lcut, Some(url))
            },
            None => self.fetch(request_context, lcut, None),
        }
    }

    /// The fetch itself.
    pub fn fetch(
        &self,
        request_context: &AuthorizedRequestContext,
        lcut: u64,
        blob_url: Option<String>,
    ) -> (r: DcsStep)
        ensures
            r@ == fetch_step(
                self.base_url@,
                self.sfp_version@,
                request_context@,
                lcut,
                text::text_option(blob_url),
            ),
    {
        match blob_url {
            Some(url) => DcsStep::Fetch {
                request: self.build_blob_body_request(request_context, url),
                source: DcsSource::Blob,
            },
            None => DcsStep::Fetch {
                request: self.build_cdn_request(request_context, lcut),
                source: DcsSource::Cdn,
            },
        }
    }

    /// What follows the metadata.
    pub fn after_metadata(
        &self,
        request_context: &AuthorizedRequestContext,
        lcut: u64,
        reply: &Option<MetadataReply>,
        blob_url: Option<String>,
    ) -> (r: DcsStep)
        ensures
            r@ is NoDataAvailable <==> metadata_skips(*reply, lcut),
            r@ == (if metadata_skips(*reply, lcut) {
                DcsStepView::NoDataAvailable(204)
            } else {
                fetch_step(
                    self.base_url@,
                    self.sfp_version@,
                    request_context@,
                    lcut,
                    text::text_option(blob_url),
                )
            }),
    {
        if Self::should_skip_download_using_metadata(reply, lcut) {
            DcsStep::NoDataAvailable { status_code: 204 }
        } else {
            self.fetch(request_context, lcut, blob_url)
        }
    }

    /// What follows a response.
    pub fn after_response(
        &self,
        request_context: &Arc<AuthorizedRequestContext>,
        lcut: u64,
        source: DcsSource,
        status: u16,
    ) -> (r: DcsStep)
        ensures
            r@ == step_after_response(
                self.base_url@,
                self.sfp_version@,
                request_context@,
                lcut,
                source,
                status,
            ),
    {
        if source == DcsSource::Blob && Self::should_fallback_to_cdn(status) {
            DcsStep::Fetch {
                request: self.build_cdn_request(request_context, lcut),
                source: DcsSource::CdnFallback,
            }
        } else {
            DcsStep::Deliver {
                event: Self::dcs_fetch_source_event(request_context, source.to_str(), status),
            }
        }
    }

    /// Whether a response brings something new: unless its `x-cache-hit` header
    /// says otherwise.
    pub fn is_an_update(x_cache_hit: &Option<String>) -> (r: bool)
        ensures
            r == (match text::text_option(*x_cache_hit) {
                Some(value) => value == "false"@,
                None => true,
            }),
            r == tells_update(text::text_option(*x_cache_hit)),
    {
        match x_cache_hit {
            Some(value) => text::same_text(value.as_str(), "false"),
            None => true,
        }
    }

    pub fn should_make_request(&self, _rc: &AuthorizedRequestContext) -> (r: bool)
        ensures
            r,
    {
        true
    }
}

/// A fetch ends after at most three requests: the steps that follow the content
/// network hand its response on.
pub proof fn law_fetches_end(
    base_url: Seq<char>,
    sfp_version: Seq<char>,
    c: authorized_request_context::ContextView,
    lcut: u64,
    source: DcsSource,
    status: u16,
)
    ensures
        source != DcsSource::Blob ==> step_after_response(
            base_url,
            sfp_version,
            c,
            lcut,
            source,
            status,
        ) is Deliver,
        step_after_response(base_url, sfp_version, c, lcut, source, status) is Fetch ==> (
        step_after_response(base_url, sfp_version, c, lcut, source, status)->Fetch_1
            == DcsSource::CdnFallback),
{
}

/// A fetch is never skipped where there is nothing at hand yet.
pub proof fn law_first_fetches_are_not_skipped(reply: Option<MetadataReply>)
    ensures
        !metadata_skips(reply, 0),
{
}

/// Makes the requests for files of ids.
#[derive(Debug)]
pub struct IdListFileRequestBuilder {
    pub base_url: String,
    /// The version of the proxy, which each request tells.
    pub sfp_version: String,
}

/// The request for a file of ids. A range from the start asks for a full refresh
/// and is told; other ranges are not, since whole bodies are stored.
pub open spec fn file_request(
    base_url: Seq<char>,
    sfp_version: Seq<char>,
    c: authorized_request_context::ContextView,
) -> UpstreamView {
    UpstreamView {
        method: RequestMethod::Get,
        url: base_url + (match c.raw_path {
            Some(p) => p,
            None => normalized_path::path_text(c.path),
        }) + (match c.raw_query {
            Some(q) => "?"@ + q,
            None => Seq::empty(),
        }),
        query: Seq::empty(),
        headers: seq![("x-sfp-version"@, sfp_version)] + (if c.range_start == Some(0u64) {
            seq![("Range"@, "bytes=0-"@)]
        } else {
            Seq::empty()
        }) + (match c.id_list_size {
            Some(n) => seq![("statsig-id-list-file-size"@, text::decimal(n as nat))],
            None => Seq::empty(),
        }),
        body: None,
    }
}

impl IdListFileRequestBuilder {
    pub fn new(base_url: String, sfp_version: String) -> (r: Self)
        ensures
            r.base_url@ == base_url@,
            r.sfp_version@ == sfp_version@,
    {
        IdListFileRequestBuilder { base_url, sfp_version }
    }

    pub fn build_request(&self, request_context: &AuthorizedRequestContext) -> (r: UpstreamRequest)
        ensures
            r@ == file_request(self.base_url@, self.sfp_version@, request_context@),
    {
        let mut url = self.base_url.clone();
        match &request_context.raw_path {
            Some(p) => url.append(p.as_str()),
            None => url.append(request_context.path.as_str()),
        }
        if let Some(q) = &request_context.raw_query {
            url.append("?");
            url.append(q.as_str());
        }
        let query = no_pairs();
        let mut headers = no_pairs();
        push_pair(&mut headers, "x-sfp-version", self.sfp_version.as_str());
        if request_context.range_start == Some(0u64) {
            push_pair(&mut headers, "Range", "bytes=0-");
        }
        if let Some(n) = request_context.id_list_size {
            let size = text::decimal_string(n);
            push_pair(&mut headers, "statsig-id-list-file-size", size.as_str());
        }
        let r = UpstreamRequest { method: RequestMethod::Get, url, query, headers, body: None };
        proof {
            let v = file_request(self.base_url@, self.sfp_version@, request_context@);
            assert(r@.url =~= v.url);
            assert(r@.query =~= v.query);
            assert(r@.headers =~= v.headers);
        }
        r
    }

    /// Every file brings something new.
    pub fn is_an_update(&self) -> (r: bool)
        ensures
            r,
    {
        true
    }

    pub fn should_make_request(&self, _rc: &AuthorizedRequestContext) -> (r: bool)
        ensures
            r,
    {
        true
    }
}

/// Makes the requests for lists of ids, no more than one a minute for each
/// context, and tells new responses from old ones.
pub struct IdlistRequestBuilder {
    base_url: String,
    sfp_version: String,
    last_request_by_key: KeyedStore<Instant>,
    last_response_hash: KeyedStore<Vec<u8>>,
}

/// The request for the lists of ids.
pub open spec fn idlists_request(
    base_url: Seq<char>,
    sfp_version: Seq<char>,
    c: authorized_request_context::ContextView,
) -> UpstreamView {
    UpstreamView {
        method: RequestMethod::Post,
        url: idlist_url(base_url),
        query: Seq::empty(),
        headers: seq![("x-sfp-version"@, sfp_version), ("statsig-api-key"@, c.sdk_key)] + (
        if c.encodings.contains(CompressionEncoder::Gzip) {
            seq![("Accept-Encoding"@, "gzip"@)]
        } else {
            Seq::empty()
        }),
        body: Some("{}"@),
    }
}

/// Whether a request may be made: where none was made in the last minute.
pub open spec fn is_due(
    m: Map<keyed_store::KeyView, Instant>,
    k: keyed_store::KeyView,
    now: Instant,
) -> bool {
    !m.contains_key(k) || clock::max(now@ - m[k]@, 0) > 60 * clock::SECOND
}

impl IdlistRequestBuilder {
    pub closed spec fn wf(&self) -> bool {
        self.last_request_by_key.wf() && self.last_response_hash.wf()
    }

    /// When the last request was made, by the keys of the contexts.
    pub closed spec fn requests(&self) -> Map<keyed_store::KeyView, Instant> {
        self.last_request_by_key@
    }

    /// The digests of the last responses, by the keys of the contexts.
    pub closed spec fn digests(&self) -> Map<keyed_store::KeyView, Seq<u8>> {
        self.last_response_hash@.map_values(|v: Vec<u8>| v@)
    }

    pub closed spec fn base(&self) -> Seq<char> {
        self.base_url@
    }

    pub closed spec fn version(&self) -> Seq<char> {
        self.sfp_version@
    }

    pub fn new(base_url: String, sfp_version: String) -> (r: Self)
        ensures
            r.wf(),
            r.base() == base_url@,
            r.version() == sfp_version@,
            r.requests() == Map::<keyed_store::KeyView, Instant>::empty(),
            r.digests() == Map::<keyed_store::KeyView, Seq<u8>>::empty(),
    {
        let r = IdlistRequestBuilder {
            base_url,
            sfp_version,
            last_request_by_key: KeyedStore::new(),
            last_response_hash: KeyedStore::new(),
        };
        assert(r.digests() =~= Map::<keyed_store::KeyView, Seq<u8>>::empty());
        r
    }

    pub fn build_request(&self, request_context: &AuthorizedRequestContext) -> (r: UpstreamRequest)
        ensures
            r@ == idlists_request(self.base(), self.version(), request_context@),
    {
        let url = build_idlist_url(self.base_url.as_str());
        let query = no_pairs();
        let mut headers = no_pairs();
        push_pair(&mut headers, "x-sfp-version", self.sfp_version.as_str());
        push_pair(&mut headers, "statsig-api-key", request_context.sdk_key.as_str());
        if compress_encoder::has_encoder(
            request_context.encodings.as_slice(),
            CompressionEncoder::Gzip,
        ) {
            push_pair(&mut headers, "Accept-Encoding", "gzip");
        }
        let r = UpstreamRequest {
            method: RequestMethod::Post,
            url,
            query,
            headers,
            body: Some("{}".to_owned()),
        };
        proof {
            let v = idlists_request(self.base(), self.version(), request_context@);
            assert(r@.query =~= v.query);
            assert(r@.headers =~= v.headers);
        }
        r
    }

    /// Takes note of the status of a response: where the key is refused, its last
    /// response is forgotten, so that the data is loaded again once it is
    /// accepted.
    pub fn after_response(&mut self, request_context: &AuthorizedRequestContext, status: u16)
        requires
            old(self).wf(),
        ensures
            final(self).wf(),
            final(self).base() == old(self).base(),
            final(self).version() == old(self).version(),
            final(self).requests() == old(self).requests(),
            final(self).digests() == (if status == 401 || status == 403 {
                old(self).digests().remove(sdk_key_store::context_key(request_context@))
            } else {
                old(self).digests()
            }),
    {
        let ghost before = *self;
        if status == 401 || status == 403 {
            let _ = self.last_response_hash.remove(&request_context.store_key());
            assert(self.digests() =~= before.digests().remove(
                sdk_key_store::context_key(request_context@),
            ));
        }
    }

    /// Whether a body differs from the last one, by its digest.
    pub fn is_an_update(&mut self, body: &[u8], rc: &AuthorizedRequestContext) -> (r: bool)
        requires
            old(self).wf(),
        ensures
            final(self).wf(),
            final(self).base() == old(self).base(),
            final(self).version() == old(self).version(),
            final(self).requests() == old(self).requests(),
            ({
                let k = sdk_key_store::context_key(rc@);
                let digest = codecs::sha256_digest(body@);
                &&& r == !(old(self).digests().contains_key(k) && old(self).digests()[k] == digest)
                &&& r == is_new_body(old(self).digests(), k, digest)
                &&& final(self).digests() == old(self).digests().insert(k, digest)
            }),
    {
        let ghost before = *self;
        let key = rc.store_key();
        let ghost k = key@;
        let hash = codecs::sha256(body);
        if let Some(old_hash) = self.last_response_hash.get(&key) {
            if http_server::same_bytes(old_hash, &hash) {
                assert(before.digests().insert(k, hash@) =~= before.digests());
                return false;
            }
        }
        self.last_response_hash.insert(key, hash);
        assert(self.digests() =~= before.digests().insert(k, codecs::sha256_digest(body@)));
        true
    }

    /// Whether a request may be made now. If so, it counts as made.
    pub fn should_make_request(&mut self, rc: &AuthorizedRequestContext, now: Instant) -> (r: bool)
        requires
            old(self).wf(),
        ensures
            final(self).wf(),
            final(self).base() == old(self).base(),
            final(self).version() == old(self).version(),
            final(self).digests() == old(self).digests(),
            r == is_due(old(self).requests(), sdk_key_store::context_key(rc@), now),
            final(self).requests() == (if r {
                old(self).requests().insert(sdk_key_store::context_key(rc@), now)
            } else {
                old(self).requests()
            }),
    {
        let key = rc.store_key();
        if let Some(last) = self.last_request_by_key.get(&key) {
            if now.saturating_duration_since(last).at_most(&Duration::from_secs(60)) {
                return false;
            }
        }
        self.last_request_by_key.insert(key, now);
        true
    }
}

/// Once a request was made, none is made for a minute.
pub proof fn law_id_lists_are_fetched_once_a_minute(
    m: Map<keyed_store::KeyView, Instant>,
    k: keyed_store::KeyView,
    first: Instant,
    second: Instant,
)
    requires
        second@ - first@ <= 60 * clock::SECOND,
    ensures
        !is_due(m.insert(k, first), k, second),
{
}

/// Whether pairs name something, and with this value alone.
pub open spec fn names_it(
    pairs: Seq<(Seq<char>, Seq<char>)>,
    name: Seq<char>,
    value: Seq<char>,
) -> bool {
    &&& pairs.contains((name, value))
    &&& forall|i: int|
        0 <= i < pairs.len() && (#[trigger] pairs[i]).0 == name ==> pairs[i].1 == value
}

/// Whether no pair has a name.
pub open spec fn names_no(pairs: Seq<(Seq<char>, Seq<char>)>, name: Seq<char>) -> bool {
    forall|i: int| 0 <= i < pairs.len() ==> (#[trigger] pairs[i]).0 != name
}

proof fn lemma_names()
    ensures
        "sinceTime"@ != "supports_proto"@,
        "statsig-supports-proto"@ != "x-sfp-version"@,
        "statsig-supports-proto"@ != "Accept-Encoding"@,
        "x-sfp-version"@ != "Accept-Encoding"@,
        "x-sfp-version"@ != "Range"@,
        "x-sfp-version"@ != "statsig-id-list-file-size"@,
        "Range"@ != "statsig-id-list-file-size"@,
        "x-sfp-version"@ != "statsig-api-key"@,
        "Accept-Encoding"@ != "statsig-api-key"@,
{
    reveal_strlit("sinceTime");
    reveal_strlit("supports_proto");
    reveal_strlit("statsig-supports-proto");
    reveal_strlit("x-sfp-version");
    reveal_strlit("Accept-Encoding");
    reveal_strlit("Range");
    reveal_strlit("statsig-id-list-file-size");
    reveal_strlit("statsig-api-key");
    assert("sinceTime"@.len() == 9 && "supports_proto"@.len() == 14);
    assert("statsig-supports-proto"@.len() == 22 && "x-sfp-version"@.len() == 13
        && "Accept-Encoding"@.len() == 15);
    assert("Range"@.len() == 5 && "statsig-id-list-file-size"@.len() == 25);
    assert("statsig-api-key"@.len() == 15);
    assert("statsig-api-key"@[0] == 's' && "Accept-Encoding"@[0] == 'A');
}

/// Specs are fetched by the path and key of their request, from the time that is known,
/// with what the client is capable of, and in the name of this version.
pub proof fn law_specs_are_asked_for_by_key_and_time(
    base_url: Seq<char>,
    sfp_version: Seq<char>,
    c: authorized_request_context::ContextView,
    lcut: u64,
)
    ensures
        ({
            let r = cdn_request(base_url, sfp_version, c, lcut);
            &&& r.method == RequestMethod::Get
            &&& r.body is None
            &&& r.url == base_url + normalized_path::path_text(c.path) + c.sdk_key + ".json"@
            &&& lcut > 0 ==> names_it(r.query, "sinceTime"@, text::decimal(lcut as nat))
            &&& lcut == 0 ==> names_no(r.query, "sinceTime"@)
            &&& c.supports_proto ==> names_it(r.query, "supports_proto"@, "true"@) && names_it(
                r.headers,
                "statsig-supports-proto"@,
                "true"@,
            )
            &&& !c.supports_proto ==> names_no(r.query, "supports_proto"@) && names_no(
                r.headers,
                "statsig-supports-proto"@,
            )
            &&& names_it(r.headers, "x-sfp-version"@, sfp_version)
            &&& outbound_encodings(c.encodings) matches Some(value) ==> names_it(
                r.headers,
                "Accept-Encoding"@,
                value,
            )
            &&& outbound_encodings(c.encodings) is None ==> names_no(r.headers, "Accept-Encoding"@)
        }),
{
    lemma_names();
    let r = cdn_request(base_url, sfp_version, c, lcut);
    let t: int = if lcut > 0 {
        1
    } else {
        0
    };
    let p: int = if c.supports_proto {
        1
    } else {
        0
    };
    let e: int = if outbound_encodings(c.encodings) is Some {
        1
    } else {
        0
    };
    assert(r.query.len() == t + p);
    assert(lcut > 0 ==> r.query[0] == ("sinceTime"@, text::decimal(lcut as nat)));
    assert(c.supports_proto ==> r.query[t] == ("supports_proto"@, "true"@));
    assert(r.headers.len() == p + 1 + e);
    assert(c.supports_proto ==> r.headers[0] == ("statsig-supports-proto"@, "true"@));
    assert(r.headers[p] == ("x-sfp-version"@, sfp_version));
    assert(e == 1 ==> r.headers[p + 1] == (
        "Accept-Encoding"@,
        outbound_encodings(c.encodings)->0,
    ));
}

/// The key can be read back from the address that its specs are fetched from.
pub proof fn law_addresses_hold_their_key(
    base_url: Seq<char>,
    sfp_version: Seq<char>,
    c: authorized_request_context::ContextView,
    lcut: u64,
)
    requires
        !c.sdk_key.contains('/'),
        c.path is V1DownloadConfigSpecs || c.path is V2DownloadConfigSpecs,
    ensures
        sdk_key_normalizer::key_of_path(cdn_request(base_url, sfp_version, c, lcut).url)
            == c.sdk_key,
{
    reveal_strlit("/v1/download_config_specs/");
    reveal_strlit("/v2/download_config_specs/");
    let p = normalized_path::path_text(c.path);
    let dir = base_url + p.drop_last();
    assert(p =~= p.drop_last().push('/'));
    assert(cdn_request(base_url, sfp_version, c, lcut).url =~= dir + seq!['/'] + c.sdk_key
        + ".json"@);
    sdk_key_normalizer::law_keys_are_read_from_paths(dir, c.sdk_key, c.sdk_key);
}

/// The encodings that are asked for are those of the client, and none where it takes plain
/// text alone.
pub proof fn law_upstreams_are_asked_for_the_clients_encodings(
    encodings: Seq<CompressionEncoder>,
    e: CompressionEncoder,
)
    ensures
        outbound_encodings(encodings) is None <==> forall|i: int|
            0 <= i < encodings.len() ==> #[trigger] encodings[i] == CompressionEncoder::PlainText,
        outbound_encodings(encodings) matches Some(value) ==> (compress_encoder::accepts(value, e)
            <==> encodings.contains(e)),
{
    reveal_strlit(",");
    assert(","@ =~= seq![',']);
    if outbound_encodings(encodings) is Some {
        compress_encoder::law_listed_encodings_are_accepted(encodings, e);
    }
}

/// A blob is fetched from its own address, and asked for its head there first where that
/// can save the download.
pub proof fn law_blobs_are_fetched_from_their_address(
    base_url: Seq<char>,
    sfp_version: Seq<char>,
    c: authorized_request_context::ContextView,
    lcut: u64,
    url: Seq<char>,
)
    ensures
        ({
            let first = first_step(base_url, sfp_version, c, lcut, Some(url));
            &&& c.use_lcut && lcut > 0 ==> {
                &&& first matches DcsStepView::AskMetadata(head)
                &&& head.method == RequestMethod::Head
                &&& head.url == url
                &&& head.query.len() == 0
                &&& names_it(head.headers, "x-sfp-version"@, sfp_version)
            }
            &&& !(c.use_lcut && lcut > 0) ==> first == fetch_step(
                base_url,
                sfp_version,
                c,
                lcut,
                Some(url),
            )
            &&& fetch_step(base_url, sfp_version, c, lcut, Some(url)) matches DcsStepView::Fetch(
                r,
                source,
            )
            &&& source == DcsSource::Blob
            &&& r.method == RequestMethod::Get
            &&& r.url == url
            &&& r.query.len() == 0
            &&& names_it(r.headers, "x-sfp-version"@, sfp_version)
        }),
        first_step(base_url, sfp_version, c, lcut, None) == DcsStepView::Fetch(
            cdn_request(base_url, sfp_version, c, lcut),
            DcsSource::Cdn,
        ),
        fetch_step(base_url, sfp_version, c, lcut, None) == first_step(
            base_url,
            sfp_version,
            c,
            lcut,
            None,
        ),
{
    lemma_names();
    let h = metadata_request(url, sfp_version).headers;
    assert(h[0] == ("x-sfp-version"@, sfp_version));
    let b = blob_request(url, sfp_version, c).headers;
    assert(b[0] == ("x-sfp-version"@, sfp_version));
    if outbound_encodings(c.encodings) is Some {
        assert(b.len() == 2 && b[1].0 == "Accept-Encoding"@);
    } else {
        assert(b.len() == 1);
    }
}

/// A download is skipped exactly where something is known already, and the head of the blob
/// answers with success and a time that is not later.
pub proof fn law_known_blobs_are_skipped(m: MetadataReply, lcut: u64, n: u64)
    ensures
        !metadata_skips(None, lcut),
        metadata_skips(Some(m), lcut) ==> lcut > 0 && 200 <= m.status <= 299
            && m.x_ms_meta_lcut is Some,
        (m.x_ms_meta_lcut matches Some(t) && t@ == text::decimal(n as nat)) ==> (metadata_skips(
            Some(m),
            lcut,
        ) <==> lcut > 0 && 200 <= m.status <= 299 && n <= lcut),
        skips_blob(lcut, n) <==> lcut > 0 && n <= lcut,
{
    text::law_numbers_are_read_back(n as nat, n as nat, u64::MAX as int);
}

/// A blob that is not there is looked for in the CDN in its place. Any other answer is
/// delivered, with its status and where it came from.
pub proof fn law_missing_blobs_are_looked_for_elsewhere(
    base_url: Seq<char>,
    sfp_version: Seq<char>,
    c: authorized_request_context::ContextView,
    lcut: u64,
    source: DcsSource,
    status: u16,
)
    ensures
        ({
            let s = step_after_response(base_url, sfp_version, c, lcut, source, status);
            &&& s == DcsStepView::Fetch(
                cdn_request(base_url, sfp_version, c, lcut),
                DcsSource::CdnFallback,
            ) <==> source == DcsSource::Blob && status == 404
            &&& s is Deliver <==> !(source == DcsSource::Blob && status == 404)
            &&& s matches DcsStepView::Deliver(e) ==> {
                &&& e.event_type == ProxyEventType::DcsFetchSource
                &&& e.status_code == Some(status)
                &&& e.service == Some(source.name())
                &&& e.context == Some(c)
            }
        }),
        DcsSource::Blob.name() == "blob"@,
        DcsSource::Cdn.name() == "cdn"@,
        DcsSource::CdnFallback.name() == "cdn_fallback"@,
{
}

/// Only the specs of the two versions are kept as blobs, each under its own.
pub proof fn law_specs_are_kept_as_blobs(path: normalized_path::PathView)
    ensures
        blob_version(path) == Some(DcsBlobVersion::V1) <==> path
            == normalized_path::PathView::V1DownloadConfigSpecs,
        blob_version(path) == Some(DcsBlobVersion::V2) <==> path
            == normalized_path::PathView::V2DownloadConfigSpecs,
{
}

/// A file is fetched by the path and query that it was asked for with. A range is passed on
/// only from the start, and a size that is known as it is.
pub proof fn law_files_are_asked_for_as_they_were(
    base_url: Seq<char>,
    sfp_version: Seq<char>,
    c: authorized_request_context::ContextView,
)
    ensures
        ({
            let r = file_request(base_url, sfp_version, c);
            &&& r.method == RequestMethod::Get
            &&& r.query.len() == 0
            &&& c.raw_path matches Some(path) ==> (c.raw_query is None ==> r.url == base_url + path)
                && (c.raw_query matches Some(query) ==> r.url == base_url + path + "?"@ + query)
            &&& c.raw_path is None && c.raw_query is None ==> r.url == base_url
                + normalized_path::path_text(c.path)
            &&& names_it(r.headers, "x-sfp-version"@, sfp_version)
            &&& c.range_start == Some(0u64) ==> names_it(r.headers, "Range"@, "bytes=0-"@)
            &&& c.range_start != Some(0u64) ==> names_no(r.headers, "Range"@)
            &&& c.id_list_size matches Some(n) ==> names_it(
                r.headers,
                "statsig-id-list-file-size"@,
                text::decimal(n as nat),
            )
            &&& c.id_list_size is None ==> names_no(r.headers, "statsig-id-list-file-size"@)
        }),
{
    lemma_names();
    let r = file_request(base_url, sfp_version, c);
    let h = r.headers;
    let n: int = if c.range_start == Some(0u64) {
        1
    } else {
        0
    };
    let m: int = if c.id_list_size is Some {
        1
    } else {
        0
    };
    assert(h.len() == 1 + n + m);
    assert(h[0] == ("x-sfp-version"@, sfp_version));
    assert(n == 1 ==> h[1] == ("Range"@, "bytes=0-"@));
    assert(m == 1 ==> h[1 + n] == (
        "statsig-id-list-file-size"@,
        text::decimal((c.id_list_size->0) as nat),
    ));
    if let Some(path) = c.raw_path {
        assert(base_url + path + Seq::<char>::empty() =~= base_url + path);
        if let Some(query) = c.raw_query {
            assert(r.url =~= base_url + path + "?"@ + query);
        }
    } else if c.raw_query is None {
        assert(r.url =~= base_url + normalized_path::path_text(c.path));
    }
}

/// Lists are asked for with the key in a header, at one address whatever slashes the base
/// ends with, and packed where the client takes that.
pub proof fn law_lists_are_asked_for_with_the_key(
    base: Seq<char>,
    sfp_version: Seq<char>,
    c: authorized_request_context::ContextView,
)
    requires
        base.len() > 0 ==> base.last() != '/',
    ensures
        ({
            let r = idlists_request(base, sfp_version, c);
            &&& r.method == RequestMethod::Post
            &&& r.body == Some("{}"@)
            &&& r.url == base + "/v1/get_id_lists"@
            &&& idlists_request(base + seq!['/'], sfp_version, c) == r
            &&& names_it(r.headers, "statsig-api-key"@, c.sdk_key)
            &&& names_it(r.headers, "x-sfp-version"@, sfp_version)
            &&& c.encodings.contains(CompressionEncoder::Gzip) ==> names_it(
                r.headers,
                "Accept-Encoding"@,
                "gzip"@,
            )
            &&& !c.encodings.contains(CompressionEncoder::Gzip) ==> names_no(
                r.headers,
                "Accept-Encoding"@,
            )
        }),
{
    lemma_names();
    assert((base + seq!['/']).drop_last() =~= base);
    assert(text::trim_end_char(base, '/') == base);
    assert(text::trim_end_char(base + seq!['/'], '/') == base);
    let h = idlists_request(base, sfp_version, c).headers;
    assert(h[0] == ("x-sfp-version"@, sfp_version));
    assert(h[1] == ("statsig-api-key"@, c.sdk_key));
    if c.encodings.contains(CompressionEncoder::Gzip) {
        assert(h.len() == 3 && h[2] == ("Accept-Encoding"@, "gzip"@));
    } else {
        assert(h.len() == 2);
    }
}

/// Lists are due where they were never asked for, and once a minute has passed.
pub proof fn law_id_lists_are_due_after_a_minute(
    m: Map<keyed_store::KeyView, Instant>,
    k: keyed_store::KeyView,
    now: Instant,
)
    ensures
        !m.contains_key(k) ==> is_due(m, k, now),
        m.contains_key(k) && now@ - m[k]@ > 60 * clock::SECOND ==> is_due(m, k, now),
        m.contains_key(k) && now@ - m[k]@ <= 60 * clock::SECOND ==> !is_due(m, k, now),
{
}

/// The last builder that was added for a path is the one that serves it.
pub proof fn law_the_last_builder_serves(
    entries: Seq<(NormalizedPath, usize)>,
    i: int,
    path: normalized_path::PathView,
)
    ensures
        0 <= i < entries.len() && entries[i].0@ == path && (forall|j: int|
            i < j < entries.len() ==> (#[trigger] entries[j]).0@ != path) ==> builders_of(
            entries,
        ).contains_pair(path, entries[i].1),
        (forall|j: int| 0 <= j < entries.len() ==> (#[trigger] entries[j]).0@ != path)
            ==> !builders_of(entries).contains_key(path),
    decreases entries.len(),
{
    if entries.len() > 0 {
        let short = entries.drop_last();
        law_the_last_builder_serves(short, i, path);
        assert(forall|j: int| 0 <= j < short.len() ==> short[j] == entries[j]);
        assert(entries[entries.len() - 1] == entries.last());
    }
}

/// An address is signed only for specs that are kept as blobs, with a connection that can
/// sign, for the blob of the company and key, and as long as signed addresses last.
pub proof fn law_addresses_are_signed_for_their_blob(
    builder: DcsRequestBuilder,
    c: authorized_request_context::ContextView,
    now: i64,
)
    ensures
        builder.dcs_blob_config is None ==> builder.signed_url(c, now) is None,
        c.path != normalized_path::PathView::V1DownloadConfigSpecs && c.path
            != normalized_path::PathView::V2DownloadConfigSpecs ==> builder.signed_url(c, now)
            is None,
        builder.signed_url(c, now) matches Some(url) ==> {
            let config = builder.dcs_blob_config->0;
            let container = if c.path == normalized_path::PathView::V1DownloadConfigSpecs {
                DcsBlobVersion::V1.container()
            } else {
                DcsBlobVersion::V2.container()
            };
            &&& dcs_blob_url_generator::can_sign_with(config.url_generator.source())
            &&& dcs_blob_url_generator::signed_blob_url(
                config.url_generator.source(),
                container,
                config.company_id@ + "/"@ + c.sdk_key,
                true,
                (now + dcs_blob_url_generator::SIGNED_URL_TTL_SECONDS) as i64,
            ) == Ok::<Seq<char>, (bool, Seq<char>)>(url)
        },
{
}

/// Whether a response brings something new, by its `x-cache-hit` header.
pub open spec fn tells_update(x_cache_hit: Option<Seq<char>>) -> bool {
    x_cache_hit is None || x_cache_hit == Some("false"@)
}

/// A response brings something new unless it says that a cache was hit, and what it says is
/// no more than that.
pub proof fn law_hit_caches_bring_nothing_new(value: Seq<char>)
    ensures
        tells_update(None),
        tells_update(Some("false"@)),
        !tells_update(Some("true"@)),
        value != "false"@ ==> !tells_update(Some(value)),
{
    reveal_strlit("true");
    reveal_strlit("false");
    assert("true"@.len() == 4 && "false"@.len() == 5);
}

/// Whether lists are new to those that came last, by their digests.
pub open spec fn is_new_body(
    digests: Map<keyed_store::KeyView, Seq<u8>>,
    k: keyed_store::KeyView,
    digest: Seq<u8>,
) -> bool {
    digests.contains_key(k) ==> digests[k] != digest
}

/// Lists are new where they are the first or differ from the last, and not where they came
/// again. What came for another request does not count, and after a refusal all are new.
pub proof fn law_repeated_lists_are_not_new(
    digests: Map<keyed_store::KeyView, Seq<u8>>,
    k: keyed_store::KeyView,
    other: keyed_store::KeyView,
    digest: Seq<u8>,
    next: Seq<u8>,
)
    ensures
        !digests.contains_key(k) ==> is_new_body(digests, k, digest),
        is_new_body(digests.insert(k, digest), k, next) <==> next != digest,
        other != k ==> is_new_body(digests.insert(other, digest), k, next) == is_new_body(
            digests,
            k,
            next,
        ),
        is_new_body(digests.remove(k), k, digest),
{
}

} // verus!
