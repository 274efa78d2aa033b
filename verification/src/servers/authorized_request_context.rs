//! The context of an authorized request: whose key it carries, which endpoint it
//! asks and what it can take. Contexts are the keys of every store.

use crate::keyed_store;
use crate::keyed_store::{KeyedStore, StoreKey};
use crate::servers::normalized_path;
use crate::servers::normalized_path::NormalizedPath;
use crate::servers::sdk_key_normalizer;
use crate::text;
use crate::utils::compress_encoder;
use crate::utils::compress_encoder::{CompressionEncoder, ParsedAcceptEncoding};
use crate::utils::request_helper;
use std::hash::{Hash, Hasher};
use std::sync::Arc;
use vstd::prelude::*;

verus! {

/// `String` hashes its characters.
pub assume_specification<H: Hasher>[ <String as Hash>::hash ](s: &String, state: &mut H);

/// `u64` hashes its value.
pub assume_specification<H: Hasher>[ <u64 as Hash>::hash ](n: &u64, state: &mut H);

/// The request carries no key.
#[derive(Debug, Clone, Copy)]
pub struct AuthError;

/// Why a file download is refused.
#[derive(Clone, Copy, Debug, PartialEq, Eq, Structural)]
pub enum DownloadIdListFileRequestError {
    MissingSdkKey,
    ConflictingSdkKey,
    MissingFileId,
    InvalidRange,
    InvalidIdListFileSize,
}

impl DownloadIdListFileRequestError {
    /// The body that a refused download is answered with.
    pub open spec fn body_text(self) -> Seq<char> {
        match self {
            DownloadIdListFileRequestError::MissingSdkKey => "Missing statsig-api-key"@,
            DownloadIdListFileRequestError::ConflictingSdkKey =>
                "Signed query sdk key does not match statsig-api-key header"@,
            DownloadIdListFileRequestError::MissingFileId => "Missing id list file id"@,
            DownloadIdListFileRequestError::InvalidRange =>
                "Range must be absent or formatted as bytes=<start>-"@,
            DownloadIdListFileRequestError::InvalidIdListFileSize =>
                "statsig-id-list-file-size must be a valid unsigned integer"@,
        }
    }

    pub fn body(self) -> (r: &'static str)
        ensures
            r@ == self.body_text(),
    {
        match self {
            DownloadIdListFileRequestError::MissingSdkKey => "Missing statsig-api-key",
            DownloadIdListFileRequestError::ConflictingSdkKey =>
                "Signed query sdk key does not match statsig-api-key header",
            DownloadIdListFileRequestError::MissingFileId => "Missing id list file id",
            DownloadIdListFileRequestError::InvalidRange =>
                "Range must be absent or formatted as bytes=<start>-",
            DownloadIdListFileRequestError::InvalidIdListFileSize =>
                "statsig-id-list-file-size must be a valid unsigned integer",
        }
    }
}

/// The context of an authorized request.
#[derive(Debug)]
pub struct AuthorizedRequestContext {
    pub sdk_key: String,
    pub path: NormalizedPath,
    pub use_lcut: bool,
    pub supports_proto: bool,
    pub accept_deltas: bool,
    pub encodings: Vec<CompressionEncoder>,
    /// Kept where the exact signed path and query go to the upstream.
    pub raw_path: Option<String>,
    pub raw_query: Option<String>,
    pub file_id: Option<String>,
    pub range_start: Option<u64>,
    pub id_list_size: Option<u64>,
}

/// The model of a context.
pub struct ContextView {
    pub sdk_key: Seq<char>,
    pub path: normalized_path::PathView,
    pub use_lcut: bool,
    pub supports_proto: bool,
    pub accept_deltas: bool,
    pub encodings: Seq<CompressionEncoder>,
    pub raw_path: Option<Seq<char>>,
    pub raw_query: Option<Seq<char>>,
    pub file_id: Option<Seq<char>>,
    pub range_start: Option<u64>,
    pub id_list_size: Option<u64>,
}

impl View for AuthorizedRequestContext {
    type V = ContextView;

    open spec fn view(&self) -> ContextView {
        ContextView {
            sdk_key: self.sdk_key@,
            path: self.path@,
            use_lcut: self.use_lcut,
            supports_proto: self.supports_proto,
            accept_deltas: self.accept_deltas,
            encodings: self.encodings@,
            raw_path: text::text_option(self.raw_path),
            raw_query: text::text_option(self.raw_query),
            file_id: text::text_option(self.file_id),
            range_start: self.range_start,
            id_list_size: self.id_list_size,
        }
    }
}

/// What makes two contexts the same. The signed path and query change with every
/// request and are left out, and so is the start of a range, since files are
/// fetched and stored whole. The required size of a file counts, so that a
/// request for a newer file is not taken for one under way.
pub struct RequestIdentity {
    pub sdk_key: Seq<char>,
    pub path: normalized_path::PathView,
    pub encodings: Seq<CompressionEncoder>,
    pub supports_proto: bool,
    pub accept_deltas: bool,
    pub file_id: Option<Seq<char>>,
    pub id_list_size: Option<u64>,
}

impl ContextView {
    pub open spec fn identity(self) -> RequestIdentity {
        RequestIdentity {
            sdk_key: self.sdk_key,
            path: self.path,
            encodings: self.encodings,
            supports_proto: self.supports_proto,
            accept_deltas: self.accept_deltas,
            file_id: self.file_id,
            id_list_size: self.id_list_size,
        }
    }
}

/// The encodings that stored payloads come in: of those asked for, the two that
/// are stored, the preferred one first, and plain text where neither is.
pub open spec fn canonical(s: Seq<CompressionEncoder>) -> Seq<CompressionEncoder> {
    let statsig = s.contains(CompressionEncoder::StatsigBrotli);
    let gzip = s.contains(CompressionEncoder::Gzip);
    if statsig && gzip {
        seq![CompressionEncoder::StatsigBrotli, CompressionEncoder::Gzip]
    } else if statsig {
        seq![CompressionEncoder::StatsigBrotli]
    } else if gzip {
        seq![CompressionEncoder::Gzip]
    } else {
        seq![CompressionEncoder::PlainText]
    }
}

pub fn canonicalize_encodings(encodings: Vec<CompressionEncoder>) -> (r: Vec<CompressionEncoder>)
    ensures
        r@ == canonical(encodings@),
{
    let mut r: Vec<CompressionEncoder> = Vec::new();
    if compress_encoder::has_encoder(encodings.as_slice(), CompressionEncoder::StatsigBrotli) {
        r.push(CompressionEncoder::StatsigBrotli);
    }
    if compress_encoder::has_encoder(encodings.as_slice(), CompressionEncoder::Gzip) {
        r.push(CompressionEncoder::Gzip);
    }
    if r.is_empty() {
        r.push(CompressionEncoder::PlainText);
    }
    r
}

/// Canonical encodings stay as they are, and depend only on which encodings were
/// asked for.
pub proof fn law_canonical_encodings(s: Seq<CompressionEncoder>, t: Seq<CompressionEncoder>)
    ensures
        canonical(canonical(s)) == canonical(s),
        (forall|e: CompressionEncoder| s.contains(e) <==> t.contains(e)) ==> canonical(s)
            == canonical(t),
        canonical(s).len() > 0,
{
    let c = canonical(s);
    assert(c[0] == CompressionEncoder::StatsigBrotli || c[0] == CompressionEncoder::Gzip || c[0]
        == CompressionEncoder::PlainText);
    if c.len() == 2 {
        assert(c[1] == CompressionEncoder::Gzip);
    }
    if c.contains(CompressionEncoder::StatsigBrotli) {
        assert(s.contains(CompressionEncoder::StatsigBrotli));
    }
}

/// Whether specs at the endpoint carry the time they were last changed.
pub open spec fn path_uses_lcut(p: normalized_path::PathView) -> bool {
    p is V1DownloadConfigSpecs || p is V2DownloadConfigSpecs || p is V2DownloadConfigSpecsDeltas
}

/// The context of a request without capabilities or file.
pub open spec fn new_context(
    sdk_key: Seq<char>,
    path: normalized_path::PathView,
    encodings: Seq<CompressionEncoder>,
) -> ContextView {
    ContextView {
        sdk_key,
        path,
        use_lcut: path_uses_lcut(path),
        supports_proto: false,
        accept_deltas: false,
        encodings: canonical(encodings),
        raw_path: None,
        raw_query: None,
        file_id: None,
        range_start: None,
        id_list_size: None,
    }
}

impl AuthorizedRequestContext {
    pub fn new(
        sdk_key: String,
        path: NormalizedPath,
        encodings: Vec<CompressionEncoder>,
    ) -> (r: Self)
        ensures
            r@ == new_context(sdk_key@, path@, encodings@),
    {
        let encodings = canonicalize_encodings(encodings);
        let use_lcut = path == NormalizedPath::V1DownloadConfigSpecs || path
            == NormalizedPath::V2DownloadConfigSpecs || path
            == NormalizedPath::V2DownloadConfigSpecsDeltas;
        AuthorizedRequestContext {
            sdk_key,
            path,
            use_lcut,
            supports_proto: false,
            accept_deltas: false,
            encodings,
            raw_path: None,
            raw_query: None,
            file_id: None,
            range_start: None,
            id_list_size: None,
        }
    }

    pub fn with_request_capabilities(self, supports_proto: bool, accept_deltas: bool) -> (r: Self)
        ensures
            r@ == (ContextView { supports_proto, accept_deltas, ..self@ }),
    {
        let mut context = self;
        context.supports_proto = supports_proto;
        context.accept_deltas = accept_deltas;
        context
    }

    pub fn with_raw_request(
        self,
        raw_path: Option<String>,
        raw_query: Option<String>,
    ) -> (r: Self)
        ensures
            r@ == (ContextView {
                raw_path: text::text_option(raw_path),
                raw_query: text::text_option(raw_query),
                ..self@
            }),
    {
        let mut context = self;
        context.raw_path = raw_path;
        context.raw_query = raw_query;
        context
    }

    pub fn with_id_list_request(
        self,
        file_id: Option<String>,
        range_start: Option<u64>,
        id_list_size: Option<u64>,
    ) -> (r: Self)
        ensures
            r@ == (ContextView {
                file_id: text::text_option(file_id),
                range_start,
                id_list_size,
                ..self@
            }),
    {
        let mut context = self;
        context.file_id = file_id;
        context.range_start = range_start;
        context.id_list_size = id_list_size;
        context
    }
}

/// Whether two lists of encodings are the same.
pub fn same_encodings(a: &Vec<CompressionEncoder>, b: &Vec<CompressionEncoder>) -> (r: bool)
    ensures
        r == (a@ == b@),
{
    if a.len() != b.len() {
        return false;
    }
    let mut i: usize = 0;
    while i < a.len()
        invariant
            i <= a@.len() == b@.len(),
            forall|j: int| 0 <= j < i ==> a@[j] == b@[j],
        decreases a@.len() - i,
    {
        if a[i] != b[i] {
            assert(a@[i as int] != b@[i as int]);
            return false;
        }
        i += 1;
    }
    assert(a@ =~= b@);
    true
}

impl PartialEq for AuthorizedRequestContext {
    fn eq(&self, other: &Self) -> (r: bool) {
        self.sdk_key == other.sdk_key && self.path == other.path && same_encodings(
            &self.encodings,
            &other.encodings,
        ) && self.supports_proto == other.supports_proto && self.accept_deltas
            == other.accept_deltas && text::same_text_option(&self.file_id, &other.file_id)
            && self.id_list_size == other.id_list_size
    }
}

impl vstd::std_specs::cmp::PartialEqSpecImpl for AuthorizedRequestContext {
    open spec fn obeys_eq_spec() -> bool {
        true
    }

    open spec fn eq_spec(&self, other: &Self) -> bool {
        self@.identity() == other@.identity()
    }
}

impl Eq for AuthorizedRequestContext {

}

/// Hashes what a key is made of.
pub(crate) fn hash_store_key<H: Hasher>(key: &StoreKey, state: &mut H) {
    let mut i: usize = 0;
    while i < key.names.len()
        invariant
            i <= key.names@.len(),
        decreases key.names@.len() - i,
    {
        key.names[i].hash(state);
        i += 1;
    }
    let mut j: usize = 0;
    while j < key.numbers.len()
        invariant
            j <= key.numbers@.len(),
        decreases key.numbers@.len() - j,
    {
        key.numbers[j].hash(state);
        j += 1;
    }
}

impl Hash for AuthorizedRequestContext {
    fn hash<H: Hasher>(&self, state: &mut H) {
        hash_store_key(&self.store_key(), state);
    }
}

/// The number of an encoding in keys.
pub open spec fn encoder_code(e: CompressionEncoder) -> u64 {
    match e {
        CompressionEncoder::PlainText => 0,
        CompressionEncoder::Gzip => 1,
        CompressionEncoder::Brotli => 2,
        CompressionEncoder::StatsigBrotli => 3,
        CompressionEncoder::Deflate => 4,
        CompressionEncoder::Compress => 5,
        CompressionEncoder::Identity => 6,
        CompressionEncoder::Zstd => 7,
    }
}

fn code_of_encoder(e: CompressionEncoder) -> (r: u64)
    ensures
        r == encoder_code(e),
{
    match e {
        CompressionEncoder::PlainText => 0,
        CompressionEncoder::Gzip => 1,
        CompressionEncoder::Brotli => 2,
        CompressionEncoder::StatsigBrotli => 3,
        CompressionEncoder::Deflate => 4,
        CompressionEncoder::Compress => 5,
        CompressionEncoder::Identity => 6,
        CompressionEncoder::Zstd => 7,
    }
}

/// The number of an endpoint in keys.
pub open spec fn path_code(p: normalized_path::PathView) -> u64 {
    match p {
        normalized_path::PathView::V1DownloadConfigSpecs => 0,
        normalized_path::PathView::V1GetIdLists => 1,
        normalized_path::PathView::V1DownloadIdListFile => 2,
        normalized_path::PathView::V1LogEvent => 3,
        normalized_path::PathView::V2DownloadConfigSpecs => 4,
        normalized_path::PathView::V2DownloadConfigSpecsDeltas => 5,
        normalized_path::PathView::RawPath(_) => 6,
    }
}

/// The text of an endpoint in keys.
pub open spec fn path_key_text(p: normalized_path::PathView) -> Seq<char> {
    match p {
        normalized_path::PathView::RawPath(t) => t,
        _ => Seq::empty(),
    }
}

pub open spec fn bit(b: bool) -> u64 {
    if b {
        1
    } else {
        0
    }
}

fn bit_of(b: bool) -> (r: u64)
    ensures
        r == bit(b),
{
    if b {
        1
    } else {
        0
    }
}

/// The key under which a context is stored.
pub open spec fn identity_key(id: RequestIdentity) -> keyed_store::KeyView {
    (
        seq![
            id.sdk_key,
            path_key_text(id.path),
            match id.file_id {
                Some(t) => t,
                None => Seq::empty(),
            },
        ],
        seq![
            path_code(id.path),
            bit(id.supports_proto),
            bit(id.accept_deltas),
            bit(id.file_id is Some),
            bit(id.id_list_size is Some),
            match id.id_list_size {
                Some(n) => n,
                None => 0,
            },
        ] + Seq::new(id.encodings.len(), |i: int| encoder_code(id.encodings[i])),
    )
}

/// Two identities with the same key are the same.
pub proof fn lemma_identity_key_injective(a: RequestIdentity, b: RequestIdentity)
    requires
        identity_key(a) == identity_key(b),
    ensures
        a == b,
{
    let (s, m) = identity_key(a);
    let (t, n) = identity_key(b);
    assert(s[0] == t[0] && s[1] == t[1] && s[2] == t[2]);
    assert(m[0] == n[0] && m[1] == n[1] && m[2] == n[2] && m[3] == n[3] && m[4] == n[4] && m[5]
        == n[5]);
    assert(m.len() == n.len());
    assert forall|i: int| 0 <= i < a.encodings.len() implies a.encodings[i] == b.encodings[i] by {
        assert(m[i + 6] == encoder_code(a.encodings[i]));
        assert(n[i + 6] == encoder_code(b.encodings[i]));
    }
    assert(a.encodings =~= b.encodings);
}

impl AuthorizedRequestContext {
    /// The key under which the context is stored.
    pub fn store_key(&self) -> (r: StoreKey)
        ensures
            r@ == identity_key(self@.identity()),
    {
        let path_text = match &self.path {
            NormalizedPath::RawPath(t) => t.clone(),
            _ => String::new(),
        };
        let code: u64 = match &self.path {
            NormalizedPath::V1DownloadConfigSpecs => 0,
            NormalizedPath::V1GetIdLists => 1,
            NormalizedPath::V1DownloadIdListFile => 2,
            NormalizedPath::V1LogEvent => 3,
            NormalizedPath::V2DownloadConfigSpecs => 4,
            NormalizedPath::V2DownloadConfigSpecsDeltas => 5,
            NormalizedPath::RawPath(_) => 6,
        };
        let file_id = match &self.file_id {
            Some(t) => t.clone(),
            None => String::new(),
        };
        let size: u64 = match self.id_list_size {
            Some(n) => n,
            None => 0,
        };
        let ghost id = self@.identity();
        let mut names: Vec<String> = Vec::new();
        names.push(self.sdk_key.clone());
        names.push(path_text);
        names.push(file_id);
        assert(text::texts(names@) =~= identity_key(id).0);
        let mut numbers: Vec<u64> = Vec::new();
        numbers.push(code);
        numbers.push(bit_of(self.supports_proto));
        numbers.push(bit_of(self.accept_deltas));
        numbers.push(bit_of(self.file_id.is_some()));
        numbers.push(bit_of(self.id_list_size.is_some()));
        numbers.push(size);
        let ghost head = numbers@;
        let ghost codes = Seq::new(id.encodings.len(), |i: int| encoder_code(id.encodings[i]));
        assert(head =~= identity_key(id).1.take(6));
        let mut i: usize = 0;
        while i < self.encodings.len()
            invariant
                i <= self.encodings@.len(),
                id == self@.identity(),
                codes == Seq::new(id.encodings.len(), |i: int| encoder_code(id.encodings[i])),
                numbers@ =~= head + codes.take(i as int),
            decreases self.encodings@.len() - i,
        {
            numbers.push(code_of_encoder(self.encodings[i]));
            i += 1;
        }
        assert(numbers@ =~= identity_key(id).1);
        StoreKey { names, numbers }
    }
}

impl Clone for AuthorizedRequestContext {
    fn clone(&self) -> (r: Self)
        ensures
            r@ == self@,
    {
        AuthorizedRequestContext {
            sdk_key: self.sdk_key.clone(),
            path: self.path.clone(),
            use_lcut: self.use_lcut,
            supports_proto: self.supports_proto,
            accept_deltas: self.accept_deltas,
            encodings: self.encodings.clone(),
            raw_path: self.raw_path.clone(),
            raw_query: self.raw_query.clone(),
            file_id: self.file_id.clone(),
            range_start: self.range_start,
            id_list_size: self.id_list_size,
        }
    }
}

/// The name of an encoding in the text of a context.
pub open spec fn debug_name(e: CompressionEncoder) -> Seq<char> {
    match e {
        CompressionEncoder::PlainText => "PlainText"@,
        CompressionEncoder::Gzip => "Gzip"@,
        CompressionEncoder::Brotli => "Brotli"@,
        CompressionEncoder::StatsigBrotli => "StatsigBrotli"@,
        CompressionEncoder::Deflate => "Deflate"@,
        CompressionEncoder::Compress => "Compress"@,
        CompressionEncoder::Identity => "Identity"@,
        CompressionEncoder::Zstd => "Zstd"@,
    }
}

fn debug_text(e: CompressionEncoder) -> (r: &'static str)
    ensures
        r@ == debug_name(e),
{
    match e {
        CompressionEncoder::PlainText => "PlainText",
        CompressionEncoder::Gzip => "Gzip",
        CompressionEncoder::Brotli => "Brotli",
        CompressionEncoder::StatsigBrotli => "StatsigBrotli",
        CompressionEncoder::Deflate => "Deflate",
        CompressionEncoder::Compress => "Compress",
        CompressionEncoder::Identity => "Identity",
        CompressionEncoder::Zstd => "Zstd",
    }
}

pub open spec fn debug_names(s: Seq<CompressionEncoder>) -> Seq<Seq<char>> {
    Seq::new(s.len(), |i: int| debug_name(s[i]))
}

pub open spec fn bool_name(b: bool) -> Seq<char> {
    if b {
        "true"@
    } else {
        "false"@
    }
}

pub fn bool_text(b: bool) -> (r: &'static str)
    ensures
        r@ == bool_name(b),
{
    if b {
        "true"
    } else {
        "false"
    }
}

/// The text of a context: key, path, encodings and capabilities between bars.
pub open spec fn context_text(c: ContextView) -> Seq<char> {
    c.sdk_key + "|"@ + normalized_path::path_text(c.path) + "|["@ + text::join_spec(
        debug_names(c.encodings),
        ", "@,
    ) + "]|"@ + bool_name(c.supports_proto) + "|"@ + bool_name(c.accept_deltas)
}

impl AuthorizedRequestContext {
    pub fn to_string(&self) -> (r: String)
        ensures
            r@ == context_text(self@),
    {
        let mut names: Vec<String> = Vec::new();
        let mut i: usize = 0;
        while i < self.encodings.len()
            invariant
                i <= self.encodings@.len(),
                text::texts(names@) == debug_names(self.encodings@.take(i as int)),
            decreases self.encodings@.len() - i,
        {
            let ghost before = names@;
            names.push(debug_text(self.encodings[i]).to_owned());
            assert(text::texts(names@) == text::texts(before).push(
                debug_name(self.encodings@[i as int]),
            ));
            assert(debug_names(self.encodings@.take(i + 1)) == debug_names(
                self.encodings@.take(i as int),
            ).push(debug_name(self.encodings@[i as int])));
            i += 1;
        }
        assert(self.encodings@.take(i as int) == self.encodings@);
        let list = text::join(&names, ", ");
        let mut out = self.sdk_key.clone();
        out.append("|");
        out.append(self.path.as_str());
        out.append("|[");
        out.append(list.as_str());
        out.append("]|");
        out.append(bool_text(self.supports_proto));
        out.append("|");
        out.append(bool_text(self.accept_deltas));
        out
    }
}

/// The context that a request of the given kind has, whatever its time.
pub open spec fn cached_context(
    sdk_key: Seq<char>,
    path: normalized_path::PathView,
    encodings: Seq<CompressionEncoder>,
    supports_proto: bool,
    accept_deltas: bool,
    file_id: Option<Seq<char>>,
) -> ContextView {
    ContextView { supports_proto, accept_deltas, file_id, ..new_context(sdk_key, path, encodings) }
}

/// One shared context for each kind of request.
pub struct AuthorizedRequestContextCache {
    contexts: KeyedStore<Arc<AuthorizedRequestContext>>,
}

/// The shared contexts once one of them was asked for: it is added where there is
/// none for its request, and nothing else changes.
pub open spec fn shared_after(
    m: Map<keyed_store::KeyView, Arc<AuthorizedRequestContext>>,
    r: Arc<AuthorizedRequestContext>,
) -> Map<keyed_store::KeyView, Arc<AuthorizedRequestContext>> {
    if m.contains_key(identity_key(r@.identity())) {
        m
    } else {
        m.insert(identity_key(r@.identity()), r)
    }
}

impl AuthorizedRequestContextCache {
    /// Every context is stored under its own key, and none holds what belongs to
    /// a single request.
    pub closed spec fn wf(&self) -> bool {
        &&& self.contexts.wf()
        &&& forall|k: keyed_store::KeyView| #[trigger]
            self.contexts@.contains_key(k) ==> {
                let c = self.contexts@[k]@;
                &&& identity_key(c.identity()) == k
                &&& c == cached_context(
                    c.sdk_key,
                    c.path,
                    c.encodings,
                    c.supports_proto,
                    c.accept_deltas,
                    c.file_id,
                )
            }
    }

    /// The shared contexts by their keys.
    pub closed spec fn shared(&self) -> Map<keyed_store::KeyView, Arc<AuthorizedRequestContext>> {
        self.contexts@
    }

    pub fn new() -> (r: Self)
        ensures
            r.wf(),
            r.shared() == Map::<keyed_store::KeyView, Arc<AuthorizedRequestContext>>::empty(),
    {
        AuthorizedRequestContextCache { contexts: KeyedStore::new() }
    }

    /// The shared context of a kind of request, made where there is none yet.
    pub fn get_or_insert(
        &mut self,
        sdk_key: String,
        path: NormalizedPath,
        encodings: Vec<CompressionEncoder>,
        supports_proto: bool,
        accept_deltas: bool,
        file_id: Option<String>,
    ) -> (r: Arc<AuthorizedRequestContext>)
        requires
            old(self).wf(),
        ensures
            final(self).wf(),
            r@ == cached_context(
                sdk_key@,
                path@,
                encodings@,
                supports_proto,
                accept_deltas,
                text::text_option(file_id),
            ),
            final(self).shared() == shared_after(old(self).shared(), r),
            final(self).shared()[identity_key(r@.identity())] == r,
    {
        let context = AuthorizedRequestContext::new(
            sdk_key,
            path,
            encodings,
        ).with_request_capabilities(supports_proto, accept_deltas).with_id_list_request(
            file_id,
            None,
            None,
        );
        let ghost view = context@;
        proof {
            law_canonical_encodings(encodings@, encodings@);
        }
        let key = context.store_key();
        if let Some(found) = self.contexts.get(&key) {
            proof {
                lemma_identity_key_injective(found@.identity(), view.identity());
                assert(found@ == view);
            }
            return keyed_store::share(found);
        }
        let shared = Arc::new(context);
        self.contexts.insert(key, keyed_store::share(&shared));
        shared
    }
}

/// What a shared context is asked for with.
pub struct SharedRequest {
    pub sdk_key: Seq<char>,
    pub path: normalized_path::PathView,
    pub encodings: Seq<CompressionEncoder>,
    pub supports_proto: bool,
    pub accept_deltas: bool,
    pub file_id: Option<Seq<char>>,
}

pub open spec fn context_for(q: SharedRequest) -> ContextView {
    cached_context(
        q.sdk_key,
        q.path,
        q.encodings,
        q.supports_proto,
        q.accept_deltas,
        q.file_id,
    )
}

/// Whether two requests ask for the same. Of their encodings those that specs come in
/// count, in any order.
pub open spec fn asks_the_same(a: SharedRequest, b: SharedRequest) -> bool {
    &&& a.sdk_key == b.sdk_key
    &&& a.path == b.path
    &&& a.supports_proto == b.supports_proto
    &&& a.accept_deltas == b.accept_deltas
    &&& a.file_id == b.file_id
    &&& a.encodings.contains(CompressionEncoder::StatsigBrotli) == b.encodings.contains(
        CompressionEncoder::StatsigBrotli,
    )
    &&& a.encodings.contains(CompressionEncoder::Gzip) == b.encodings.contains(
        CompressionEncoder::Gzip,
    )
}

/// Whether contexts were handed out for requests, one after the other, with the shared
/// contexts going through these states.
pub open spec fn hands_out(
    requests: Seq<SharedRequest>,
    contexts: Seq<Arc<AuthorizedRequestContext>>,
    states: Seq<Map<keyed_store::KeyView, Arc<AuthorizedRequestContext>>>,
) -> bool {
    &&& contexts.len() == requests.len()
    &&& states.len() == requests.len() + 1
    &&& forall|i: int|
        0 <= i < requests.len() ==> {
            &&& (#[trigger] contexts[i])@ == context_for(requests[i])
            &&& states[i + 1] == shared_after(states[i], contexts[i])
            &&& states[i + 1][identity_key(contexts[i]@.identity())] == contexts[i]
        }
}

/// What was handed out stays shared.
proof fn lemma_stays_shared(
    requests: Seq<SharedRequest>,
    contexts: Seq<Arc<AuthorizedRequestContext>>,
    states: Seq<Map<keyed_store::KeyView, Arc<AuthorizedRequestContext>>>,
    i: int,
    j: int,
)
    requires
        hands_out(requests, contexts, states),
        0 <= i < j <= requests.len(),
    ensures
        states[j].contains_key(identity_key(contexts[i]@.identity())),
        states[j][identity_key(contexts[i]@.identity())] == contexts[i],
    decreases j,
{
    let key = identity_key(contexts[i]@.identity());
    if j > i + 1 {
        lemma_stays_shared(requests, contexts, states, i, j - 1);
        assert(states[j - 1 + 1] == shared_after(states[j - 1], contexts[j - 1]));
    } else {
        assert(states[i + 1] == shared_after(states[i], contexts[i]));
    }
}

/// Whatever is asked for in between: two requests are handed the same context, the one
/// that is shared, where they ask for the same, and different ones otherwise. A shared
/// context knows of no range and no size.
pub proof fn law_equal_requests_share_a_context(
    requests: Seq<SharedRequest>,
    contexts: Seq<Arc<AuthorizedRequestContext>>,
    states: Seq<Map<keyed_store::KeyView, Arc<AuthorizedRequestContext>>>,
    i: int,
    j: int,
)
    requires
        hands_out(requests, contexts, states),
        0 <= i < j < requests.len(),
    ensures
        asks_the_same(requests[i], requests[j]) <==> contexts[i] == contexts[j],
        asks_the_same(requests[i], requests[j]) ==> states[j + 1] == states[j],
        contexts[i]@.range_start is None && contexts[i]@.id_list_size is None,
{
    let a = requests[i];
    let b = requests[j];
    lemma_stays_shared(requests, contexts, states, i, j);
    assert(contexts[i]@ == context_for(a) && contexts[j]@ == context_for(b));
    assert(states[j + 1] == shared_after(states[j], contexts[j]));
    assert(states[j + 1][identity_key(contexts[j]@.identity())] == contexts[j]);
    lemma_canonical_apart(a.encodings, b.encodings);
    if contexts[i] == contexts[j] {
        assert(context_for(a) == context_for(b));
        assert(context_for(a).encodings == canonical(a.encodings));
    }
}

/// Which of the encodings that specs come in are accepted is all that is left of some
/// encodings.
proof fn lemma_canonical_apart(s: Seq<CompressionEncoder>, t: Seq<CompressionEncoder>)
    ensures
        canonical(s) == canonical(t) <==> s.contains(CompressionEncoder::StatsigBrotli)
            == t.contains(CompressionEncoder::StatsigBrotli) && s.contains(
            CompressionEncoder::Gzip,
        ) == t.contains(CompressionEncoder::Gzip),
{
    let c = canonical(s);
    let d = canonical(t);
    if c == d {
        assert(c.len() == d.len());
        assert(c[0] == d[0]);
    }
}

/// What the proxy reads from the head of a request.
#[derive(Debug)]
pub struct RequestHead {
    pub path: String,
    pub query: Option<String>,
    /// The `statsig-api-key` header.
    pub sdk_key: Option<String>,
    /// The `Range` header.
    pub range: Option<String>,
    /// The `statsig-id-list-file-size` header.
    pub id_list_file_size: Option<String>,
    /// All `Accept-Encoding` headers.
    pub accept_encoding: Vec<String>,
    /// The `supports_proto` query value, where it reads as a truth value.
    pub supports_proto_query: Option<bool>,
    /// The `statsig-supports-proto` header.
    pub supports_proto_header: Option<String>,
}

impl RequestHead {
    pub open spec fn takes_proto(&self) -> bool {
        request_helper::supports_proto(
            self.supports_proto_query,
            text::text_option(self.supports_proto_header),
        )
    }

    pub open spec fn asks_for_deltas(&self) -> bool {
        request_helper::accepts_deltas(text::text_option(self.query))
    }

    /// The value that the `Accept-Encoding` headers add up to.
    pub open spec fn accept_encoding_value(&self) -> Seq<char> {
        text::join_spec(text::texts(self.accept_encoding@), ","@)
    }

    /// The accepted encodings that change the payload.
    pub open spec fn accepted(&self) -> Seq<CompressionEncoder> {
        compress_encoder::ordered(
            |e: CompressionEncoder|
                compress_encoder::accepts(self.accept_encoding_value(), e),
        ).filter(|e: CompressionEncoder| compress_encoder::is_transforming(e))
    }
}

/// The file that the path of a download names.
pub open spec fn id_list_file_id(path: Seq<char>) -> Option<Seq<char>> {
    match text::after_prefix(path, "/v1/download_id_list_file/"@) {
        Some(rest) => {
            let id = rest.take(text::run_len(rest, '/'));
            if id.len() > 0 {
                Some(id)
            } else {
                None
            }
        },
        None => None,
    }
}

pub fn parse_id_list_file_id(path: &str) -> (r: Option<String>)
    ensures
        text::text_option(r) == id_list_file_id(path@),
{
    match text::strip_prefix(path, "/v1/download_id_list_file/") {
        Some(rest) => {
            let chars = text::to_chars(rest);
            let n = text::find_char(&chars, '/', 0);
            assert(rest@.skip(0) == rest@);
            if n == 0 {
                return None;
            }
            let id = text::from_chars(&chars, 0, n);
            assert(id@ == rest@.take(n as int));
            Some(id)
        },
        None => None,
    }
}

pub fn parse_required_id_list_file_id(path: &str) -> (r: Result<
    String,
    DownloadIdListFileRequestError,
>)
    ensures
        match r {
            Ok(id) => id_list_file_id(path@) == Some(id@),
            Err(e) => id_list_file_id(path@) is None && e
                == DownloadIdListFileRequestError::MissingFileId,
        },
{
    match parse_id_list_file_id(path) {
        Some(id) => Ok(id),
        None => Err(DownloadIdListFileRequestError::MissingFileId),
    }
}

/// What the header with the size of a file says.
pub open spec fn strict_file_size(header: Option<Seq<char>>) -> Result<
    Option<u64>,
    DownloadIdListFileRequestError,
> {
    match header {
        Some(value) => match text::parse_unsigned(text::trimmed(value), u64::MAX as int) {
            Some(n) => Ok(Some(n as u64)),
            None => Err(DownloadIdListFileRequestError::InvalidIdListFileSize),
        },
        None => Ok(None),
    }
}

pub fn parse_strict_id_list_file_size(header: &Option<String>) -> (r: Result<
    Option<u64>,
    DownloadIdListFileRequestError,
>)
    ensures
        r == strict_file_size(text::text_option(*header)),
{
    match header {
        Some(value) => match text::parse_u64(text::trim(value.as_str())) {
            Some(n) => Ok(Some(n)),
            None => Err(DownloadIdListFileRequestError::InvalidIdListFileSize),
        },
        None => Ok(None),
    }
}

/// The start that a `Range` header asks for: `bytes=<start>-`, nothing else.
pub open spec fn range_start_of(value: Seq<char>) -> Option<int> {
    match text::after_prefix(text::trimmed(value), "bytes="@) {
        Some(range) => if range.contains(',') {
            None
        } else {
            match text::split_once_spec(range, '-') {
                Some((start, end)) => if start.len() == 0 || end.len() > 0 {
                    None
                } else {
                    text::parse_unsigned(start, u64::MAX as int)
                },
                None => None,
            }
        },
        None => None,
    }
}

/// What the `Range` header says.
pub open spec fn strict_range_start(header: Option<Seq<char>>) -> Result<
    Option<u64>,
    DownloadIdListFileRequestError,
> {
    match header {
        Some(value) => match range_start_of(value) {
            Some(n) => Ok(Some(n as u64)),
            None => Err(DownloadIdListFileRequestError::InvalidRange),
        },
        None => Ok(None),
    }
}

pub fn parse_strict_id_list_file_range_start(header: &Option<String>) -> (r: Result<
    Option<u64>,
    DownloadIdListFileRequestError,
>)
    ensures
        r == strict_range_start(text::text_option(*header)),
{
    let value = match header {
        Some(value) => value,
        None => {
            return Ok(None);
        },
    };
    let range = match text::strip_prefix(text::trim(value.as_str()), "bytes=") {
        Some(range) => range,
        None => {
            return Err(DownloadIdListFileRequestError::InvalidRange);
        },
    };
    if range.is_empty() || text::contains_char(range, ',') {
        assert(range@.len() == 0 ==> !range@.contains('-'));
        return Err(DownloadIdListFileRequestError::InvalidRange);
    }
    let (start, end) = match text::split_once(range, '-') {
        Some(parts) => parts,
        None => {
            return Err(DownloadIdListFileRequestError::InvalidRange);
        },
    };
    if start.is_empty() || !end.is_empty() {
        return Err(DownloadIdListFileRequestError::InvalidRange);
    }
    match text::parse_u64(start) {
        Some(n) => Ok(Some(n)),
        None => Err(DownloadIdListFileRequestError::InvalidRange),
    }
}

/// What becomes of a file download before it is served.
pub enum DownloadIdListFileRequestGuard {
    Authorized(Arc<AuthorizedRequestContext>),
    Invalid(DownloadIdListFileRequestError),
}

/// The model of what becomes of a file download.
pub enum GuardView {
    Authorized(ContextView),
    Invalid(DownloadIdListFileRequestError),
}

impl View for DownloadIdListFileRequestGuard {
    type V = GuardView;

    open spec fn view(&self) -> GuardView {
        match self {
            DownloadIdListFileRequestGuard::Authorized(c) => GuardView::Authorized(c@),
            DownloadIdListFileRequestGuard::Invalid(e) => GuardView::Invalid(*e),
        }
    }
}

/// The key of a file download: the one in its header and the one in its signed
/// query must agree where both are there.
pub open spec fn download_key(header: Option<Seq<char>>, signed: Option<Seq<char>>) -> Result<
    Seq<char>,
    DownloadIdListFileRequestError,
> {
    match (header, signed) {
        (Some(h), Some(s)) => if h != s {
            Err(DownloadIdListFileRequestError::ConflictingSdkKey)
        } else {
            Ok(s)
        },
        (Some(h), None) => Ok(h),
        (None, Some(s)) => Ok(s),
        (None, None) => Err(DownloadIdListFileRequestError::MissingSdkKey),
    }
}

/// What becomes of a file download whose query is signed with the key `signed`.
/// The first fault decides: the key, then the file, the range and the size.
pub open spec fn download_guard(head: RequestHead, signed: Option<Seq<char>>) -> GuardView {
    match download_key(text::text_option(head.sdk_key), signed) {
        Err(e) => GuardView::Invalid(e),
        Ok(key) => match id_list_file_id(head.path@) {
            None => GuardView::Invalid(DownloadIdListFileRequestError::MissingFileId),
            Some(id) => match strict_range_start(text::text_option(head.range)) {
                Err(e) => GuardView::Invalid(e),
                Ok(range_start) => match strict_file_size(
                    text::text_option(head.id_list_file_size),
                ) {
                    Err(e) => GuardView::Invalid(e),
                    Ok(id_list_size) => GuardView::Authorized(
                        ContextView {
                            supports_proto: head.takes_proto(),
                            accept_deltas: head.asks_for_deltas(),
                            raw_path: Some(head.path@),
                            raw_query: text::text_option(head.query),
                            file_id: Some(id),
                            range_start,
                            id_list_size,
                            ..new_context(
                                key,
                                normalized_path::PathView::V1DownloadIdListFile,
                                head.accepted(),
                            )
                        },
                    ),
                },
            },
        },
    }
}

/// The key with which the query of a request is signed.
pub open spec fn signed_key(head: RequestHead) -> Option<Seq<char>> {
    match text::text_option(head.query) {
        Some(q) => sdk_key_normalizer::signed_query_key(q),
        None => None,
    }
}

impl DownloadIdListFileRequestGuard {
    /// Decides on a file download once the key in its signed query is known.
    pub fn decide(head: &RequestHead, signed_sdk_key: Option<String>) -> (r: Self)
        ensures
            r@ == download_guard(*head, text::text_option(signed_sdk_key)),
    {
        let sdk_key = match (&head.sdk_key, signed_sdk_key) {
            (Some(header), Some(signed)) => {
                if *header != signed {
                    return DownloadIdListFileRequestGuard::Invalid(
                        DownloadIdListFileRequestError::ConflictingSdkKey,
                    );
                }
                signed
            },
            (Some(header), None) => header.clone(),
            (None, Some(signed)) => signed,
            (None, None) => {
                return DownloadIdListFileRequestGuard::Invalid(
                    DownloadIdListFileRequestError::MissingSdkKey,
                );
            },
        };
        let file_id = match parse_required_id_list_file_id(head.path.as_str()) {
            Ok(file_id) => file_id,
            Err(e) => {
                return DownloadIdListFileRequestGuard::Invalid(e);
            },
        };
        let range_start = match parse_strict_id_list_file_range_start(&head.range) {
            Ok(range_start) => range_start,
            Err(e) => {
                return DownloadIdListFileRequestGuard::Invalid(e);
            },
        };
        let id_list_size = match parse_strict_id_list_file_size(&head.id_list_file_size) {
            Ok(id_list_size) => id_list_size,
            Err(e) => {
                return DownloadIdListFileRequestGuard::Invalid(e);
            },
        };
        let encodings = ParsedAcceptEncoding::from_header_values(
            &head.accept_encoding,
        ).acceptable_encodings();
        let supports_proto = request_helper::does_request_supports_proto(
            head.supports_proto_query,
            &head.supports_proto_header,
        );
        let accept_deltas = request_helper::does_request_accept_deltas(&head.query);
        let context = AuthorizedRequestContext::new(
            sdk_key,
            NormalizedPath::V1DownloadIdListFile,
            encodings,
        ).with_request_capabilities(supports_proto, accept_deltas).with_raw_request(
            Some(head.path.clone()),
            head.query.clone(),
        ).with_id_list_request(Some(file_id), range_start, id_list_size);
        DownloadIdListFileRequestGuard::Authorized(Arc::new(context))
    }

    /// Decides on a request to the download endpoint. A request to another
    /// endpoint never gets here; it is an error of the server.
    pub fn from_request(head: &RequestHead) -> (r: Result<Self, DownloadIdListFileRequestError>)
        ensures
            match r {
                Ok(guard) => {
                    &&& normalized_path::path_named(head.path@)
                        == normalized_path::PathView::V1DownloadIdListFile
                    &&& guard@ == download_guard(*head, signed_key(*head))
                },
                Err(e) => {
                    &&& normalized_path::path_named(head.path@)
                        != normalized_path::PathView::V1DownloadIdListFile
                    &&& e == DownloadIdListFileRequestError::MissingFileId
                },
            },
    {
        if NormalizedPath::parse(head.path.as_str()) != NormalizedPath::V1DownloadIdListFile {
            return Err(DownloadIdListFileRequestError::MissingFileId);
        }
        let signed = match &head.query {
            Some(q) => sdk_key_normalizer::extract_download_id_list_file_sdk_key(q.as_str()),
            None => None,
        };
        Ok(Self::decide(head, signed))
    }
}

/// A shared context.
pub struct AuthorizedRequestContextWrapper(pub Arc<AuthorizedRequestContext>);

/// The context of a request to any endpoint.
pub open spec fn request_context(head: RequestHead, sdk_key: Seq<char>) -> ContextView {
    let path = normalized_path::path_named(head.path@);
    cached_context(
        sdk_key,
        path,
        head.accepted(),
        head.takes_proto(),
        head.asks_for_deltas() || path is V2DownloadConfigSpecsDeltas,
        if path is V1DownloadIdListFile {
            id_list_file_id(head.path@)
        } else {
            None
        },
    )
}

impl AuthorizedRequestContextWrapper {
    pub fn inner(&self) -> (r: Arc<AuthorizedRequestContext>)
        ensures
            r == self.0,
    {
        keyed_store::share(&self.0)
    }

    /// The context of a request, which must carry a key.
    pub fn from_request(
        cache: &mut AuthorizedRequestContextCache,
        head: &RequestHead,
    ) -> (r: Result<Self, AuthError>)
        requires
            old(cache).wf(),
        ensures
            final(cache).wf(),
            match r {
                Ok(w) => {
                    &&& head.sdk_key matches Some(key)
                    &&& w.0@ == request_context(*head, key@)
                    &&& final(cache).shared() == shared_after(old(cache).shared(), w.0)
                    &&& final(cache).shared()[identity_key(w.0@.identity())] == w.0
                },
                Err(_) => head.sdk_key is None && final(cache).shared() == old(cache).shared(),
            },
    {
        let path = NormalizedPath::parse(head.path.as_str());
        let file_id = if path == NormalizedPath::V1DownloadIdListFile {
            parse_id_list_file_id(head.path.as_str())
        } else {
            None
        };
        let encodings = ParsedAcceptEncoding::from_header_values(
            &head.accept_encoding,
        ).acceptable_encodings();
        let supports_proto = request_helper::does_request_supports_proto(
            head.supports_proto_query,
            &head.supports_proto_header,
        );
        let accept_deltas = request_helper::does_request_accept_deltas(&head.query) || path
            == NormalizedPath::V2DownloadConfigSpecsDeltas;
        match &head.sdk_key {
            Some(sdk_key) => Ok(
                AuthorizedRequestContextWrapper(
                    cache.get_or_insert(
                        sdk_key.clone(),
                        path,
                        encodings,
                        supports_proto,
                        accept_deltas,
                        file_id,
                    ),
                ),
            ),
            None => Err(AuthError),
        }
    }
}

/// Of the encodings that a client accepts, Statsig's brotli and gzip count, in this order.
/// Plain text stands for a client that accepts neither, and for no other.
pub proof fn law_canonical_encodings_keep_what_counts(s: Seq<CompressionEncoder>)
    ensures
        canonical(s).contains(CompressionEncoder::StatsigBrotli) <==> s.contains(
            CompressionEncoder::StatsigBrotli,
        ),
        canonical(s).contains(CompressionEncoder::Gzip) <==> s.contains(CompressionEncoder::Gzip),
        canonical(s).contains(CompressionEncoder::PlainText) <==> !s.contains(
            CompressionEncoder::StatsigBrotli,
        ) && !s.contains(CompressionEncoder::Gzip),
        s.contains(CompressionEncoder::StatsigBrotli) ==> canonical(s)[0]
            == CompressionEncoder::StatsigBrotli,
        1 <= canonical(s).len() <= 2,
        forall|i: int|
            0 <= i < canonical(s).len() ==> #[trigger] canonical(s)[i]
                == CompressionEncoder::StatsigBrotli || canonical(s)[i] == CompressionEncoder::Gzip
                || canonical(s)[i] == CompressionEncoder::PlainText,
{
    let c = canonical(s);
    assert(c.contains(c[0]));
    if c.len() == 2 {
        assert(c.contains(c[1]));
    }
}

/// Times count for the specs and their deltas, of both versions, and for nothing else.
pub proof fn law_times_count_for_specs(
    sdk_key: Seq<char>,
    path: normalized_path::PathView,
    encodings: Seq<CompressionEncoder>,
)
    ensures
        new_context(sdk_key, path, encodings).use_lcut <==> path
            == normalized_path::PathView::V1DownloadConfigSpecs || path
            == normalized_path::PathView::V2DownloadConfigSpecs || path
            == normalized_path::PathView::V2DownloadConfigSpecsDeltas,
        new_context(sdk_key, path, encodings).sdk_key == sdk_key,
        new_context(sdk_key, path, encodings).path == path,
        new_context(sdk_key, path, encodings).encodings == canonical(encodings),
{
}

/// A shared context holds what was asked for.
pub proof fn law_shared_contexts_hold_the_request(q: SharedRequest)
    ensures
        ({
            let c = cached_context(
                q.sdk_key,
                q.path,
                q.encodings,
                q.supports_proto,
                q.accept_deltas,
                q.file_id,
            );
            &&& c.sdk_key == q.sdk_key
            &&& c.path == q.path
            &&& c.supports_proto == q.supports_proto
            &&& c.accept_deltas == q.accept_deltas
            &&& c.file_id == q.file_id
            &&& c.range_start is None
            &&& c.id_list_size is None
            &&& c.raw_path is None
            &&& c.raw_query is None
            &&& c == context_for(q)
        }),
{
}

/// The text of a context tells apart keys, and for one key, path and list of encodings
/// what the client is capable of.
pub proof fn law_context_texts_tell_keys_apart(a: ContextView, b: ContextView)
    requires
        !a.sdk_key.contains('|') && !b.sdk_key.contains('|'),
        context_text(a) == context_text(b),
    ensures
        a.sdk_key == b.sdk_key,
        a.path == b.path && a.encodings == b.encodings ==> a.supports_proto == b.supports_proto
            && a.accept_deltas == b.accept_deltas,
{
    let na = text::join_spec(debug_names(a.encodings), ", "@);
    let nb = text::join_spec(debug_names(b.encodings), ", "@);
    let start_a = normalized_path::path_text(a.path) + "|["@ + na + "]|"@;
    let start_b = normalized_path::path_text(b.path) + "|["@ + nb + "]|"@;
    let x = bool_name(a.supports_proto) + seq!['|'] + bool_name(a.accept_deltas);
    let y = bool_name(b.supports_proto) + seq!['|'] + bool_name(b.accept_deltas);
    lemma_context_text(
        a.sdk_key,
        normalized_path::path_text(a.path),
        na,
        bool_name(a.supports_proto),
        bool_name(a.accept_deltas),
    );
    lemma_context_text(
        b.sdk_key,
        normalized_path::path_text(b.path),
        nb,
        bool_name(b.supports_proto),
        bool_name(b.accept_deltas),
    );
    text::lemma_same_up_to(a.sdk_key, start_a + x, b.sdk_key, start_b + y, '|');
    if a.path == b.path && a.encodings == b.encodings {
        lemma_flags_apart(
            start_a,
            a.supports_proto,
            a.accept_deltas,
            b.supports_proto,
            b.accept_deltas,
        );
    }
}

proof fn lemma_context_text(
    key: Seq<char>,
    path: Seq<char>,
    names: Seq<char>,
    proto: Seq<char>,
    deltas: Seq<char>,
)
    ensures
        key + "|"@ + path + "|["@ + names + "]|"@ + proto + "|"@ + deltas == key + seq!['|'] + (path
            + "|["@ + names + "]|"@ + (proto + seq!['|'] + deltas)),
{
    reveal_strlit("|");
    assert("|"@ =~= seq!['|']);
    assert(key + "|"@ + path + "|["@ + names + "]|"@ + proto + "|"@ + deltas =~= key + seq!['|'] + (
    path + "|["@ + names + "]|"@ + (proto + seq!['|'] + deltas)));
}

proof fn lemma_flags_apart(start: Seq<char>, a: bool, b: bool, c: bool, d: bool)
    requires
        start + (bool_name(a) + seq!['|'] + bool_name(b)) == start + (bool_name(c) + seq!['|']
            + bool_name(d)),
    ensures
        a == c,
        b == d,
{
    reveal_strlit("true");
    reveal_strlit("false");
    let x = bool_name(a) + seq!['|'] + bool_name(b);
    let y = bool_name(c) + seq!['|'] + bool_name(d);
    assert(x =~= (start + x).skip(start.len() as int));
    assert(y =~= (start + y).skip(start.len() as int));
    assert("true"@.len() == 4 && "false"@.len() == 5);
    text::lemma_same_up_to(bool_name(a), bool_name(b), bool_name(c), bool_name(d), '|');
}

/// The file that a path names stands between the endpoint and the next slash, and is never
/// empty. No other path names a file.
pub proof fn law_paths_name_their_file(id: Seq<char>, rest: Seq<char>, s: Seq<char>)
    requires
        !id.contains('/'),
    ensures
        id.len() > 0 ==> id_list_file_id("/v1/download_id_list_file/"@ + id) == Some(id),
        id.len() > 0 ==> id_list_file_id("/v1/download_id_list_file/"@ + (id + seq!['/'] + rest))
            == Some(id),
        id_list_file_id("/v1/download_id_list_file/"@ + (seq!['/'] + rest)) is None,
        !text::has_prefix(s, "/v1/download_id_list_file/"@) ==> id_list_file_id(s) is None,
{
    let p = "/v1/download_id_list_file/"@;
    text::law_texts_start_and_end(p, id, id);
    text::law_texts_start_and_end(p, id + seq!['/'] + rest, id);
    text::law_texts_start_and_end(p, seq!['/'] + rest, id);
    text::lemma_run_len(id, '/');
    assert(id.take(id.len() as int) =~= id);
    text::law_texts_are_cut_at_the_first(id, rest, '/');
    let t = id + seq!['/'] + rest;
    text::lemma_run_len(t, '/');
    assert(t[id.len() as int] == '/');
    assert(t.contains('/'));
    assert((seq!['/'] + rest)[0] == '/');
}

/// The size in a header is read as the number that it writes, whatever space is around it.
/// A header that writes none is refused, and without the header there is no size.
pub proof fn law_sizes_are_read_from_the_header(value: Seq<char>, n: u64)
    ensures
        strict_file_size(None) == Ok::<Option<u64>, DownloadIdListFileRequestError>(None),
        text::trimmed(value) == text::decimal(n as nat) ==> strict_file_size(Some(value)) == Ok::<
            Option<u64>,
            DownloadIdListFileRequestError,
        >(Some(n)),
        strict_file_size(Some(value)) is Err <==> text::parse_unsigned(
            text::trimmed(value),
            u64::MAX as int,
        ) is None,
        strict_file_size(Some(value)) is Err ==> strict_file_size(Some(value))->Err_0
            == DownloadIdListFileRequestError::InvalidIdListFileSize,
        strict_file_size(Some(value)) is Ok ==> strict_file_size(Some(value))->Ok_0 is Some,
{
    text::law_numbers_are_read_back(n as nat, n as nat, u64::MAX as int);
}

/// A range is one from a first byte on to the end. Ranges with an end, without a start, of
/// other units and of several parts are refused.
pub proof fn law_ranges_are_open(value: Seq<char>, n: u64, start: Seq<char>, end: Seq<char>)
    ensures
        strict_range_start(None) == Ok::<Option<u64>, DownloadIdListFileRequestError>(None),
        text::trimmed(value) == "bytes="@ + (text::decimal(n as nat) + seq!['-'])
            ==> strict_range_start(Some(value)) == Ok::<
            Option<u64>,
            DownloadIdListFileRequestError,
        >(Some(n)),
        !start.contains('-') && (end.len() > 0 || start.len() == 0) && text::trimmed(value)
            == "bytes="@ + (start + seq!['-'] + end) ==> strict_range_start(Some(value)) is Err,
        !start.contains('-') && text::trimmed(value) == "bytes="@ + start ==> strict_range_start(
            Some(value),
        ) is Err,
        start.contains(',') && text::trimmed(value) == "bytes="@ + start ==> strict_range_start(
            Some(value),
        ) is Err,
        !text::has_prefix(text::trimmed(value), "bytes="@) ==> strict_range_start(
            Some(value),
        ) is Err,
        strict_range_start(Some(value)) is Err ==> strict_range_start(Some(value))->Err_0
            == DownloadIdListFileRequestError::InvalidRange,
        strict_range_start(Some(value)) is Ok ==> strict_range_start(Some(value))->Ok_0 is Some,
{
    let d = text::decimal(n as nat);
    text::law_numbers_are_read_back(n as nat, n as nat, u64::MAX as int);
    text::lemma_decimal_round_trip(n as nat);
    text::law_texts_start_and_end("bytes="@, d + seq!['-'], d);
    text::law_texts_start_and_end("bytes="@, start + seq!['-'] + end, d);
    text::law_texts_start_and_end("bytes="@, start, d);
    text::law_texts_are_cut_at_the_first(d, Seq::empty(), '-');
    assert(d + seq!['-'] + Seq::<char>::empty() =~= d + seq!['-']);
    if (d + seq!['-']).contains(',') {
        let i = choose|i: int| 0 <= i < d.len() + 1 && (d + seq!['-'])[i] == ',';
        if i < d.len() {
            assert(text::is_digit(d[i]));
        }
    }
    if !start.contains('-') {
        text::law_texts_are_cut_at_the_first(start, end, '-');
    }
}

/// The key of a download is the one that the header or the query names. Where both name
/// one they have to agree, and where neither does there is none.
pub proof fn law_downloads_have_one_key(
    header: Option<Seq<char>>,
    signed: Option<Seq<char>>,
    key: Seq<char>,
)
    ensures
        download_key(header, signed) == Ok::<Seq<char>, DownloadIdListFileRequestError>(key) <==> (
        header is Some || signed is Some) && (header is Some ==> header == Some(key)) && (
        signed is Some ==> signed == Some(key)),
        download_key(header, signed) is Err && download_key(header, signed)->Err_0
            == DownloadIdListFileRequestError::MissingSdkKey <==> header is None && signed is None,
        download_key(header, signed) is Err && download_key(header, signed)->Err_0
            == DownloadIdListFileRequestError::ConflictingSdkKey <==> header is Some
            && signed is Some && header != signed,
        download_key(header, signed) is Err ==> header is None && signed is None || header is Some
            && signed is Some && header != signed,
{
}

/// A download is let through exactly where it has one key, names a file, and has no range
/// and no size that cannot be read. It is then for that key, file, range and size. The
/// first of these that fails is what it is refused for.
pub proof fn law_downloads_are_let_through(head: RequestHead, signed: Option<Seq<char>>)
    ensures
        ({
            let g = download_guard(head, signed);
            let key = download_key(text::text_option(head.sdk_key), signed);
            let id = id_list_file_id(head.path@);
            let range = strict_range_start(text::text_option(head.range));
            let size = strict_file_size(text::text_option(head.id_list_file_size));
            &&& g is Authorized <==> key is Ok && id is Some && range is Ok && size is Ok
            &&& g matches GuardView::Authorized(c) ==> {
                &&& key == Ok::<Seq<char>, DownloadIdListFileRequestError>(c.sdk_key)
                &&& c.file_id == id
                &&& range == Ok::<Option<u64>, DownloadIdListFileRequestError>(c.range_start)
                &&& size == Ok::<Option<u64>, DownloadIdListFileRequestError>(c.id_list_size)
                &&& c.path == normalized_path::PathView::V1DownloadIdListFile
                &&& !c.use_lcut
                &&& c.raw_path == Some(head.path@)
                &&& c.raw_query == text::text_option(head.query)
                &&& c.encodings == canonical(head.accepted())
            }
            &&& key matches Err(e) ==> g == GuardView::Invalid(e)
            &&& key is Ok && id is None ==> g == GuardView::Invalid(
                DownloadIdListFileRequestError::MissingFileId,
            )
            &&& key is Ok && id is Some && range is Err ==> g == GuardView::Invalid(
                DownloadIdListFileRequestError::InvalidRange,
            )
            &&& key is Ok && id is Some && range is Ok && size is Err ==> g == GuardView::Invalid(
                DownloadIdListFileRequestError::InvalidIdListFileSize,
            )
        }),
{
}

/// The context of a request has its key and endpoint, a file only on the endpoint of
/// files, and takes deltas where it asks for them or is for them.
pub proof fn law_requests_become_contexts(head: RequestHead, sdk_key: Seq<char>)
    ensures
        ({
            let c = request_context(head, sdk_key);
            &&& c.sdk_key == sdk_key
            &&& c.path == normalized_path::path_named(head.path@)
            &&& c.encodings == canonical(head.accepted())
            &&& c.supports_proto == head.takes_proto()
            &&& c.accept_deltas <==> head.asks_for_deltas() || c.path
                == normalized_path::PathView::V2DownloadConfigSpecsDeltas
            &&& c.path == normalized_path::PathView::V1DownloadIdListFile ==> c.file_id
                == id_list_file_id(head.path@)
            &&& c.path != normalized_path::PathView::V1DownloadIdListFile ==> c.file_id is None
            &&& c.range_start is None
        }),
{
}

} // verus!
