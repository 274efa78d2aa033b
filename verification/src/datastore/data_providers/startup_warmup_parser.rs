//! The requests that are made at startup, before anyone asks for them.

use crate::datastore::sdk_key_store::SdkKeyStoreItem;
use crate::json;
use crate::json::JsonShape;
use crate::servers::authorized_request_context;
use crate::servers::authorized_request_context::AuthorizedRequestContext;
use crate::servers::normalized_path;
use crate::servers::normalized_path::NormalizedPath;
use crate::text;
use crate::utils::compress_encoder;
use crate::utils::compress_encoder::{CompressionEncoder, ParsedAcceptEncoding};
use std::sync::Arc;
use vstd::prelude::*;

verus! {

/// The variable that holds the requests.
pub const STARTUP_WARMUP_KEYS_ENV: &'static str = "SFP_STARTUP_WARMUP_KEYS_JSON";

/// One configured request.
#[derive(Debug)]
pub struct StartupWarmupKeyConfig {
    pub sdk_key: String,
    pub path: String,
    pub encodings: Option<Vec<String>>,
}

/// The model of a configured request.
pub struct ConfigView {
    pub sdk_key: Seq<char>,
    pub path: Seq<char>,
    pub encodings: Option<Seq<Seq<char>>>,
}

impl View for StartupWarmupKeyConfig {
    type V = ConfigView;

    open spec fn view(&self) -> ConfigView {
        ConfigView {
            sdk_key: self.sdk_key@,
            path: self.path@,
            encodings: json::texts_option(self.encodings),
        }
    }
}

pub open spec fn config_option(o: Option<StartupWarmupKeyConfig>) -> Option<ConfigView> {
    match o {
        Some(c) => Some(c@),
        None => None,
    }
}

/// What was configured, and how much of it can be used.
#[derive(Debug)]
pub struct StartupWarmupParseResult {
    pub configured_count: usize,
    pub invalid_count: usize,
    pub store_items: Vec<SdkKeyStoreItem>,
}

/// Why a configuration, or one request of it, cannot be used.
#[derive(Debug)]
pub enum StartupWarmupParseError {
    InvalidUtf8Env,
    InvalidJson(String),
    EmptySdkKey,
    InvalidSdkKeyPrefix,
    UnsupportedPath(String),
    InvalidEncodings(String),
}

/// The model of such a reason.
pub enum WarmupErrorView {
    InvalidUtf8Env,
    InvalidJson(Seq<char>),
    EmptySdkKey,
    InvalidSdkKeyPrefix,
    UnsupportedPath(Seq<char>),
    InvalidEncodings(Seq<char>),
}

impl View for StartupWarmupParseError {
    type V = WarmupErrorView;

    open spec fn view(&self) -> WarmupErrorView {
        match self {
            StartupWarmupParseError::InvalidUtf8Env => WarmupErrorView::InvalidUtf8Env,
            StartupWarmupParseError::InvalidJson(e) => WarmupErrorView::InvalidJson(e@),
            StartupWarmupParseError::EmptySdkKey => WarmupErrorView::EmptySdkKey,
            StartupWarmupParseError::InvalidSdkKeyPrefix => WarmupErrorView::InvalidSdkKeyPrefix,
            StartupWarmupParseError::UnsupportedPath(p) => WarmupErrorView::UnsupportedPath(p@),
            StartupWarmupParseError::InvalidEncodings(e) => WarmupErrorView::InvalidEncodings(e@),
        }
    }
}

/// The text of such a reason.
pub open spec fn error_text(e: WarmupErrorView) -> Seq<char> {
    match e {
        WarmupErrorView::InvalidUtf8Env => "SFP_STARTUP_WARMUP_KEYS_JSON is not valid UTF-8"@,
        WarmupErrorView::InvalidJson(t) => "invalid JSON for SFP_STARTUP_WARMUP_KEYS_JSON: "@ + t,
        WarmupErrorView::EmptySdkKey => "sdk_key cannot be empty"@,
        WarmupErrorView::InvalidSdkKeyPrefix =>
            "sdk_key must start with one of: client-, secret-, server-"@,
        WarmupErrorView::UnsupportedPath(p) => "unsupported path `"@ + p + "`"@,
        WarmupErrorView::InvalidEncodings(t) => t,
    }
}

impl StartupWarmupParseError {
    pub fn to_string(&self) -> (r: String)
        ensures
            r@ == error_text(self@),
    {
        match self {
            StartupWarmupParseError::InvalidUtf8Env =>
                "SFP_STARTUP_WARMUP_KEYS_JSON is not valid UTF-8".to_owned(),
            StartupWarmupParseError::InvalidJson(e) => {
                let mut r = "invalid JSON for SFP_STARTUP_WARMUP_KEYS_JSON: ".to_owned();
                r.append(e.as_str());
                r
            },
            StartupWarmupParseError::EmptySdkKey => "sdk_key cannot be empty".to_owned(),
            StartupWarmupParseError::InvalidSdkKeyPrefix =>
                "sdk_key must start with one of: client-, secret-, server-".to_owned(),
            StartupWarmupParseError::UnsupportedPath(p) => {
                let mut r = "unsupported path `".to_owned();
                r.append(p.as_str());
                r.append("`");
                r
            },
            StartupWarmupParseError::InvalidEncodings(e) => e.clone(),
        }
    }
}

/// The endpoint that a configured path names, where it is one that can be warmed
/// up.
pub open spec fn warmup_path(path: Seq<char>) -> Option<normalized_path::PathView> {
    let p = normalized_path::path_named(text::trim_end_char(text::trimmed(path), '/'));
    if p is V1DownloadConfigSpecs || p is V2DownloadConfigSpecs || p is V1GetIdLists {
        Some(p)
    } else {
        None
    }
}

pub fn parse_startup_warmup_path(path: &str) -> (r: Result<NormalizedPath, StartupWarmupParseError>)
    ensures
        match r {
            Ok(p) => warmup_path(path@) == Some(p@),
            Err(e) => warmup_path(path@) is None && e@ == WarmupErrorView::UnsupportedPath(path@),
        },
{
    let raw_path = text::trim_end_matches(text::trim(path), '/');
    let parsed = NormalizedPath::parse(raw_path);
    match parsed {
        NormalizedPath::V1DownloadConfigSpecs
        | NormalizedPath::V2DownloadConfigSpecs
        | NormalizedPath::V1GetIdLists => Ok(parsed),
        _ => Err(StartupWarmupParseError::UnsupportedPath(path.to_owned())),
    }
}

/// The encodings that a header value accepts and that change a payload.
pub open spec fn accepted_encodings(value: Seq<char>) -> Seq<CompressionEncoder> {
    compress_encoder::ordered(
        |e: CompressionEncoder| compress_encoder::accepts(value, e),
    ).filter(|e: CompressionEncoder| compress_encoder::is_transforming(e))
}

/// The encodings of a configured request: none where none are configured, and an
/// error where the list is there but empty.
pub open spec fn warmup_encodings(encodings: Option<Seq<Seq<char>>>) -> Option<
    Seq<CompressionEncoder>,
> {
    match encodings {
        None => Some(Seq::empty()),
        Some(names) => if names.len() == 0 {
            None
        } else {
            Some(accepted_encodings(text::join_spec(names, ","@)))
        },
    }
}

pub fn parse_startup_warmup_encodings(encodings: &Option<Vec<String>>) -> (r: Result<
    Vec<CompressionEncoder>,
    StartupWarmupParseError,
>)
    ensures
        match r {
            Ok(v) => warmup_encodings(json::texts_option(*encodings)) == Some(v@),
            Err(e) => warmup_encodings(json::texts_option(*encodings)) is None && e@
                == WarmupErrorView::InvalidEncodings("encodings cannot be empty"@),
        },
{
    match encodings {
        None => {
            let none: Vec<CompressionEncoder> = Vec::new();
            assert(none@ =~= Seq::<CompressionEncoder>::empty());
            Ok(none)
        },
        Some(names) => {
            if names.len() == 0 {
                return Err(
                    StartupWarmupParseError::InvalidEncodings(
                        "encodings cannot be empty".to_owned(),
                    ),
                );
            }
            let joined = text::join(names, ",");
            Ok(ParsedAcceptEncoding::from_raw_value(joined.as_str()).acceptable_encodings())
        },
    }
}

/// What is wrong with a key, where anything is.
pub open spec fn key_failure(sdk_key: Seq<char>) -> Option<WarmupErrorView> {
    if sdk_key.len() == 0 {
        Some(WarmupErrorView::EmptySdkKey)
    } else if text::has_prefix(sdk_key, "client-"@) || text::has_prefix(sdk_key, "secret-"@)
        || text::has_prefix(sdk_key, "server-"@) {
        None
    } else {
        Some(WarmupErrorView::InvalidSdkKeyPrefix)
    }
}

pub fn validate_startup_warmup_sdk_key(sdk_key: &str) -> (r: Result<(), StartupWarmupParseError>)
    ensures
        match r {
            Ok(_) => key_failure(sdk_key@) is None,
            Err(e) => key_failure(sdk_key@) == Some(e@),
        },
{
    if sdk_key.is_empty() {
        return Err(StartupWarmupParseError::EmptySdkKey);
    }
    if text::starts_with(sdk_key, "client-") || text::starts_with(sdk_key, "secret-")
        || text::starts_with(sdk_key, "server-") {
        Ok(())
    } else {
        Err(StartupWarmupParseError::InvalidSdkKeyPrefix)
    }
}

/// The context of a configured request, or what is wrong with it.
pub open spec fn warmup_context(c: ConfigView) -> Result<
    authorized_request_context::ContextView,
    WarmupErrorView,
> {
    let key = text::trimmed(c.sdk_key);
    match key_failure(key) {
        Some(e) => Err(e),
        None => match warmup_path(c.path) {
            None => Err(WarmupErrorView::UnsupportedPath(c.path)),
            Some(path) => match warmup_encodings(c.encodings) {
                None => Err(WarmupErrorView::InvalidEncodings("encodings cannot be empty"@)),
                Some(encodings) => Ok(
                    authorized_request_context::new_context(key, path, encodings),
                ),
            },
        },
    }
}

/// A configured request as it is registered.
pub fn parse_startup_warmup_item(config: &StartupWarmupKeyConfig) -> (r: Result<
    SdkKeyStoreItem,
    StartupWarmupParseError,
>)
    ensures
        match r {
            Ok(item) => item.lcut == 0 && warmup_context(config@) == Ok::<
                authorized_request_context::ContextView,
                WarmupErrorView,
            >(item.request_context@),
            Err(e) => warmup_context(config@) == Err::<
                authorized_request_context::ContextView,
                WarmupErrorView,
            >(e@),
        },
{
    let sdk_key = text::trim(config.sdk_key.as_str());
    if let Err(e) = validate_startup_warmup_sdk_key(sdk_key) {
        return Err(e);
    }
    let path = match parse_startup_warmup_path(config.path.as_str()) {
        Ok(path) => path,
        Err(e) => {
            return Err(e);
        },
    };
    let encodings = match parse_startup_warmup_encodings(&config.encodings) {
        Ok(encodings) => encodings,
        Err(e) => {
            return Err(e);
        },
    };
    Ok(
        SdkKeyStoreItem {
            request_context: Arc::new(
                AuthorizedRequestContext::new(sdk_key.to_owned(), path, encodings),
            ),
            lcut: 0,
        },
    )
}

/// The encodings that a JSON value configures: none for null, else a list of
/// texts.
pub open spec fn encodings_value(raw: Seq<char>) -> Option<Option<Seq<Seq<char>>>> {
    match json::json_value(raw) {
        Ok(json::ShapeView::Null) => Some(None),
        Ok(json::ShapeView::List(raws)) => match json::json_texts(raws) {
            Some(names) => Some(Some(names)),
            None => None,
        },
        _ => None,
    }
}

fn read_encodings(raw: &str) -> (r: Option<Option<Vec<String>>>)
    ensures
        (match r {
            Some(e) => Some(json::texts_option(e)),
            None => None,
        }) == encodings_value(raw@),
{
    match json::parse_json(raw) {
        Ok(JsonShape::Null) => Some(None),
        Ok(JsonShape::List(raws)) => match json::read_texts(&raws) {
            Some(names) => Some(Some(names)),
            None => None,
        },
        _ => None,
    }
}

/// A configured request, from the JSON of its parts.
pub open spec fn config_from(
    sdk_key: Option<Seq<char>>,
    path: Option<Seq<char>>,
    encodings: Option<Seq<char>>,
) -> Option<ConfigView> {
    let names = match encodings {
        Some(raw) => encodings_value(raw),
        None => Some(None),
    };
    match (sdk_key, path, names) {
        (Some(k), Some(p), Some(e)) => match (json::json_text(k), json::json_text(p)) {
            (Some(sdk_key), Some(path)) => Some(ConfigView { sdk_key, path, encodings: e }),
            _ => None,
        },
        _ => None,
    }
}

/// A configured request, where a JSON value describes one: an object with a text
/// for the key and one for the path, and maybe a list of encodings, or the same
/// three in a list.
pub open spec fn warmup_config(raw: Seq<char>) -> Option<ConfigView> {
    match json::json_value(raw) {
        Ok(json::ShapeView::Object(pairs)) => config_from(
            text::first_value(pairs, "sdk_key"@),
            text::first_value(pairs, "path"@),
            text::first_value(pairs, "encodings"@),
        ),
        Ok(json::ShapeView::List(raws)) => if raws.len() == 3 {
            config_from(Some(raws[0]), Some(raws[1]), Some(raws[2]))
        } else {
            None
        },
        _ => None,
    }
}

fn read_config_parts(sdk_key: Option<&str>, path: Option<&str>, encodings: Option<&str>) -> (r:
    Option<StartupWarmupKeyConfig>)
    ensures
        config_option(r) == config_from(
            (match sdk_key {
                Some(t) => Some(t@),
                None => None,
            }),
            (match path {
                Some(t) => Some(t@),
                None => None,
            }),
            (match encodings {
                Some(t) => Some(t@),
                None => None,
            }),
        ),
{
    let names = match encodings {
        Some(raw) => read_encodings(raw),
        None => Some(None),
    };
    match (sdk_key, path, names) {
        (Some(k), Some(p), Some(e)) => match (json::read_text(k), json::read_text(p)) {
            (Some(sdk_key), Some(path)) => Some(
                StartupWarmupKeyConfig { sdk_key, path, encodings: e },
            ),
            _ => None,
        },
        _ => None,
    }
}

/// Reads a configured request.
pub fn read_warmup_config(raw: &str) -> (r: Option<StartupWarmupKeyConfig>)
    ensures
        config_option(r) == warmup_config(raw@),
{
    match json::parse_json(raw) {
        Ok(JsonShape::Object(pairs)) => read_config_parts(
            text::find_value(&pairs, "sdk_key"),
            text::find_value(&pairs, "path"),
            text::find_value(&pairs, "encodings"),
        ),
        Ok(JsonShape::List(raws)) => if raws.len() == 3 {
            assert(text::texts(raws@)[0] == raws@[0]@);
            assert(text::texts(raws@)[1] == raws@[1]@);
            assert(text::texts(raws@)[2] == raws@[2]@);
            read_config_parts(
                Some(raws[0].as_str()),
                Some(raws[1].as_str()),
                Some(raws[2].as_str()),
            )
        } else {
            None
        },
        _ => None,
    }
}

/// The contexts of the configured requests that can be used, in order.
pub open spec fn usable(raws: Seq<Seq<char>>) -> Seq<authorized_request_context::ContextView>
    decreases raws.len(),
{
    if raws.len() == 0 {
        Seq::empty()
    } else {
        let rest = usable(raws.drop_last());
        match warmup_config(raws.last()) {
            Some(c) => match warmup_context(c) {
                Ok(context) => rest.push(context),
                Err(_) => rest,
            },
            None => rest,
        }
    }
}

/// The contexts of some registered requests.
pub open spec fn contexts_of(items: Seq<SdkKeyStoreItem>) -> Seq<
    authorized_request_context::ContextView,
> {
    Seq::new(items.len(), |i: int| items[i].request_context@)
}

impl StartupWarmupParseResult {
    /// What a list of entries comes to: one request for each entry that can be
    /// used, in their order and none of them answered yet, and a count of the rest.
    pub open spec fn holds(self, raws: Seq<Seq<char>>) -> bool {
        &&& self.configured_count == raws.len()
        &&& self.invalid_count + self.store_items@.len() == raws.len()
        &&& contexts_of(self.store_items@) == usable(raws)
        &&& forall|i: int|
            0 <= i < self.store_items@.len() ==> (#[trigger] self.store_items@[i]).lcut == 0
    }
}

/// Picks the requests that can be used. One that cannot does not spoil the rest.
pub fn read_warmup_entries(entries: &Vec<String>) -> (r: StartupWarmupParseResult)
    ensures
        r.holds(text::texts(entries@)),
{
    let mut invalid_count: usize = 0;
    let mut store_items: Vec<SdkKeyStoreItem> = Vec::new();
    let mut i: usize = 0;
    let ghost raws = text::texts(entries@);
    assert(contexts_of(store_items@) =~= usable(raws.take(0)));
    while i < entries.len()
        invariant
            i <= entries@.len(),
            raws == text::texts(entries@),
            invalid_count + store_items@.len() == i,
            contexts_of(store_items@) == usable(raws.take(i as int)),
            forall|j: int| 0 <= j < store_items@.len() ==> (#[trigger] store_items@[j]).lcut == 0,
        decreases entries@.len() - i,
    {
        let ghost before = store_items@;
        assert(raws.take(i + 1).drop_last() =~= raws.take(i as int));
        assert(raws.take(i + 1).last() == entries@[i as int]@);
        match read_warmup_config(entries[i].as_str()) {
            Some(config) => match parse_startup_warmup_item(&config) {
                Ok(item) => {
                    store_items.push(item);
                    assert(contexts_of(store_items@) =~= contexts_of(before).push(
                        item.request_context@,
                    ));
                },
                Err(_) => {
                    invalid_count += 1;
                },
            },
            None => {
                invalid_count += 1;
            },
        }
        i += 1;
    }
    assert(raws.take(i as int) =~= raws);
    StartupWarmupParseResult { configured_count: entries.len(), invalid_count, store_items }
}

/// Reads a configuration, which is a list in JSON.
pub fn parse_startup_warmup_keys_json(raw: &str) -> (r: Result<
    StartupWarmupParseResult,
    StartupWarmupParseError,
>)
    ensures
        match json::json_elements(raw@) {
            Ok(raws) => r matches Ok(p) && p.holds(raws),
            Err(reason) => r matches Err(e) && e@ == WarmupErrorView::InvalidJson(reason),
        },
{
    match json::parse_json_list(raw) {
        Ok(entries) => Ok(read_warmup_entries(&entries)),
        Err(reason) => Err(StartupWarmupParseError::InvalidJson(reason)),
    }
}

/// What a variable of the environment holds.
#[derive(Debug)]
pub enum EnvValue {
    Missing,
    NotUnicode,
    Text(String),
}

/// The requests to make at startup, where any are configured.
pub fn load_startup_warmup_keys_from_env(value: &EnvValue) -> (r: Result<
    Option<StartupWarmupParseResult>,
    StartupWarmupParseError,
>)
    ensures
        match value {
            EnvValue::Missing => r matches Ok(None),
            EnvValue::NotUnicode => r matches Err(e) && e@ == WarmupErrorView::InvalidUtf8Env,
            EnvValue::Text(raw) => if text::trimmed(raw@).len() == 0 {
                r matches Ok(None)
            } else {
                match json::json_elements(raw@) {
                    Ok(raws) => r matches Ok(Some(p)) && p.holds(raws),
                    Err(reason) => r matches Err(e) && e@ == WarmupErrorView::InvalidJson(reason),
                }
            },
        },
{
    match value {
        EnvValue::Missing => Ok(None),
        EnvValue::NotUnicode => Err(StartupWarmupParseError::InvalidUtf8Env),
        EnvValue::Text(raw) => {
            if text::trim(raw.as_str()).is_empty() {
                return Ok(None);
            }
            match parse_startup_warmup_keys_json(raw.as_str()) {
                Ok(p) => Ok(Some(p)),
                Err(e) => Err(e),
            }
        },
    }
}

/// Requests that are warmed up share their contexts with those that clients make:
/// the encodings are those of an `Accept-Encoding` header with the same names.
pub proof fn law_warmups_match_live_requests(
    c: ConfigView,
    head: authorized_request_context::RequestHead,
)
    requires
        warmup_context(c) is Ok,
        c.encodings is Some,
        text::join_spec(c.encodings->0, ","@) == head.accept_encoding_value(),
        !head.takes_proto(),
        !head.asks_for_deltas(),
        normalized_path::path_named(head.path@) == (warmup_context(c)->Ok_0).path,
    ensures
        authorized_request_context::request_context(head, text::trimmed(c.sdk_key)).identity() == (
        warmup_context(c)->Ok_0).identity(),
{
}

/// A key warms up the proxy where it starts as keys do, and an empty one is told apart from
/// any other that does not.
pub proof fn law_warmups_need_a_key(key: Seq<char>, rest: Seq<char>)
    ensures
        key_failure("client-"@ + rest) is None,
        key_failure("secret-"@ + rest) is None,
        key_failure("server-"@ + rest) is None,
        key_failure(key) == Some(WarmupErrorView::EmptySdkKey) <==> key.len() == 0,
        key_failure(key) == Some(WarmupErrorView::InvalidSdkKeyPrefix) <==> key.len() > 0
            && !text::has_prefix(key, "client-"@) && !text::has_prefix(key, "secret-"@)
            && !text::has_prefix(key, "server-"@),
{
    reveal_strlit("client-");
    reveal_strlit("secret-");
    reveal_strlit("server-");
    text::law_texts_start_and_end("client-"@, rest, key);
    text::law_texts_start_and_end("secret-"@, rest, key);
    text::law_texts_start_and_end("server-"@, rest, key);
    assert("client-"@.len() == 7 && "secret-"@.len() == 7 && "server-"@.len() == 7);
}

/// The specs of both versions and the lists can be warmed up, whatever slash their path
/// ends with, and nothing else.
pub proof fn law_specs_and_lists_are_warmed_up(path: Seq<char>)
    ensures
        ({
            let p = normalized_path::path_named(
                text::trim_end_char(text::trimmed(path), '/'),
            );
            &&& warmup_path(path) is Some ==> warmup_path(path) == Some(p)
            &&& warmup_path(path) is Some <==> p == normalized_path::PathView::V1DownloadConfigSpecs
                || p == normalized_path::PathView::V2DownloadConfigSpecs || p
                == normalized_path::PathView::V1GetIdLists
        }),
{
}

/// An entry is taken exactly where its key, path and encodings are, and is then for those.
/// The first of them that is not is what it is refused for.
pub proof fn law_warmups_are_for_what_they_name(c: ConfigView)
    ensures
        ({
            let key = text::trimmed(c.sdk_key);
            let r = warmup_context(c);
            &&& r is Ok <==> key_failure(key) is None && warmup_path(c.path) is Some
                && warmup_encodings(c.encodings) is Some
            &&& r matches Ok(context) ==> {
                &&& context.sdk_key == key
                &&& warmup_path(c.path) == Some(context.path)
                &&& context.encodings == authorized_request_context::canonical(
                    warmup_encodings(c.encodings)->0,
                )
                &&& !context.supports_proto
                &&& !context.accept_deltas
                &&& context.file_id is None
            }
            &&& key_failure(key) matches Some(e) ==> r == Err::<
                authorized_request_context::ContextView,
                WarmupErrorView,
            >(e)
            &&& key_failure(key) is None && warmup_path(c.path) is None ==> r == Err::<
                authorized_request_context::ContextView,
                WarmupErrorView,
            >(WarmupErrorView::UnsupportedPath(c.path))
        }),
{
}

/// The encodings of an entry are those that it names, and an entry that lists none is not
/// taken.
pub proof fn law_warmups_name_their_encodings(
    encodings: Seq<CompressionEncoder>,
    e: CompressionEncoder,
)
    ensures
        warmup_encodings(None) == Some(Seq::<CompressionEncoder>::empty()),
        warmup_encodings(Some(Seq::empty())) is None,
        encodings.len() > 0 ==> {
            let r = warmup_encodings(Some(compress_encoder::names(encodings)));
            &&& r is Some
            &&& r->0.contains(e) <==> encodings.contains(e) && e != CompressionEncoder::PlainText
                && e != CompressionEncoder::Identity
        },
{
    if encodings.len() > 0 {
        reveal_strlit(",");
        assert(","@ =~= seq![',']);
        compress_encoder::law_listed_encodings_are_accepted(encodings, e);
        let value = text::join_spec(compress_encoder::names(encodings), ","@);
        let f = |x: CompressionEncoder| compress_encoder::accepts(value, x);
        compress_encoder::law_ordered_encodings(f);
        let all = compress_encoder::ordered(f);
        let g = |x: CompressionEncoder| compress_encoder::is_transforming(x);
        compress_encoder::lemma_filter_keeps(all, g, e);
    }
}

/// The entries that can be used are those that can be read and are taken, in their order.
pub proof fn law_usable_warmups_are_kept(raws: Seq<Seq<char>>)
    ensures
        usable(raws) == raws.filter(|raw: Seq<char>| is_usable(raw)).map_values(
            |raw: Seq<char>| warmup_context(warmup_config(raw)->0)->Ok_0,
        ),
    decreases raws.len(),
{
    reveal(Seq::filter);
    let good = |raw: Seq<char>| is_usable(raw);
    let read = |raw: Seq<char>| warmup_context(warmup_config(raw)->0)->Ok_0;
    if raws.len() > 0 {
        law_usable_warmups_are_kept(raws.drop_last());
        let rest = raws.drop_last().filter(good);
        assert(rest.push(raws.last()).map_values(read) =~= rest.map_values(read).push(
            read(raws.last()),
        ));
    } else {
        assert(raws.filter(good).map_values(read) =~= usable(raws));
    }
}

/// Whether an entry can be read and is taken.
pub open spec fn is_usable(raw: Seq<char>) -> bool {
    warmup_config(raw) is Some && warmup_context(warmup_config(raw)->0) is Ok
}

/// An entry is read where it has a key and a path that are texts, and its encodings are a
/// list of texts, null or missing.
pub proof fn law_entries_need_a_key_and_a_path(
    key: Seq<char>,
    path: Seq<char>,
    encodings: Option<Seq<char>>,
)
    ensures
        config_from(None, Some(path), encodings) is None,
        config_from(Some(key), None, encodings) is None,
        config_from(Some(key), Some(path), encodings) is Some <==> json::json_text(key) is Some
            && json::json_text(path) is Some && (encodings is Some ==> encodings_value(
            encodings->0,
        ) is Some),
        config_from(Some(key), Some(path), encodings) matches Some(c) ==> json::json_text(key)
            == Some(c.sdk_key) && json::json_text(path) == Some(c.path) && (encodings is None
            ==> c.encodings is None) && (encodings is Some ==> encodings_value(encodings->0)
            == Some(c.encodings)),
{
}

/// Every entry is counted once: as one that is used, or as one that is not.
pub proof fn law_entries_are_counted_once(r: StartupWarmupParseResult, raws: Seq<Seq<char>>)
    requires
        r.holds(raws),
    ensures
        r.configured_count == raws.len(),
        r.store_items@.len() == raws.filter(|raw: Seq<char>| is_usable(raw)).len(),
        r.invalid_count == raws.len() - raws.filter(|raw: Seq<char>| is_usable(raw)).len(),
{
    law_usable_warmups_are_kept(raws);
    assert(contexts_of(r.store_items@).len() == r.store_items@.len());
}

} // verus!
