//! Specs in Redis, shared by all proxies: one of them, the leader, writes, and
//! all of them read.

use crate::codecs;
use crate::datastore::caching::redis_config;
use crate::datastore::config_spec_store::ConfigSpecForCompany;
use crate::datastore::data_providers::http_data_provider;
use crate::datastore::data_providers::http_data_provider::ResponsePayload;
use crate::datastore::data_providers::DataProviderRequestResult;
use crate::keyed_store;
use crate::keyed_store::{KeyedStore, StoreKey};
use crate::observers;
use crate::observers::{ProxyEvent, ProxyEventType};
use crate::servers::authorized_request_context;
use crate::servers::authorized_request_context::AuthorizedRequestContext;
use crate::servers::normalized_path;
use crate::text;
use crate::utils::compress_encoder;
use crate::utils::compress_encoder::CompressionEncoder;
use std::sync::Arc;
use vstd::prelude::*;
use vstd::utf8::*;

verus! {

/// One command of a transaction.
#[derive(Debug)]
pub enum RedisCommand {
    Ttl { key: String },
    SetNx { key: String, value: String },
    Get { key: String },
    HGet { key: String, field: String },
    HSetText { key: String, field: String, value: String },
    HSetNumber { key: String, field: String, number: u64 },
    HSetBytes { key: String, field: String, bytes: Vec<u8> },
    Expire { key: String, seconds: i64 },
}

/// The model of a command.
pub enum CommandView {
    Ttl(Seq<char>),
    SetNx(Seq<char>, Seq<char>),
    Get(Seq<char>),
    HGet(Seq<char>, Seq<char>),
    HSetText(Seq<char>, Seq<char>, Seq<char>),
    HSetNumber(Seq<char>, Seq<char>, u64),
    HSetBytes(Seq<char>, Seq<char>, Seq<u8>),
    Expire(Seq<char>, i64),
}

impl View for RedisCommand {
    type V = CommandView;

    open spec fn view(&self) -> CommandView {
        match self {
            RedisCommand::Ttl { key } => CommandView::Ttl(key@),
            RedisCommand::SetNx { key, value } => CommandView::SetNx(key@, value@),
            RedisCommand::Get { key } => CommandView::Get(key@),
            RedisCommand::HGet { key, field } => CommandView::HGet(key@, field@),
            RedisCommand::HSetText { key, field, value } => CommandView::HSetText(
                key@,
                field@,
                value@,
            ),
            RedisCommand::HSetNumber { key, field, number } => CommandView::HSetNumber(
                key@,
                field@,
                *number,
            ),
            RedisCommand::HSetBytes { key, field, bytes } => CommandView::HSetBytes(
                key@,
                field@,
                bytes@,
            ),
            RedisCommand::Expire { key, seconds } => CommandView::Expire(key@, *seconds),
        }
    }
}

impl Clone for RedisCommand {
    fn clone(&self) -> (r: Self)
        ensures
            r@ == self@,
    {
        match self {
            RedisCommand::Ttl { key } => RedisCommand::Ttl { key: key.clone() },
            RedisCommand::SetNx { key, value } => RedisCommand::SetNx {
                key: key.clone(),
                value: value.clone(),
            },
            RedisCommand::Get { key } => RedisCommand::Get { key: key.clone() },
            RedisCommand::HGet { key, field } => RedisCommand::HGet {
                key: key.clone(),
                field: field.clone(),
            },
            RedisCommand::HSetText { key, field, value } => RedisCommand::HSetText {
                key: key.clone(),
                field: field.clone(),
                value: value.clone(),
            },
            RedisCommand::HSetNumber { key, field, number } => RedisCommand::HSetNumber {
                key: key.clone(),
                field: field.clone(),
                number: *number,
            },
            RedisCommand::HSetBytes { key, field, bytes } => RedisCommand::HSetBytes {
                key: key.clone(),
                field: field.clone(),
                bytes: bytes.clone(),
            },
            RedisCommand::Expire { key, seconds } => RedisCommand::Expire {
                key: key.clone(),
                seconds: *seconds,
            },
        }
    }
}

pub open spec fn commands(v: Seq<RedisCommand>) -> Seq<CommandView> {
    Seq::new(v.len(), |i: int| v[i]@)
}

fn clone_commands(v: &Vec<RedisCommand>) -> (r: Vec<RedisCommand>)
    ensures
        commands(r@) == commands(v@),
{
    let mut r: Vec<RedisCommand> = Vec::new();
    let mut i: usize = 0;
    while i < v.len()
        invariant
            i <= v@.len(),
            commands(r@) =~= commands(v@).take(i as int),
        decreases v@.len() - i,
    {
        let ghost before = r@;
        r.push(v[i].clone());
        assert(commands(r@) =~= commands(before).push(v@[i as int]@));
        i += 1;
    }
    assert(commands(v@).take(i as int) =~= commands(v@));
    r
}

/// The key of the leader, which all proxies agree on.
pub open spec fn leader_key_text(prefix: Seq<char>) -> Seq<char> {
    redis_config::prefixed(prefix, "statsig_forward_proxy::leader"@)
}

/// The digest of an SDK key, by which older readers find its specs.
pub open spec fn hashed_key(key: Seq<char>) -> Seq<char> {
    codecs::base64_text(codecs::sha256_digest(encode_utf8(key)))
}

/// The first 20 bytes of an SDK key.
pub open spec fn short_key(key: Seq<char>) -> Seq<char> {
    if text::byte_len(key) > 20 {
        text::byte_prefix(key, 20)
    } else {
        key
    }
}

/// The encoding that stands in a key: payloads are stored without compression,
/// and only binary ones are told apart.
pub open spec fn key_encoding(use_proto: Option<bool>) -> CompressionEncoder {
    if use_proto == Some(true) {
        CompressionEncoder::StatsigBrotli
    } else {
        CompressionEncoder::PlainText
    }
}

/// The key of some specs: path, encoding and SDK key between bars, behind the
/// prefix.
pub open spec fn redis_key_text(
    prefix: Seq<char>,
    context: authorized_request_context::ContextView,
    use_proto: Option<bool>,
    use_legacy: bool,
) -> Seq<char> {
    redis_config::prefixed(
        prefix,
        "statsig|"@ + text::trim_end_char(normalized_path::path_text(context.path), '/') + "|"@
            + compress_encoder::encoder_name(key_encoding(use_proto)) + "|"@ + (if use_legacy {
            hashed_key(context.sdk_key)
        } else {
            short_key(context.sdk_key)
        }),
    )
}

/// The cache of one proxy.
pub struct RedisCache {
    pub uuid: String,
    pub leader_key_ttl: i64,
    pub check_lcut: bool,
    pub redis_cache_ttl_in_s: i64,
    pub double_write_cache_for_legacy_key: bool,
    pub key_prefix: String,
    pub hash_cache: KeyedStore<String>,
}

pub open spec fn hash_cache_key(key: Seq<char>) -> keyed_store::KeyView {
    (seq![key], Seq::empty())
}

impl RedisCache {
    /// Every remembered digest is the one of its key.
    pub closed spec fn wf(&self) -> bool {
        &&& self.hash_cache.wf()
        &&& forall|key: Seq<char>| #[trigger]
            self.hash_cache@.contains_key(hash_cache_key(key)) ==> self.hash_cache@[hash_cache_key(
                key,
            )]@ == hashed_key(key)
    }

    /// Whether `self` is set up like `other`.
    pub open spec fn same_settings(&self, other: &Self) -> bool {
        &&& self.uuid == other.uuid
        &&& self.leader_key_ttl == other.leader_key_ttl
        &&& self.check_lcut == other.check_lcut
        &&& self.redis_cache_ttl_in_s == other.redis_cache_ttl_in_s
        &&& self.double_write_cache_for_legacy_key == other.double_write_cache_for_legacy_key
        &&& self.key_prefix == other.key_prefix
    }

    pub fn new(
        leader_key_ttl: i64,
        uuid: &str,
        check_lcut: bool,
        redis_cache_ttl_in_s: i64,
        double_write_cache_for_legacy_key: bool,
        key_prefix: String,
    ) -> (r: Self)
        ensures
            r.wf(),
            r.uuid@ == uuid@,
            r.leader_key_ttl == leader_key_ttl,
            r.check_lcut == check_lcut,
            r.redis_cache_ttl_in_s == redis_cache_ttl_in_s,
            r.double_write_cache_for_legacy_key == double_write_cache_for_legacy_key,
            r.key_prefix == key_prefix,
    {
        RedisCache {
            uuid: uuid.to_owned(),
            leader_key_ttl,
            check_lcut,
            redis_cache_ttl_in_s,
            double_write_cache_for_legacy_key,
            key_prefix,
            hash_cache: KeyedStore::new(),
        }
    }

    pub fn leader_key(&self) -> (r: String)
        ensures
            r@ == leader_key_text(self.key_prefix@),
    {
        redis_config::apply_key_prefix(
            self.key_prefix.as_str(),
            "statsig_forward_proxy::leader".to_owned(),
        )
    }

    /// The digest of an SDK key, remembered from now on.
    pub fn hash_key(&mut self, key: &str) -> (r: String)
        requires
            old(self).wf(),
        ensures
            final(self).wf(),
            final(self).same_settings(old(self)),
            r@ == hashed_key(key@),
    {
        let mut names: Vec<String> = Vec::new();
        names.push(key.to_owned());
        let store_key = StoreKey { names, numbers: Vec::new() };
        assert(store_key@.0 =~= seq![key@]);
        assert(store_key@ == hash_cache_key(key@));
        assert forall|k: Seq<char>| #[trigger]
            hash_cache_key(k) == hash_cache_key(key@) implies k == key@ by {
            assert(hash_cache_key(k).0[0] == hash_cache_key(key@).0[0]);
        }
        if let Some(found) = self.hash_cache.get(&store_key) {
            return found.clone();
        }
        let hashed = codecs::base64_encode(codecs::sha256(key.as_bytes()).as_slice());
        self.hash_cache.insert(store_key, hashed.clone());
        hashed
    }

    /// The key under which the specs of a context are stored.
    pub fn get_redis_key(
        &mut self,
        request_context: &AuthorizedRequestContext,
        use_proto: Option<bool>,
        use_legacy: bool,
    ) -> (r: String)
        requires
            old(self).wf(),
            !use_legacy ==> observers::is_loggable(request_context@.sdk_key),
        ensures
            final(self).wf(),
            final(self).same_settings(old(self)),
            r@ == redis_key_text(
                old(self).key_prefix@,
                request_context@,
                use_proto,
                use_legacy,
            ),
    {
        let encoding = match use_proto {
            Some(true) => CompressionEncoder::StatsigBrotli,
            _ => CompressionEncoder::PlainText,
        };
        let sdk_key = if use_legacy {
            self.hash_key(request_context.sdk_key.as_str())
        } else {
            let key = request_context.sdk_key.as_str();
            match text::cut_bytes(key, 20) {
                Some(k) => {
                    assert(key@.subrange(0, k as int) == key@.take(k as int));
                    key.substring_char(0, k).to_owned()
                },
                None => request_context.sdk_key.clone(),
            }
        };
        let mut key = "statsig|".to_owned();
        key.append(text::trim_end_matches(request_context.path.as_str(), '/'));
        key.append("|");
        key.append(encoding.to_str());
        key.append("|");
        key.append(sdk_key.as_str());
        redis_config::apply_key_prefix(self.key_prefix.as_str(), key)
    }

    /// The keys that an update touches: the present one, and the older one where
    /// both are kept.
    pub fn update_keys(
        &mut self,
        request_context: &AuthorizedRequestContext,
        payload: &ResponsePayload,
    ) -> (r: Vec<String>)
        requires
            old(self).wf(),
            observers::is_loggable(request_context@.sdk_key),
        ensures
            final(self).wf(),
            final(self).same_settings(old(self)),
            text::texts(r@) == touched_keys(
                old(self).key_prefix@,
                request_context@,
                payload.use_proto,
                old(self).double_write_cache_for_legacy_key,
            ),
            text::texts(r@) == (if old(self).double_write_cache_for_legacy_key {
                seq![
                    redis_key_text(
                        old(self).key_prefix@,
                        request_context@,
                        Some(payload.use_proto),
                        false,
                    ),
                    redis_key_text(
                        old(self).key_prefix@,
                        request_context@,
                        Some(payload.use_proto),
                        true,
                    ),
                ]
            } else {
                seq![
                    redis_key_text(
                        old(self).key_prefix@,
                        request_context@,
                        Some(payload.use_proto),
                        false,
                    ),
                ]
            }),
    {
        let mut keys: Vec<String> = Vec::new();
        keys.push(self.get_redis_key(request_context, Some(payload.use_proto), false));
        if self.double_write_cache_for_legacy_key {
            keys.push(self.get_redis_key(request_context, Some(payload.use_proto), true));
        }
        keys
    }
}

/// What the first transaction of a write brought.
#[derive(Debug)]
pub struct LeaderReply {
    /// The seconds that the leader key has left; -1 where it never expires.
    pub ttl: i32,
    pub leader: String,
    pub stored_lcut: Option<String>,
}

/// Whether the stored specs are older, or of an unknown age.
pub open spec fn is_older(stored_lcut: Option<Seq<char>>, lcut: u64) -> bool {
    match stored_lcut {
        Some(t) => match text::parse_unsigned(t, u64::MAX as int) {
            Some(n) => n < lcut,
            None => true,
        },
        None => true,
    }
}

/// Whether this proxy is to write: it leads, and the stored specs are older
/// where that is checked.
pub open spec fn may_write(reply: LeaderReply, uuid: Seq<char>, check_lcut: bool, lcut: u64) -> bool {
    reply.leader@ == uuid && (check_lcut ==> is_older(text::text_option(reply.stored_lcut), lcut))
}

/// Whether another leader left its key without an expiry behind.
pub open spec fn is_orphaned(reply: LeaderReply, uuid: Seq<char>) -> bool {
    reply.ttl == -1 && reply.leader@ != uuid
}

/// The bytes that are stored of a payload: nothing where it cannot be
/// decompressed.
pub open spec fn stored_bytes(p: http_data_provider::PayloadView) -> Option<Seq<u8>> {
    match p.encoding {
        CompressionEncoder::Gzip => codecs::gunzipped(p.data),
        CompressionEncoder::Brotli => codecs::unbrotlied(p.data, 4096),
        _ => Some(p.data),
    }
}

/// Takes the compression off a payload before it is stored.
pub fn bytes_to_store(payload: &ResponsePayload) -> (r: Option<Vec<u8>>)
    ensures
        codecs::bytes_option(r) == stored_bytes(payload@),
{
    match payload.encoding {
        CompressionEncoder::Gzip => codecs::gunzip(payload.data.as_slice()),
        CompressionEncoder::Brotli => codecs::unbrotli(payload.data.as_slice(), 4096),
        _ => Some(payload.data.clone()),
    }
}

/// The first transaction of a write: claims the lead, and asks who has it and
/// how old the stored specs are.
pub open spec fn leader_commands(
    leader_key: Seq<char>,
    uuid: Seq<char>,
    redis_key: Seq<char>,
) -> Seq<CommandView> {
    seq![
        CommandView::Ttl(leader_key),
        CommandView::SetNx(leader_key, uuid),
        CommandView::Get(leader_key),
        CommandView::HGet(redis_key, "lcut"@),
    ]
}

/// What a write adds to the transaction.
pub open spec fn write_commands(u: UpdateView, data: Seq<u8>) -> Seq<CommandView> {
    seq![
        CommandView::HSetText(u.redis_key, "encoding"@, "plain_text"@),
        CommandView::HSetNumber(u.redis_key, "lcut"@, u.lcut),
        CommandView::HSetBytes(u.redis_key, "config"@, data),
        CommandView::Expire(u.redis_key, u.cache_ttl),
        CommandView::Expire(u.leader_key, u.leader_ttl),
    ]
}

/// Where an update stands.
#[derive(Clone, Copy, Debug, PartialEq, Eq, Structural)]
pub enum UpdatePhase {
    ConnectingToWrite,
    ConnectingToDelete,
    AskingForLeader,
    /// The key of a leader that left is given an expiry, whatever becomes of it;
    /// whether to write is known already.
    ExpiringLeader(bool),
    Writing,
    Deleting,
    Done,
}

/// The update of one key.
pub struct RedisUpdate {
    redis_key: String,
    leader_key: String,
    uuid: String,
    check_lcut: bool,
    leader_ttl: i64,
    cache_ttl: i64,
    context: Arc<AuthorizedRequestContext>,
    lcut: u64,
    payload: Arc<ResponsePayload>,
    /// The transaction, which grows: each query runs all of it again.
    pipeline: Vec<RedisCommand>,
    phase: UpdatePhase,
}

/// The model of an update.
pub struct UpdateView {
    pub redis_key: Seq<char>,
    pub leader_key: Seq<char>,
    pub uuid: Seq<char>,
    pub check_lcut: bool,
    pub leader_ttl: i64,
    pub cache_ttl: i64,
    pub context: authorized_request_context::ContextView,
    pub lcut: u64,
    pub payload: http_data_provider::PayloadView,
    pub pipeline: Seq<CommandView>,
    pub phase: UpdatePhase,
}

impl View for RedisUpdate {
    type V = UpdateView;

    closed spec fn view(&self) -> UpdateView {
        UpdateView {
            redis_key: self.redis_key@,
            leader_key: self.leader_key@,
            uuid: self.uuid@,
            check_lcut: self.check_lcut,
            leader_ttl: self.leader_ttl,
            cache_ttl: self.cache_ttl,
            context: self.context@,
            lcut: self.lcut,
            payload: self.payload@,
            pipeline: commands(self.pipeline@),
            phase: self.phase,
        }
    }
}

/// What is to be done next.
#[derive(Debug)]
pub enum UpdateAction {
    /// Take a connection from the pool.
    Connect,
    /// Run the transaction and hand its reply back.
    Query(Vec<RedisCommand>),
    /// Run the transaction; its reply does not matter.
    QueryBestEffort(Vec<RedisCommand>),
    /// Delete the key.
    Delete(String),
    /// Publish the event; the update has ended.
    Publish(ProxyEvent),
    /// The update has ended.
    Finish,
}

/// The model of what is to be done next.
pub enum ActionView {
    Connect,
    Query(Seq<CommandView>),
    QueryBestEffort(Seq<CommandView>),
    Delete(Seq<char>),
    Publish(observers::EventView),
    Finish,
}

impl View for UpdateAction {
    type V = ActionView;

    open spec fn view(&self) -> ActionView {
        match self {
            UpdateAction::Connect => ActionView::Connect,
            UpdateAction::Query(c) => ActionView::Query(commands(c@)),
            UpdateAction::QueryBestEffort(c) => ActionView::QueryBestEffort(commands(c@)),
            UpdateAction::Delete(key) => ActionView::Delete(key@),
            UpdateAction::Publish(e) => ActionView::Publish(e@),
            UpdateAction::Finish => ActionView::Finish,
        }
    }
}

/// What an action led to.
#[derive(Debug)]
pub enum UpdateReply {
    /// The connection was taken, or the command or transaction went through.
    Succeeded,
    /// It failed.
    Failed,
    /// The first transaction of a write went through.
    Leader(LeaderReply),
}

/// The end of an update, with an event.
pub open spec fn ended(u: UpdateView, t: ProxyEventType, lcut: Option<u64>) -> (
    UpdateView,
    ActionView,
) {
    (
        UpdateView { phase: UpdatePhase::Done, ..u },
        ActionView::Publish(observers::counted_event(t, u.context, lcut)),
    )
}

/// What follows once it is known whether to write. Specs without a time of their
/// last change are always written.
pub open spec fn decided(u: UpdateView, write: bool) -> (UpdateView, ActionView) {
    if !u.context.use_lcut || write {
        match stored_bytes(u.payload) {
            Some(data) => {
                let pipeline = u.pipeline + write_commands(u, data);
                (
                    UpdateView { pipeline, phase: UpdatePhase::Writing, ..u },
                    ActionView::Query(pipeline),
                )
            },
            None => ended(u, ProxyEventType::RedisCacheWriteFailed, Some(u.lcut)),
        }
    } else {
        ended(u, ProxyEventType::RedisCacheWriteSkipped, Some(u.lcut))
    }
}

/// The next state of an update and what is to be done.
pub open spec fn next_step(u: UpdateView, reply: UpdateReply) -> (UpdateView, ActionView) {
    match u.phase {
        UpdatePhase::ConnectingToWrite => match reply {
            UpdateReply::Succeeded => {
                let pipeline = leader_commands(u.leader_key, u.uuid, u.redis_key);
                (
                    UpdateView { pipeline, phase: UpdatePhase::AskingForLeader, ..u },
                    ActionView::Query(pipeline),
                )
            },
            _ => ended(u, ProxyEventType::RedisCacheWriteFailed, Some(u.lcut)),
        },
        UpdatePhase::AskingForLeader => match reply {
            UpdateReply::Leader(l) => {
                let write = may_write(l, u.uuid, u.check_lcut, u.lcut);
                if is_orphaned(l, u.uuid) {
                    let pipeline = u.pipeline.push(
                        CommandView::Expire(u.leader_key, u.leader_ttl),
                    );
                    (
                        UpdateView { pipeline, phase: UpdatePhase::ExpiringLeader(write), ..u },
                        ActionView::QueryBestEffort(pipeline),
                    )
                } else {
                    decided(u, write)
                }
            },
            _ => decided(u, false),
        },
        UpdatePhase::ExpiringLeader(write) => decided(u, write),
        UpdatePhase::Writing => match reply {
            UpdateReply::Succeeded => ended(
                u,
                ProxyEventType::RedisCacheWriteSucceed,
                Some(u.lcut),
            ),
            _ => ended(u, ProxyEventType::RedisCacheWriteFailed, Some(u.lcut)),
        },
        UpdatePhase::ConnectingToDelete => match reply {
            UpdateReply::Succeeded => (
                UpdateView { phase: UpdatePhase::Deleting, ..u },
                ActionView::Delete(u.redis_key),
            ),
            _ => ended(u, ProxyEventType::RedisCacheDeleteFailed, None),
        },
        UpdatePhase::Deleting => match reply {
            UpdateReply::Succeeded => ended(u, ProxyEventType::RedisCacheDeleteSucceed, None),
            _ => ended(u, ProxyEventType::RedisCacheDeleteFailed, None),
        },
        UpdatePhase::Done => (u, ActionView::Finish),
    }
}

/// How an update starts: data is written, a refused key is deleted, and nothing
/// else is done, nor anything without a pool.
pub open spec fn first_phase(result: DataProviderRequestResult, has_pool: bool) -> UpdatePhase {
    if !has_pool {
        UpdatePhase::Done
    } else {
        match result {
            DataProviderRequestResult::DataAvailable => UpdatePhase::ConnectingToWrite,
            DataProviderRequestResult::Unauthorized => UpdatePhase::ConnectingToDelete,
            _ => UpdatePhase::Done,
        }
    }
}

impl RedisUpdate {
    /// Starts the update of one key.
    pub fn start(
        cache: &RedisCache,
        has_pool: bool,
        redis_key: String,
        result: DataProviderRequestResult,
        request_context: &Arc<AuthorizedRequestContext>,
        lcut: u64,
        payload: &Arc<ResponsePayload>,
    ) -> (r: (RedisUpdate, UpdateAction))
        ensures
            r.0@ == (UpdateView {
                redis_key: redis_key@,
                leader_key: leader_key_text(cache.key_prefix@),
                uuid: cache.uuid@,
                check_lcut: cache.check_lcut,
                leader_ttl: cache.leader_key_ttl,
                cache_ttl: cache.redis_cache_ttl_in_s,
                context: request_context@,
                lcut,
                payload: payload@,
                pipeline: Seq::empty(),
                phase: first_phase(result, has_pool),
            }),
            r.1@ == (if first_phase(result, has_pool) == UpdatePhase::Done {
                ActionView::Finish
            } else {
                ActionView::Connect
            }),
    {
        let phase = if !has_pool {
            UpdatePhase::Done
        } else {
            match result {
                DataProviderRequestResult::DataAvailable => UpdatePhase::ConnectingToWrite,
                DataProviderRequestResult::Unauthorized => UpdatePhase::ConnectingToDelete,
                _ => UpdatePhase::Done,
            }
        };
        let pipeline: Vec<RedisCommand> = Vec::new();
        assert(commands(pipeline@) =~= Seq::<CommandView>::empty());
        let update = RedisUpdate {
            redis_key,
            leader_key: cache.leader_key(),
            uuid: cache.uuid.clone(),
            check_lcut: cache.check_lcut,
            leader_ttl: cache.leader_key_ttl,
            cache_ttl: cache.redis_cache_ttl_in_s,
            context: keyed_store::share(request_context),
            lcut,
            payload: keyed_store::share(payload),
            pipeline,
            phase,
        };
        let action = match phase {
            UpdatePhase::Done => UpdateAction::Finish,
            _ => UpdateAction::Connect,
        };
        (update, action)
    }

    fn push(&mut self, command: RedisCommand)
        ensures
            final(self)@ == (UpdateView {
                pipeline: old(self)@.pipeline.push(command@),
                ..old(self)@
            }),
    {
        let ghost before = self.pipeline@;
        self.pipeline.push(command);
        assert(commands(self.pipeline@) =~= commands(before).push(command@));
    }

    fn end(&mut self, event_type: ProxyEventType, lcut: Option<u64>) -> (r: UpdateAction)
        ensures
            (final(self)@, r@) == ended(old(self)@, event_type, lcut),
    {
        self.phase = UpdatePhase::Done;
        UpdateAction::Publish(ProxyEvent::counted(event_type, &self.context, lcut))
    }

    fn decide(&mut self, write: bool) -> (r: UpdateAction)
        ensures
            (final(self)@, r@) == decided(old(self)@, write),
    {
        let ghost u = self@;
        if !self.context.use_lcut || write {
            let data = match bytes_to_store(&self.payload) {
                Some(data) => data,
                None => {
                    return self.end(ProxyEventType::RedisCacheWriteFailed, Some(self.lcut));
                },
            };
            let ghost bytes = data@;
            self.push(
                RedisCommand::HSetText {
                    key: self.redis_key.clone(),
                    field: "encoding".to_owned(),
                    value: "plain_text".to_owned(),
                },
            );
            self.push(
                RedisCommand::HSetNumber {
                    key: self.redis_key.clone(),
                    field: "lcut".to_owned(),
                    number: self.lcut,
                },
            );
            self.push(
                RedisCommand::HSetBytes {
                    key: self.redis_key.clone(),
                    field: "config".to_owned(),
                    bytes: data,
                },
            );
            self.push(
                RedisCommand::Expire { key: self.redis_key.clone(), seconds: self.cache_ttl },
            );
            self.push(
                RedisCommand::Expire { key: self.leader_key.clone(), seconds: self.leader_ttl },
            );
            self.phase = UpdatePhase::Writing;
            assert(self@.pipeline =~= u.pipeline + write_commands(u, bytes));
            UpdateAction::Query(clone_commands(&self.pipeline))
        } else {
            self.end(ProxyEventType::RedisCacheWriteSkipped, Some(self.lcut))
        }
    }

    /// Takes what the last action led to.
    pub fn step(&mut self, reply: UpdateReply) -> (r: UpdateAction)
        ensures
            (final(self)@, r@) == next_step(old(self)@, reply),
    {
        let ghost u = self@;
        match self.phase {
            UpdatePhase::ConnectingToWrite => match reply {
                UpdateReply::Succeeded => {
                    self.pipeline = Vec::new();
                    assert(commands(self.pipeline@) =~= Seq::<CommandView>::empty());
                    self.push(RedisCommand::Ttl { key: self.leader_key.clone() });
                    self.push(
                        RedisCommand::SetNx {
                            key: self.leader_key.clone(),
                            value: self.uuid.clone(),
                        },
                    );
                    self.push(RedisCommand::Get { key: self.leader_key.clone() });
                    self.push(
                        RedisCommand::HGet {
                            key: self.redis_key.clone(),
                            field: "lcut".to_owned(),
                        },
                    );
                    self.phase = UpdatePhase::AskingForLeader;
                    assert(self@.pipeline =~= leader_commands(u.leader_key, u.uuid, u.redis_key));
                    UpdateAction::Query(clone_commands(&self.pipeline))
                },
                _ => self.end(ProxyEventType::RedisCacheWriteFailed, Some(self.lcut)),
            },
            UpdatePhase::AskingForLeader => match reply {
                UpdateReply::Leader(l) => {
                    let is_leader = l.leader == self.uuid;
                    let older = match &l.stored_lcut {
                        Some(t) => match text::parse_u64(t.as_str()) {
                            Some(n) => n < self.lcut,
                            None => true,
                        },
                        None => true,
                    };
                    let write = is_leader && (!self.check_lcut || older);
                    if l.ttl == -1 && !is_leader {
                        self.push(
                            RedisCommand::Expire {
                                key: self.leader_key.clone(),
                                seconds: self.leader_ttl,
                            },
                        );
                        self.phase = UpdatePhase::ExpiringLeader(write);
                        UpdateAction::QueryBestEffort(clone_commands(&self.pipeline))
                    } else {
                        self.decide(write)
                    }
                },
                _ => self.decide(false),
            },
            UpdatePhase::ExpiringLeader(write) => self.decide(write),
            UpdatePhase::Writing => match reply {
                UpdateReply::Succeeded => self.end(
                    ProxyEventType::RedisCacheWriteSucceed,
                    Some(self.lcut),
                ),
                _ => self.end(ProxyEventType::RedisCacheWriteFailed, Some(self.lcut)),
            },
            UpdatePhase::ConnectingToDelete => match reply {
                UpdateReply::Succeeded => {
                    self.phase = UpdatePhase::Deleting;
                    UpdateAction::Delete(self.redis_key.clone())
                },
                _ => self.end(ProxyEventType::RedisCacheDeleteFailed, None),
            },
            UpdatePhase::Deleting => match reply {
                UpdateReply::Succeeded => self.end(ProxyEventType::RedisCacheDeleteSucceed, None),
                _ => self.end(ProxyEventType::RedisCacheDeleteFailed, None),
            },
            UpdatePhase::Done => UpdateAction::Finish,
        }
    }
}

/// How many steps an update has left at most.
pub open spec fn steps_left(phase: UpdatePhase) -> nat {
    match phase {
        UpdatePhase::ConnectingToWrite => 4,
        UpdatePhase::AskingForLeader => 3,
        UpdatePhase::ExpiringLeader(_) => 2,
        UpdatePhase::Writing => 1,
        UpdatePhase::ConnectingToDelete => 2,
        UpdatePhase::Deleting => 1,
        UpdatePhase::Done => 0,
    }
}

/// Every update ends, whatever Redis answers, and it publishes one event exactly
/// when it ends.
pub proof fn law_updates_end_with_one_event(u: UpdateView, reply: UpdateReply)
    requires
        u.phase != UpdatePhase::Done,
    ensures
        steps_left(next_step(u, reply).0.phase) < steps_left(u.phase),
        next_step(u, reply).1 is Publish <==> next_step(u, reply).0.phase == UpdatePhase::Done,
{
}

/// Specs that carry the time of their last change are stored only by the leader,
/// and where that is checked only over older ones.
pub proof fn law_only_the_leader_stores_newer_specs(u: UpdateView, l: LeaderReply)
    requires
        u.phase == UpdatePhase::AskingForLeader,
        u.context.use_lcut,
        next_step(u, UpdateReply::Leader(l)).0.phase == UpdatePhase::Writing,
    ensures
        l.leader@ == u.uuid,
        u.check_lcut ==> is_older(text::text_option(l.stored_lcut), u.lcut),
{
}

/// A proxy that does not lead never stores specs that carry the time of their
/// last change, not even after it has given the leader key an expiry.
pub proof fn law_followers_never_store(u: UpdateView, l: LeaderReply, reply: UpdateReply)
    requires
        u.phase == UpdatePhase::AskingForLeader,
        u.context.use_lcut,
        l.leader@ != u.uuid,
    ensures
        ({
            let (v, a) = next_step(u, UpdateReply::Leader(l));
            &&& v.phase != UpdatePhase::Writing
            &&& v.phase matches UpdatePhase::ExpiringLeader(w) ==> next_step(v, reply).0.phase
                == UpdatePhase::Done
        }),
{
}

/// What is stored of a payload is what it held before compression.
pub proof fn law_stored_specs_are_the_payload(u: UpdateView, data: Seq<u8>)
    requires
        stored_bytes(u.payload) == Some(data),
    ensures
        ({
            let (v, a) = decided(u, true);
            &&& a matches ActionView::Query(c)
            &&& c.len() == u.pipeline.len() + 5
            &&& c[u.pipeline.len() as int + 1] == CommandView::HSetNumber(u.redis_key, "lcut"@, u.lcut)
            &&& c[u.pipeline.len() as int + 2] == CommandView::HSetBytes(u.redis_key, "config"@, data)
        }),
{
}

/// What was found in Redis.
#[derive(Debug)]
pub enum ReadReply {
    NoConnection,
    Failed,
    Found { lcut: Option<u64>, data: Vec<u8> },
}

/// The event of a read.
pub open spec fn read_event(
    context: authorized_request_context::ContextView,
    reply: ReadReply,
) -> observers::EventView {
    match reply {
        ReadReply::Found { lcut, data } => if data@.len() == 0 {
            observers::counted_event(ProxyEventType::RedisCacheReadMiss, context, None)
        } else {
            observers::counted_event(
                ProxyEventType::RedisCacheReadSucceed,
                context,
                Some(
                    match lcut {
                        Some(n) => n,
                        None => 0,
                    },
                ),
            )
        },
        _ => observers::counted_event(ProxyEventType::RedisCacheReadFailed, context, None),
    }
}

/// The payload that a read brings: compressed where the context takes gzip.
pub open spec fn read_payload(
    context: authorized_request_context::ContextView,
    reply: ReadReply,
) -> Option<http_data_provider::PayloadView> {
    match reply {
        ReadReply::Found { lcut, data } => if data@.len() == 0 {
            None
        } else if context.encodings.contains(CompressionEncoder::Gzip) {
            match codecs::gzipped(data@, 9) {
                Some(z) => if z.len() == 0 {
                    None
                } else {
                    Some(
                        http_data_provider::PayloadView {
                            encoding: CompressionEncoder::Gzip,
                            use_proto: false,
                            data: z,
                        },
                    )
                },
                None => None,
            }
        } else {
            Some(
                http_data_provider::PayloadView {
                    encoding: CompressionEncoder::PlainText,
                    use_proto: false,
                    data: data@,
                },
            )
        },
        _ => None,
    }
}

/// The transaction of a read.
pub fn read_commands(redis_key: &str) -> (r: Vec<RedisCommand>)
    ensures
        commands(r@) == seq![
            CommandView::HGet(redis_key@, "lcut"@),
            CommandView::HGet(redis_key@, "config"@),
        ],
{
    let mut r: Vec<RedisCommand> = Vec::new();
    r.push(RedisCommand::HGet { key: redis_key.to_owned(), field: "lcut".to_owned() });
    r.push(RedisCommand::HGet { key: redis_key.to_owned(), field: "config".to_owned() });
    assert(commands(r@) =~= seq![
        CommandView::HGet(redis_key@, "lcut"@),
        CommandView::HGet(redis_key@, "config"@),
    ]);
    r
}

/// What a reader gets of what was found. What comes out compressed holds what
/// was stored.
pub fn finish_read(
    request_context: &Arc<AuthorizedRequestContext>,
    reply: ReadReply,
) -> (r: (Option<Arc<ConfigSpecForCompany>>, ProxyEvent))
    ensures
        r.1@ == read_event(request_context@, reply),
        match r.0 {
            Some(spec) => {
                &&& read_payload(request_context@, reply) == Some(spec.config@)
                &&& reply matches ReadReply::Found { lcut, data }
                &&& spec.lcut == (match lcut {
                    Some(n) => n,
                    None => 0,
                })
                &&& stored_bytes(spec.config@) == Some(data@)
            },
            None => read_payload(request_context@, reply) is None,
        },
{
    match reply {
        ReadReply::Found { lcut, data } => {
            if data.is_empty() {
                return (
                    None,
                    ProxyEvent::counted(ProxyEventType::RedisCacheReadMiss, request_context, None),
                );
            }
            let lcut: u64 = match lcut {
                Some(n) => n,
                None => 0,
            };
            let event = ProxyEvent::counted(
                ProxyEventType::RedisCacheReadSucceed,
                request_context,
                Some(lcut),
            );
            if compress_encoder::has_encoder(
                request_context.encodings.as_slice(),
                CompressionEncoder::Gzip,
            ) {
                let compressed = match codecs::gzip(data.as_slice(), 9) {
                    Some(z) => z,
                    None => {
                        return (None, event);
                    },
                };
                if compressed.is_empty() {
                    return (None, event);
                }
                let config = ResponsePayload {
                    encoding: CompressionEncoder::Gzip,
                    use_proto: false,
                    data: compressed,
                };
                (Some(Arc::new(ConfigSpecForCompany { lcut, config: Arc::new(config) })), event)
            } else {
                let config = ResponsePayload {
                    encoding: CompressionEncoder::PlainText,
                    use_proto: false,
                    data,
                };
                (Some(Arc::new(ConfigSpecForCompany { lcut, config: Arc::new(config) })), event)
            }
        },
        _ => (
            None,
            ProxyEvent::counted(ProxyEventType::RedisCacheReadFailed, request_context, None),
        ),
    }
}

/// What is stored under a key is told apart by the SDK key, and protobuf from the rest. A
/// key of up to twenty bytes stands in full.
pub proof fn law_stored_keys_are_told_apart(
    prefix: Seq<char>,
    a: authorized_request_context::ContextView,
    b: authorized_request_context::ContextView,
    use_proto: Option<bool>,
    other: Option<bool>,
    use_legacy: bool,
)
    requires
        a.path == b.path,
    ensures
        a.sdk_key == b.sdk_key ==> redis_key_text(prefix, a, use_proto, use_legacy)
            == redis_key_text(prefix, b, use_proto, use_legacy),
        text::byte_len(a.sdk_key) <= 20 && text::byte_len(b.sdk_key) <= 20 && a.sdk_key
            != b.sdk_key ==> redis_key_text(prefix, a, use_proto, false) != redis_key_text(
            prefix,
            b,
            use_proto,
            false,
        ),
        hashed_key(a.sdk_key) != hashed_key(b.sdk_key) ==> redis_key_text(
            prefix,
            a,
            use_proto,
            true,
        ) != redis_key_text(prefix, b, use_proto, true),
        redis_key_text(prefix, a, Some(true), use_legacy) != redis_key_text(
            prefix,
            a,
            Some(false),
            use_legacy,
        ),
        redis_key_text(prefix, a, None, use_legacy) == redis_key_text(
            prefix,
            a,
            Some(false),
            use_legacy,
        ),
{
    let path = text::trim_end_char(normalized_path::path_text(a.path), '/');
    lemma_keys_apart(prefix, path, use_proto, short_key(a.sdk_key), short_key(b.sdk_key));
    lemma_keys_apart(prefix, path, use_proto, hashed_key(a.sdk_key), hashed_key(b.sdk_key));
    lemma_encodings_apart(
        prefix,
        path,
        if use_legacy {
            hashed_key(a.sdk_key)
        } else {
            short_key(a.sdk_key)
        },
    );
}

proof fn lemma_prefixed_apart(prefix: Seq<char>, x: Seq<char>, y: Seq<char>)
    requires
        x != y,
    ensures
        redis_config::prefixed(prefix, x) != redis_config::prefixed(prefix, y),
{
    let p = text::trimmed(prefix);
    let start = if p.len() == 0 {
        Seq::empty()
    } else if text::has_suffix(p, ":"@) {
        p
    } else {
        p + ":"@
    };
    let u = redis_config::prefixed(prefix, x);
    let v = redis_config::prefixed(prefix, y);
    assert(u =~= start + x);
    assert(v =~= start + y);
    if u == v {
        assert(x =~= u.skip(start.len() as int));
        assert(y =~= v.skip(start.len() as int));
    }
}

proof fn lemma_keys_apart(
    prefix: Seq<char>,
    path: Seq<char>,
    use_proto: Option<bool>,
    x: Seq<char>,
    y: Seq<char>,
)
    ensures
        x != y ==> redis_config::prefixed(
            prefix,
            "statsig|"@ + path + "|"@ + compress_encoder::encoder_name(key_encoding(use_proto))
                + "|"@ + x,
        ) != redis_config::prefixed(
            prefix,
            "statsig|"@ + path + "|"@ + compress_encoder::encoder_name(key_encoding(use_proto))
                + "|"@ + y,
        ),
{
    if x != y {
        let start = "statsig|"@ + path + "|"@ + compress_encoder::encoder_name(
            key_encoding(use_proto),
        ) + "|"@;
        assert(x =~= (start + x).skip(start.len() as int));
        assert(y =~= (start + y).skip(start.len() as int));
        lemma_prefixed_apart(prefix, start + x, start + y);
    }
}

proof fn lemma_encodings_apart(prefix: Seq<char>, path: Seq<char>, key: Seq<char>)
    ensures
        redis_config::prefixed(
            prefix,
            "statsig|"@ + path + "|"@ + compress_encoder::encoder_name(
                CompressionEncoder::StatsigBrotli,
            ) + "|"@ + key,
        ) != redis_config::prefixed(
            prefix,
            "statsig|"@ + path + "|"@ + compress_encoder::encoder_name(
                CompressionEncoder::PlainText,
            ) + "|"@ + key,
        ),
{
    reveal_strlit("statsig-br");
    reveal_strlit("plain_text");
    let start = "statsig|"@ + path + "|"@;
    let x = start + "statsig-br"@ + "|"@ + key;
    let y = start + "plain_text"@ + "|"@ + key;
    assert(x[start.len() as int] == "statsig-br"@[0]);
    assert(y[start.len() as int] == "plain_text"@[0]);
    lemma_prefixed_apart(prefix, x, y);
}

/// A key that is stored is older where it tells an earlier time, and where it tells none.
pub proof fn law_stored_times_are_compared(stored: Seq<char>, n: u64, lcut: u64)
    ensures
        is_older(None, lcut),
        stored == text::decimal(n as nat) ==> (is_older(Some(stored), lcut) <==> n < lcut),
        text::parse_unsigned(stored, u64::MAX as int) is None ==> is_older(Some(stored), lcut),
{
    text::law_numbers_are_read_back(n as nat, n as nat, u64::MAX as int);
}

/// An update starts with data to write and with a refusal to delete, and with nothing
/// where there is no pool or nothing came.
pub proof fn law_updates_start_with_their_result(result: DataProviderRequestResult, has_pool: bool)
    ensures
        first_phase(result, has_pool) == UpdatePhase::ConnectingToWrite <==> has_pool && result
            == DataProviderRequestResult::DataAvailable,
        first_phase(result, has_pool) == UpdatePhase::ConnectingToDelete <==> has_pool && result
            == DataProviderRequestResult::Unauthorized,
        first_phase(result, has_pool) == UpdatePhase::Done <==> !has_pool || (result
            != DataProviderRequestResult::DataAvailable && result
            != DataProviderRequestResult::Unauthorized),
{
}

/// The lock is asked for before anything is written: how long it stands, whether it can be
/// had, and who has it, with the time of what is stored.
pub proof fn law_the_lock_is_asked_for_first(u: UpdateView, reply: UpdateReply)
    requires
        u.phase == UpdatePhase::ConnectingToWrite,
    ensures
        reply is Succeeded ==> {
            let (v, a) = next_step(u, reply);
            &&& v.phase == UpdatePhase::AskingForLeader
            &&& a matches ActionView::Query(c)
            &&& v.pipeline == c
            &&& c.len() == 4
            &&& c[0] == CommandView::Ttl(u.leader_key)
            &&& c[1] == CommandView::SetNx(u.leader_key, u.uuid)
            &&& c[2] == CommandView::Get(u.leader_key)
            &&& c[3] == CommandView::HGet(u.redis_key, "lcut"@)
        },
        reply !is Succeeded ==> {
            let (v, a) = next_step(u, reply);
            &&& v.phase == UpdatePhase::Done
            &&& a matches ActionView::Publish(e)
            &&& e.event_type == ProxyEventType::RedisCacheWriteFailed
            &&& e.lcut == Some(u.lcut)
            &&& e.context == Some(u.context)
        },
{
}

/// The one that has the lock writes what is newer, and, where times are not compared,
/// whatever came. Specs whose time does not count are written by anyone. Anything else is
/// skipped, and told so. A lock that would never end, and is another's, is made to end.
pub proof fn law_the_leader_writes(u: UpdateView, l: LeaderReply, data: Seq<u8>)
    requires
        u.phase == UpdatePhase::AskingForLeader,
        stored_bytes(u.payload) == Some(data),
    ensures
        ({
            let (v, a) = next_step(u, UpdateReply::Leader(l));
            let orphaned = l.ttl == -1 && l.leader@ != u.uuid;
            let leads = l.leader@ == u.uuid && (u.check_lcut ==> is_older(
                text::text_option(l.stored_lcut),
                u.lcut,
            ));
            &&& orphaned ==> {
                &&& a matches ActionView::QueryBestEffort(c)
                &&& c.last() == CommandView::Expire(u.leader_key, u.leader_ttl)
                &&& v.phase == UpdatePhase::ExpiringLeader(false)
            }
            &&& !orphaned && (leads || !u.context.use_lcut) ==> {
                &&& v.phase == UpdatePhase::Writing
                &&& a matches ActionView::Query(c)
                &&& writes_all(u, data, c)
            }
            &&& !orphaned && !leads && u.context.use_lcut ==> {
                &&& v.phase == UpdatePhase::Done
                &&& a matches ActionView::Publish(e)
                &&& e.event_type == ProxyEventType::RedisCacheWriteSkipped
                &&& e.lcut == Some(u.lcut)
                &&& e.context == Some(u.context)
            }
        }),
{
    lemma_writes_all(u, data);
}

/// Whether commands end with all that is written of an update.
pub open spec fn writes_all(u: UpdateView, data: Seq<u8>, c: Seq<CommandView>) -> bool {
    let n = u.pipeline.len() as int;
    &&& c.len() == n + 5
    &&& c.take(n) == u.pipeline
    &&& c[n] == CommandView::HSetText(u.redis_key, "encoding"@, "plain_text"@)
    &&& c[n + 1] == CommandView::HSetNumber(u.redis_key, "lcut"@, u.lcut)
    &&& c[n + 2] == CommandView::HSetBytes(u.redis_key, "config"@, data)
    &&& c[n + 3] == CommandView::Expire(u.redis_key, u.cache_ttl)
    &&& c[n + 4] == CommandView::Expire(u.leader_key, u.leader_ttl)
}

proof fn lemma_writes_all(u: UpdateView, data: Seq<u8>)
    ensures
        writes_all(u, data, u.pipeline + write_commands(u, data)),
{
    let c = u.pipeline + write_commands(u, data);
    assert(c.take(u.pipeline.len() as int) =~= u.pipeline);
}

/// How the last command of an update ends is told: as done where it succeeded, and as
/// failed where it did not. What was refused upstream is deleted under its own key.
pub proof fn law_updates_tell_how_they_ended(u: UpdateView, reply: UpdateReply)
    ensures
        u.phase == UpdatePhase::Writing ==> {
            let (v, a) = next_step(u, reply);
            &&& v.phase == UpdatePhase::Done
            &&& a matches ActionView::Publish(e)
            &&& e.context == Some(u.context)
            &&& e.lcut == Some(u.lcut)
            &&& e.event_type == (if reply is Succeeded {
                ProxyEventType::RedisCacheWriteSucceed
            } else {
                ProxyEventType::RedisCacheWriteFailed
            })
        },
        u.phase == UpdatePhase::ConnectingToDelete && reply is Succeeded ==> next_step(u, reply).1
            == ActionView::Delete(u.redis_key),
        u.phase == UpdatePhase::Deleting || (u.phase == UpdatePhase::ConnectingToDelete
            && reply !is Succeeded) ==> {
            let (v, a) = next_step(u, reply);
            &&& v.phase == UpdatePhase::Done
            &&& a matches ActionView::Publish(e)
            &&& e.context == Some(u.context)
            &&& e.event_type == (if reply is Succeeded {
                ProxyEventType::RedisCacheDeleteSucceed
            } else {
                ProxyEventType::RedisCacheDeleteFailed
            })
        },
        u.phase == UpdatePhase::Done ==> next_step(u, reply).1 is Finish && next_step(u, reply).0
            == u,
        next_step(u, reply).0.context == u.context,
        next_step(u, reply).0.redis_key == u.redis_key,
        next_step(u, reply).0.lcut == u.lcut,
{
}

/// A payload is stored without its compression: a plain one as it is, any other as what it
/// unpacks to. Statsig's brotli is stored packed.
pub proof fn law_payloads_are_stored_unpacked(p: http_data_provider::PayloadView)
    ensures
        p.encoding == CompressionEncoder::PlainText ==> stored_bytes(p) == Some(p.data),
        p.encoding == CompressionEncoder::StatsigBrotli ==> stored_bytes(p) == Some(p.data),
        p.encoding == CompressionEncoder::Gzip ==> stored_bytes(p) == codecs::gunzipped(p.data),
        p.encoding == CompressionEncoder::Brotli ==> stored_bytes(p) == codecs::unbrotlied(
            p.data,
            4096,
        ),
{
}

/// What is read is given as it is stored, or packed where the client takes gzip. Nothing is
/// given where nothing, or nothing but an empty value, was found. What happened is told.
pub proof fn law_stored_specs_are_read_back(
    context: authorized_request_context::ContextView,
    reply: ReadReply,
)
    ensures
        match reply {
            ReadReply::Found { lcut, data } => {
                let e = read_event(context, reply);
                &&& data@.len() == 0 ==> read_payload(context, reply) is None && e.event_type
                    == ProxyEventType::RedisCacheReadMiss
                &&& data@.len() > 0 ==> e.event_type == ProxyEventType::RedisCacheReadSucceed
                    && e.lcut == Some(
                    match lcut {
                        Some(t) => t,
                        None => 0,
                    },
                )
                &&& data@.len() > 0 && !context.encodings.contains(CompressionEncoder::Gzip) ==> {
                    &&& read_payload(context, reply) matches Some(p)
                    &&& p.encoding == CompressionEncoder::PlainText
                    &&& p.data == data@
                    &&& !p.use_proto
                }
                &&& context.encodings.contains(CompressionEncoder::Gzip) ==> (read_payload(
                    context,
                    reply,
                ) matches Some(p) ==> p.encoding == CompressionEncoder::Gzip && !p.use_proto
                    && codecs::gzipped(data@, 9) == Some(p.data))
            },
            _ => read_payload(context, reply) is None && read_event(context, reply).event_type
                == ProxyEventType::RedisCacheReadFailed,
        },
        read_event(context, reply).context == Some(context),
{
}

/// The lock stands under a key of its own, that no specs are stored under, and one for each
/// prefix.
pub proof fn law_the_lock_has_its_own_key(
    prefix: Seq<char>,
    c: authorized_request_context::ContextView,
    use_proto: Option<bool>,
    use_legacy: bool,
)
    ensures
        leader_key_text(prefix) != redis_key_text(prefix, c, use_proto, use_legacy),
        text::has_suffix(leader_key_text(prefix), "statsig_forward_proxy::leader"@),
{
    reveal_strlit("statsig|");
    reveal_strlit("statsig_forward_proxy::leader");
    let x = "statsig_forward_proxy::leader"@;
    let y = "statsig|"@ + text::trim_end_char(normalized_path::path_text(c.path), '/') + "|"@
        + compress_encoder::encoder_name(key_encoding(use_proto)) + "|"@ + (if use_legacy {
        hashed_key(c.sdk_key)
    } else {
        short_key(c.sdk_key)
    });
    assert(x[7] == '_');
    assert(y[7] == "statsig|"@[7]);
    lemma_prefixed_apart(prefix, x, y);
    redis_config::law_keys_end_with_what_is_prefixed(prefix, x);
}

/// The keys that an update touches.
pub open spec fn touched_keys(
    prefix: Seq<char>,
    c: authorized_request_context::ContextView,
    use_proto: bool,
    both: bool,
) -> Seq<Seq<char>> {
    let present = redis_key_text(prefix, c, Some(use_proto), false);
    if both {
        seq![present, redis_key_text(prefix, c, Some(use_proto), true)]
    } else {
        seq![present]
    }
}

/// An update touches the key that its specs are read under, and the older one with it exactly
/// where both are kept.
pub proof fn law_updates_touch_the_keys_that_are_read(
    prefix: Seq<char>,
    c: authorized_request_context::ContextView,
    use_proto: bool,
    both: bool,
)
    ensures
        touched_keys(prefix, c, use_proto, both).contains(
            redis_key_text(prefix, c, Some(use_proto), false),
        ),
        both ==> touched_keys(prefix, c, use_proto, both).contains(
            redis_key_text(prefix, c, Some(use_proto), true),
        ) && touched_keys(prefix, c, use_proto, both).len() == 2,
        !both ==> touched_keys(prefix, c, use_proto, both).len() == 1,
{
    let t = touched_keys(prefix, c, use_proto, both);
    assert(t[0] == redis_key_text(prefix, c, Some(use_proto), false));
    if both {
        assert(t[1] == redis_key_text(prefix, c, Some(use_proto), true));
    }
}

} // verus!
