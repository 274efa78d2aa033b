//! The files of ids that were fetched lately.

use crate::datastore::data_providers::{
    DataProviderRequestResult, FullRequestContext, ResponseContext,
};
use crate::servers::authorized_request_context;
use crate::servers::authorized_request_context::AuthorizedRequestContext;
use moka::sync::Cache;
use std::collections::hash_map::RandomState;
use std::sync::Arc;
use vstd::prelude::*;

verus! {

/// How many files are kept.
pub const DEFAULT_ID_LIST_FILE_CACHE_CAPACITY: u64 = 512;

/// `moka::sync::Cache`, a bounded map. Entries drop from it where it has held more
/// than its limit, and not at once.
#[verifier::external_type_specification]
#[verifier::external_body]
#[verifier::reject_recursive_types(K)]
#[verifier::reject_recursive_types(V)]
#[verifier::reject_recursive_types(S)]
pub struct ExCache<K, V, S>(Cache<K, V, S>);

/// The files that a cache holds.
pub uninterp spec fn cached_files(cache: Cache<String, Arc<Vec<u8>>, RandomState>) -> Map<
    Seq<char>,
    Seq<u8>,
>;

/// How many entries a cache holds in the long run.
pub uninterp spec fn cache_limit(cache: Cache<String, Arc<Vec<u8>>, RandomState>) -> u64;

/// Whether a cache has never held more entries than its limit. There is room for
/// every entry of such a cache, so none drops from it.
pub uninterp spec fn cache_within(cache: Cache<String, Arc<Vec<u8>>, RandomState>) -> bool;

pub open spec fn no_files() -> Map<Seq<char>, Seq<u8>> {
    Map::empty()
}

/// `Cache::new` makes an empty cache with a capacity.
#[verifier::external_body]
fn cache_new(capacity: u64) -> (r: Cache<String, Arc<Vec<u8>>, RandomState>)
    ensures
        cached_files(r) == no_files(),
        cache_limit(r) == capacity,
        cache_within(r),
{
    Cache::new(capacity)
}

/// `Cache::get` hands out the value of a key. Entries may drop while it does, from a
/// cache that has held more than its limit; where it finds nothing, there is nothing
/// left.
#[verifier::external_body]
fn cache_get(cache: &mut Cache<String, Arc<Vec<u8>>, RandomState>, key: &str) -> (r: Option<
    Arc<Vec<u8>>,
>)
    ensures
        cache_limit(*final(cache)) == cache_limit(*old(cache)),
        cached_files(*final(cache)).submap_of(cached_files(*old(cache))),
        r matches Some(v) ==> cached_files(*old(cache)).contains_pair(key@, v@),
        r is None ==> !cached_files(*final(cache)).contains_key(key@),
        cache_within(*old(cache)) ==> cache_within(*final(cache)) && cached_files(*final(cache))
            == cached_files(*old(cache)),
{
    cache.get(key)
}

/// `Cache::insert` sets the value of a key. An entry is admitted while there is room.
/// Entries may drop while it does where there is none, the new one among them, and
/// where the cache has held more than its limit.
#[verifier::external_body]
fn cache_insert(
    cache: &mut Cache<String, Arc<Vec<u8>>, RandomState>,
    key: String,
    value: Arc<Vec<u8>>,
)
    ensures
        cache_limit(*final(cache)) == cache_limit(*old(cache)),
        cached_files(*final(cache)).submap_of(cached_files(*old(cache)).insert(key@, value@)),
        cache_within(*old(cache)) && cached_files(*old(cache)).insert(key@, value@).dom().len()
            <= cache_limit(*old(cache)) ==> cache_within(*final(cache)) && cached_files(
            *final(cache),
        ) == cached_files(*old(cache)).insert(key@, value@),
{
    cache.insert(key, value)
}

/// `Cache::invalidate` drops the entry of a key. Others may drop while it does, from
/// a cache that has held more than its limit.
#[verifier::external_body]
fn cache_invalidate(cache: &mut Cache<String, Arc<Vec<u8>>, RandomState>, key: &str)
    ensures
        cache_limit(*final(cache)) == cache_limit(*old(cache)),
        cached_files(*final(cache)).submap_of(cached_files(*old(cache)).remove(key@)),
        cache_within(*old(cache)) ==> cache_within(*final(cache)) && cached_files(*final(cache))
            == cached_files(*old(cache)).remove(key@),
{
    cache.invalidate(key)
}

/// `Cache::run_pending_tasks` does the work that was put off, such as dropping
/// entries from a cache that has held more than its limit. `Cache::entry_count` then
/// counts the entries. It is called an estimate, so the count is stated of a cache
/// that has kept to its limit only.
#[verifier::external_body]
fn cache_settle(cache: &mut Cache<String, Arc<Vec<u8>>, RandomState>) -> (r: u64)
    ensures
        cache_within(*old(cache)) ==> r == cached_files(*final(cache)).dom().len(),
        cache_limit(*final(cache)) == cache_limit(*old(cache)),
        cached_files(*final(cache)).submap_of(cached_files(*old(cache))),
        cache_within(*old(cache)) ==> cache_within(*final(cache)) && cached_files(*final(cache))
            == cached_files(*old(cache)),
{
    cache.run_pending_tasks();
    cache.entry_count()
}

/// Whether a file of `len` bytes that is at hand serves a request: without a size
/// that the client knows of, where there is anything behind the start of the
/// range; with one, where the file is no shorter, and there is anything to send
/// or the client has it all.
pub open spec fn satisfies(
    len: int,
    range_start: Option<u64>,
    id_list_size: Option<u64>,
) -> bool {
    match (range_start, id_list_size) {
        (Some(start), None) => len > start,
        (Some(start), Some(size)) => (len > start || (len == start && len == size)) && len >= size,
        (None, None) => true,
        (None, Some(size)) => len >= size,
    }
}

/// What is done to answer a request for a file.
#[derive(Debug)]
pub enum FileLookup {
    /// The file at hand serves.
    Hit(Arc<Vec<u8>>),
    /// The request names no file.
    NoFile,
    /// The file must be fetched first.
    Fetch,
}

/// The files that were fetched lately.
pub struct IdListFileStore {
    store: Cache<String, Arc<Vec<u8>>, RandomState>,
}

/// What may be kept after a response.
pub open spec fn files_after(
    m: Map<Seq<char>, Seq<u8>>,
    file_id: Option<Seq<char>>,
    result: DataProviderRequestResult,
    data: Seq<u8>,
) -> Map<Seq<char>, Seq<u8>> {
    match file_id {
        None => m,
        Some(id) => match result {
            DataProviderRequestResult::DataAvailable => m.insert(id, data),
            DataProviderRequestResult::Error => m.insert(id, data),
            DataProviderRequestResult::Unauthorized => m.remove(id),
            _ => m,
        },
    }
}

/// Whether a response with this outcome brings a file to keep.
pub open spec fn brings_file(result: DataProviderRequestResult) -> bool {
    result == DataProviderRequestResult::DataAvailable || result == DataProviderRequestResult::Error
}

/// The file among these that a request names.
pub open spec fn named_file(
    files: Map<Seq<char>, Seq<u8>>,
    c: authorized_request_context::ContextView,
) -> Option<Seq<u8>> {
    match c.file_id {
        Some(id) => if files.contains_key(id) {
            Some(files[id])
        } else {
            None
        },
        None => None,
    }
}

/// The file among these that a request names, where it serves.
pub open spec fn served_file(
    files: Map<Seq<char>, Seq<u8>>,
    c: authorized_request_context::ContextView,
) -> Option<Seq<u8>> {
    match named_file(files, c) {
        Some(data) => if satisfies(data.len() as int, c.range_start, c.id_list_size) {
            Some(data)
        } else {
            None
        },
        None => None,
    }
}

pub open spec fn file_option(r: Option<Arc<Vec<u8>>>) -> Option<Seq<u8>> {
    match r {
        Some(v) => Some(v@),
        None => None,
    }
}

impl IdListFileStore {
    /// The files at hand.
    pub closed spec fn files(&self) -> Map<Seq<char>, Seq<u8>> {
        cached_files(self.store)
    }

    pub closed spec fn limit(&self) -> u64 {
        cache_limit(self.store)
    }

    /// Whether there never were more files than the limit. Then none was dropped.
    pub closed spec fn within(&self) -> bool {
        cache_within(self.store)
    }

    pub fn new() -> (r: Self)
        ensures
            r.files() == no_files(),
            r.limit() == DEFAULT_ID_LIST_FILE_CACHE_CAPACITY,
            r.within(),
    {
        Self::with_capacity(DEFAULT_ID_LIST_FILE_CACHE_CAPACITY)
    }

    pub fn with_capacity(capacity: u64) -> (r: Self)
        ensures
            r.files() == no_files(),
            r.limit() == capacity,
            r.within(),
    {
        IdListFileStore { store: cache_new(capacity) }
    }

    pub fn cached_body_satisfies_request(bytes: &Vec<u8>, rc: &AuthorizedRequestContext) -> (r:
        bool)
        ensures
            r == satisfies(bytes@.len() as int, rc@.range_start, rc@.id_list_size),
    {
        let cached_len: u64 = bytes.len() as u64;
        match rc.range_start {
            Some(start) => match rc.id_list_size {
                None => cached_len > start,
                Some(size) => (cached_len > start || (cached_len == start && cached_len == size))
                    && cached_len >= size,
            },
            None => match rc.id_list_size {
                None => true,
                Some(size) => cached_len >= size,
            },
        }
    }

    /// The file that a request names, where it is at hand.
    pub fn get_stored_body(&mut self, rc: &AuthorizedRequestContext) -> (r: Option<Arc<Vec<u8>>>)
        ensures
            final(self).limit() == old(self).limit(),
            final(self).files().submap_of(old(self).files()),
            match r {
                Some(v) => rc@.file_id is Some && old(self).files().contains_pair(
                    rc@.file_id->0,
                    v@,
                ),
                None => rc@.file_id matches Some(id) ==> !final(self).files().contains_key(id),
            },
            old(self).within() ==> final(self).within() && final(self).files() == old(
                self,
            ).files(),
            old(self).within() ==> file_option(r) == named_file(old(self).files(), rc@),
    {
        match &rc.file_id {
            Some(id) => cache_get(&mut self.store, id.as_str()),
            None => None,
        }
    }

    /// The file that a request names, where it is at hand and serves.
    pub fn get_cached_hit(&mut self, rc: &AuthorizedRequestContext) -> (r: Option<Arc<Vec<u8>>>)
        ensures
            final(self).limit() == old(self).limit(),
            final(self).files().submap_of(old(self).files()),
            match r {
                Some(v) => rc@.file_id is Some && old(self).files().contains_pair(
                    rc@.file_id->0,
                    v@,
                ) && satisfies(v@.len() as int, rc@.range_start, rc@.id_list_size),
                None => rc@.file_id matches Some(id) ==> final(self).files().contains_key(id)
                    ==> !satisfies(
                    old(self).files()[id].len() as int,
                    rc@.range_start,
                    rc@.id_list_size,
                ),
            },
            old(self).within() ==> final(self).within() && final(self).files() == old(
                self,
            ).files(),
            old(self).within() ==> file_option(r) == served_file(old(self).files(), rc@),
    {
        match self.get_stored_body(rc) {
            Some(hit) => if Self::cached_body_satisfies_request(&hit, rc) {
                Some(hit)
            } else {
                None
            },
            None => None,
        }
    }

    /// Whether the file at hand serves a request.
    pub fn is_fresh_enough(&mut self, rc: &AuthorizedRequestContext) -> (r: bool)
        ensures
            final(self).limit() == old(self).limit(),
            final(self).files().submap_of(old(self).files()),
            r ==> rc@.file_id is Some && old(self).files().contains_key(rc@.file_id->0) && satisfies(
                old(self).files()[rc@.file_id->0].len() as int,
                rc@.range_start,
                rc@.id_list_size,
            ),
            !r ==> (rc@.file_id matches Some(id) ==> final(self).files().contains_key(id)
                ==> !satisfies(
                old(self).files()[id].len() as int,
                rc@.range_start,
                rc@.id_list_size,
            )),
            old(self).within() ==> final(self).within() && final(self).files() == old(
                self,
            ).files(),
            old(self).within() ==> r == served_file(old(self).files(), rc@) is Some,
    {
        self.get_cached_hit(rc).is_some()
    }

    /// What is done to answer a request.
    pub fn look_up(&mut self, rc: &AuthorizedRequestContext) -> (r: FileLookup)
        ensures
            final(self).limit() == old(self).limit(),
            final(self).files().submap_of(old(self).files()),
            match r {
                FileLookup::Hit(v) => rc@.file_id is Some && old(self).files().contains_pair(
                    rc@.file_id->0,
                    v@,
                ) && satisfies(v@.len() as int, rc@.range_start, rc@.id_list_size),
                FileLookup::NoFile => rc@.file_id is None,
                FileLookup::Fetch => rc@.file_id matches Some(id) && (
                final(self).files().contains_key(id) ==> !satisfies(
                    old(self).files()[id].len() as int,
                    rc@.range_start,
                    rc@.id_list_size,
                )),
            },
            old(self).within() ==> final(self).within() && final(self).files() == old(
                self,
            ).files(),
            old(self).within() ==> match r {
                FileLookup::Hit(v) => served_file(old(self).files(), rc@) == Some(v@),
                FileLookup::NoFile => rc@.file_id is None,
                FileLookup::Fetch => rc@.file_id is Some && served_file(old(self).files(), rc@)
                    is None,
            },
    {
        match self.get_cached_hit(rc) {
            Some(hit) => FileLookup::Hit(hit),
            None => if rc.file_id.is_none() {
                FileLookup::NoFile
            } else {
                FileLookup::Fetch
            },
        }
    }

    /// Takes a response.
    pub fn update(
        &mut self,
        request_context: &FullRequestContext,
        response_context: &ResponseContext,
    )
        ensures
            final(self).limit() == old(self).limit(),
            final(self).files().submap_of(
                files_after(
                    old(self).files(),
                    request_context.authorized_request_context@.file_id,
                    response_context.result_type,
                    response_context.body@.data,
                ),
            ),
            ({
                let after = files_after(
                    old(self).files(),
                    request_context.authorized_request_context@.file_id,
                    response_context.result_type,
                    response_context.body@.data,
                );
                old(self).within() && (brings_file(response_context.result_type)
                    ==> after.dom().len() <= old(self).limit()) ==> final(self).within()
                    && final(self).files() == after
            }),
    {
        let key = match &request_context.authorized_request_context.file_id {
            Some(id) => id.clone(),
            None => {
                return;
            },
        };
        match response_context.result_type {
            DataProviderRequestResult::DataAvailable | DataProviderRequestResult::Error => {
                let data = response_context.body.data.clone();
                cache_insert(&mut self.store, key, Arc::new(data));
            },
            DataProviderRequestResult::Unauthorized => {
                cache_invalidate(&mut self.store, key.as_str());
            },
            _ => {},
        }
    }

    /// Drops what is over the limit now, and counts what is left.
    pub fn settle(&mut self) -> (r: u64)
        ensures
            old(self).within() ==> r == final(self).files().dom().len(),
            final(self).limit() == old(self).limit(),
            final(self).files().submap_of(old(self).files()),
            old(self).within() ==> final(self).within() && final(self).files() == old(
                self,
            ).files(),
    {
        cache_settle(&mut self.store)
    }
}

/// Whatever is at hand for a file is what came last for it, and nothing where the
/// file was refused.
pub proof fn law_files_are_what_came_last(
    m: Map<Seq<char>, Seq<u8>>,
    id: Seq<char>,
    result: DataProviderRequestResult,
    data: Seq<u8>,
    kept: Map<Seq<char>, Seq<u8>>,
    other: Seq<char>,
)
    requires
        kept.submap_of(files_after(m, Some(id), result, data)),
        kept.contains_key(other),
    ensures
        result == DataProviderRequestResult::Unauthorized ==> other != id,
        result == DataProviderRequestResult::DataAvailable && other == id ==> kept[other] == data,
        other != id ==> m.contains_key(other) && kept[other] == m[other],
{
    assert(files_after(m, Some(id), result, data).contains_key(other));
}

/// A read gives back what was written: a file that came for a request is what the
/// next request for it gets, where it serves it, and what other requests get is as it
/// was. A file that was refused is gone.
pub proof fn law_stored_files_are_read_back(
    m: Map<Seq<char>, Seq<u8>>,
    id: Seq<char>,
    result: DataProviderRequestResult,
    data: Seq<u8>,
    c: authorized_request_context::ContextView,
)
    ensures
        c.file_id == Some(id) && brings_file(result) ==> {
            let after = files_after(m, Some(id), result, data);
            &&& named_file(after, c) == Some(data)
            &&& served_file(after, c) == (if satisfies(
                data.len() as int,
                c.range_start,
                c.id_list_size,
            ) {
                Some(data)
            } else {
                None
            })
        },
        c.file_id == Some(id) && result == DataProviderRequestResult::Unauthorized ==> named_file(
            files_after(m, Some(id), result, data),
            c,
        ) is None,
        c.file_id != Some(id) ==> named_file(files_after(m, Some(id), result, data), c)
            == named_file(m, c),
{
}

/// A client that has all of a file that has not grown is served from what is at
/// hand, and one that has less than what is known of is not.
pub proof fn law_known_sizes(len: int, size: u64)
    requires
        0 <= len,
    ensures
        satisfies(len, Some(size), Some(size)) <==> len >= size,
        satisfies(len, None, Some(size)) <==> len >= size,
        satisfies(len, Some(0), Some(size)) ==> len >= size,
{
}

/// What is kept of a file serves a request that asks for nothing of it, one that asks for a
/// part that is there, and one that knows the size and is not behind it. It never serves a
/// part that starts behind the end, nor a size that is not reached. More of the file serves
/// all that less of it does.
pub proof fn law_files_serve_what_they_hold(
    len: int,
    longer: int,
    range_start: Option<u64>,
    id_list_size: Option<u64>,
    start: u64,
    size: u64,
)
    requires
        0 <= len <= longer,
    ensures
        satisfies(len, None, None),
        satisfies(len, Some(start), None) <==> len > start,
        satisfies(len, None, Some(size)) <==> len >= size,
        len > start && len >= size ==> satisfies(len, Some(start), Some(size)),
        satisfies(len, range_start, id_list_size) ==> satisfies(longer, range_start, id_list_size),
        satisfies(len, Some(start), id_list_size) ==> len >= start,
        satisfies(len, range_start, Some(size)) ==> len >= size,
        satisfies(len, Some(start), Some(size)) && len == start ==> start == size,
{
}

/// Only a response for a file changes files, and only where it brings one or refuses it.
pub proof fn law_responses_change_their_own_file(
    m: Map<Seq<char>, Seq<u8>>,
    id: Seq<char>,
    result: DataProviderRequestResult,
    data: Seq<u8>,
    other: Seq<char>,
)
    ensures
        files_after(m, None, result, data) == m,
        result == DataProviderRequestResult::DataAvailable || result
            == DataProviderRequestResult::Error ==> files_after(m, Some(id), result, data)
            == m.insert(id, data),
        result == DataProviderRequestResult::Unauthorized ==> !files_after(
            m,
            Some(id),
            result,
            data,
        ).contains_key(id),
        result == DataProviderRequestResult::NoDataAvailable || result
            == DataProviderRequestResult::ClientError ==> files_after(m, Some(id), result, data)
            == m,
        other != id ==> (files_after(m, Some(id), result, data).contains_key(other)
            <==> m.contains_key(other)),
        other != id && m.contains_key(other) ==> files_after(m, Some(id), result, data)[other]
            == m[other],
{
}

/// A file is served exactly where it is kept and long enough for the request.
pub proof fn law_kept_files_are_served(
    files: Map<Seq<char>, Seq<u8>>,
    c: authorized_request_context::ContextView,
    data: Seq<u8>,
)
    ensures
        served_file(files, c) == Some(data) <==> (c.file_id is Some && files.contains_key(
            c.file_id->0,
        ) && files[c.file_id->0] == data && satisfies(
            data.len() as int,
            c.range_start,
            c.id_list_size,
        )),
        named_file(files, c) == Some(data) <==> (c.file_id is Some && files.contains_key(
            c.file_id->0,
        ) && files[c.file_id->0] == data),
{
}

} // verus!
