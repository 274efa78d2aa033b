//! Which files of ids are fetched again when a new list of them comes in.

use crate::datastore::data_providers::{
    DataProviderRequestResult, FullRequestContext, ResponseContext,
};
use crate::datastore::id_list_file_store;
use crate::datastore::id_list_file_store::IdListFileStore;
use crate::datastore::id_list_manifest::{IdListManifest, IdListManifestEntry};
use crate::servers::authorized_request_context;
use crate::servers::authorized_request_context::AuthorizedRequestContext;
use crate::servers::normalized_path;
use crate::servers::normalized_path::NormalizedPath;
use crate::text;
use crate::utils::compress_encoder::CompressionEncoder;
use reqwest::Url;
use std::sync::Arc;
use vstd::prelude::*;

verus! {

/// How many files are fetched again at once.
pub const MAX_CONCURRENT_ID_LIST_FILE_REFRESHES: usize = 8;

/// The path and the query of a URL, or the reason why the text is none.
pub uninterp spec fn url_parts(url: Seq<char>) -> Result<
    (Seq<char>, Option<Seq<char>>),
    Seq<char>,
>;

pub open spec fn url_parts_view(r: Result<(String, Option<String>), String>) -> Result<
    (Seq<char>, Option<Seq<char>>),
    Seq<char>,
> {
    match r {
        Ok((path, query)) => Ok((path@, text::text_option(query))),
        Err(e) => Err(e@),
    }
}

/// `Url::parse` with `Url::path` and `Url::query`. What a text holds depends on
/// the text alone.
#[verifier::external_body]
fn parse_url(url: &str) -> (r: Result<(String, Option<String>), String>)
    ensures
        url_parts_view(r) == url_parts(url@),
{
    let parsed = Url::parse(url).map_err(|e| e.to_string())?;
    Ok((parsed.path().to_string(), parsed.query().map(str::to_string)))
}

/// The file that the path of a blob names.
pub open spec fn blob_file_id(path: Seq<char>) -> Option<Seq<char>> {
    match text::after_prefix(path, "/idlists/"@) {
        Some(rest) => {
            let id = rest.take(text::run_len(rest, '/'));
            if id.len() > 0 {
                Some(id)
            } else {
                None
            }
        },
        None => None,
    }
}

pub fn parse_id_list_file_id_from_blob_path(path: &str) -> (r: Option<String>)
    ensures
        text::text_option(r) == blob_file_id(path@),
{
    match text::strip_prefix(path, "/idlists/") {
        Some(rest) => {
            let chars = text::to_chars(rest);
            proof {
                text::lemma_run_len(rest@, '/');
                assert(rest@.skip(0) =~= rest@);
            }
            let n = text::find_char(&chars, '/', 0);
            assert(n == text::run_len(rest@, '/'));
            if n == 0 {
                return None;
            }
            assert(rest@.subrange(0, n as int) =~= rest@.take(n as int));
            Some(text::from_chars(&chars, 0, n))
        },
        None => None,
    }
}

/// The request for a file of a list: a full refresh of at least the size that
/// the list tells.
pub open spec fn file_context(
    sdk_key: Seq<char>,
    raw_path: Seq<char>,
    raw_query: Option<Seq<char>>,
    file_id: Seq<char>,
    size: u64,
) -> authorized_request_context::ContextView {
    authorized_request_context::ContextView {
        raw_path: Some(raw_path),
        raw_query,
        file_id: Some(file_id),
        range_start: Some(0),
        id_list_size: Some(size),
        ..authorized_request_context::new_context(
            sdk_key,
            normalized_path::PathView::V1DownloadIdListFile,
            seq![CompressionEncoder::PlainText],
        )
    }
}

/// The request for the file at a URL, from the parts of the URL. A path into blob
/// storage is mapped to the path under which this proxy serves the file.
pub open spec fn manifest_context(
    sdk_key: Seq<char>,
    parts: Result<(Seq<char>, Option<Seq<char>>), Seq<char>>,
    size: u64,
) -> Result<authorized_request_context::ContextView, Seq<char>> {
    match parts {
        Err(e) => Err("manifest URL could not be parsed: "@ + e),
        Ok((path, query)) => match authorized_request_context::id_list_file_id(path) {
            Some(id) => Ok(file_context(sdk_key, path, query, id, size)),
            None => match blob_file_id(path) {
                Some(id) => Ok(
                    file_context(
                        sdk_key,
                        "/v1/download_id_list_file/"@ + id,
                        query,
                        id,
                        size,
                    ),
                ),
                None => Err(
                    "manifest URL does not target /v1/download_id_list_file/<file_id> or /idlists/<file_id>"@,
                ),
            },
        },
    }
}

pub open spec fn context_result(r: Result<Arc<AuthorizedRequestContext>, String>) -> Result<
    authorized_request_context::ContextView,
    Seq<char>,
> {
    match r {
        Ok(rc) => Ok(rc@),
        Err(e) => Err(e@),
    }
}

/// The request for the file at a URL, from the parts of the URL.
pub fn request_context_from_url_parts(
    sdk_key: &str,
    parts: Result<(String, Option<String>), String>,
    id_list_size: u64,
) -> (r: Result<Arc<AuthorizedRequestContext>, String>)
    ensures
        context_result(r) == manifest_context(sdk_key@, url_parts_view(parts), id_list_size),
{
    let (path, raw_query) = match parts {
        Ok(p) => p,
        Err(e) => {
            let mut message = "manifest URL could not be parsed: ".to_owned();
            message.append(e.as_str());
            return Err(message);
        },
    };
    let (raw_path, file_id) = match authorized_request_context::parse_id_list_file_id(
        path.as_str(),
    ) {
        Some(id) => (path, id),
        None => match parse_id_list_file_id_from_blob_path(path.as_str()) {
            Some(id) => {
                let mut local = "/v1/download_id_list_file/".to_owned();
                local.append(id.as_str());
                (local, id)
            },
            None => {
                return Err(
                    "manifest URL does not target /v1/download_id_list_file/<file_id> or /idlists/<file_id>".to_owned(),
                );
            },
        },
    };
    let mut encodings: Vec<CompressionEncoder> = Vec::new();
    encodings.push(CompressionEncoder::PlainText);
    assert(encodings@ =~= seq![CompressionEncoder::PlainText]);
    Ok(
        Arc::new(
            AuthorizedRequestContext::new(
                sdk_key.to_owned(),
                NormalizedPath::V1DownloadIdListFile,
                encodings,
            ).with_raw_request(Some(raw_path), raw_query).with_id_list_request(
                Some(file_id),
                Some(0),
                Some(id_list_size),
            ),
        ),
    )
}

/// The request for the file at a URL.
pub fn request_context_from_manifest_url(sdk_key: &str, url: &str, id_list_size: u64) -> (r: Result<
    Arc<AuthorizedRequestContext>,
    String,
>)
    ensures
        context_result(r) == manifest_context(sdk_key@, url_parts(url@), id_list_size),
{
    request_context_from_url_parts(sdk_key, parse_url(url), id_list_size)
}

/// Whether a response brings a new list.
pub open spec fn brings_manifest(
    c: authorized_request_context::ContextView,
    result: DataProviderRequestResult,
) -> bool {
    c.path is V1GetIdLists && result == DataProviderRequestResult::DataAvailable
}

/// The request for the file of a list with a name, where there is such a file and
/// its URL can be served.
pub open spec fn listed_context(
    manifest: IdListManifest,
    sdk_key: Seq<char>,
    name: Seq<char>,
) -> Option<authorized_request_context::ContextView> {
    match manifest.named(name) {
        Some(e) => match manifest_context(sdk_key, url_parts(e.url@), e.size) {
            Ok(c) => Some(c),
            Err(_) => None,
        },
        None => None,
    }
}

/// Whether each context is that of a list of its own, `names` giving the lists.
pub open spec fn asks_once(
    manifest: IdListManifest,
    sdk_key: Seq<char>,
    names: Seq<Seq<char>>,
    contexts: Seq<Arc<AuthorizedRequestContext>>,
) -> bool {
    &&& names.len() == contexts.len()
    &&& names.no_duplicates()
    &&& forall|j: int|
        0 <= j < names.len() ==> listed_context(manifest, sdk_key, #[trigger] names[j]) == Some(
            contexts[j]@,
        )
}

/// Whether the file of a request is at hand in full.
pub open spec fn is_at_hand(
    files: Map<Seq<char>, Seq<u8>>,
    c: authorized_request_context::ContextView,
) -> bool {
    files.contains_key(c.file_id->0) && id_list_file_store::satisfies(
        files[c.file_id->0].len() as int,
        c.range_start,
        c.id_list_size,
    )
}

/// Fetches files again.
pub struct IdListFileRefreshObserver {}

impl IdListFileRefreshObserver {
    /// Whether a response is looked at.
    pub fn wants(request_context: &FullRequestContext, response_context: &ResponseContext) -> (r:
        bool)
        ensures
            r == brings_manifest(
                request_context.authorized_request_context@,
                response_context.result_type,
            ),
    {
        request_context.authorized_request_context.path == NormalizedPath::V1GetIdLists
            && response_context.result_type == DataProviderRequestResult::DataAvailable
    }

    /// The requests for the files of a list that are not at hand in full. Files
    /// whose URLs cannot be served are left out.
    pub fn download_request_contexts_from_manifest(
        store: &mut IdListFileStore,
        sdk_key: &str,
        manifest: &IdListManifest,
    ) -> (r: Vec<Arc<AuthorizedRequestContext>>)
        ensures
            final(store).limit() == old(store).limit(),
            final(store).files().submap_of(old(store).files()),
            old(store).within() ==> final(store).within() && final(store).files() == old(
                store,
            ).files(),
            exists|names: Seq<Seq<char>>| #[trigger] asks_once(*manifest, sdk_key@, names, r@),
            forall|j: int|
                0 <= j < r@.len() ==> !is_at_hand(final(store).files(), (#[trigger] r@[j])@),
            forall|name: Seq<char>|
                #![trigger listed_context(*manifest, sdk_key@, name)]
                listed_context(*manifest, sdk_key@, name) is Some && !is_at_hand(
                    old(store).files(),
                    listed_context(*manifest, sdk_key@, name)->0,
                ) ==> exists|j: int|
                    0 <= j < r@.len() && listed_context(*manifest, sdk_key@, name) == Some(
                        (#[trigger] r@[j])@,
                    ),
    {
        let entries = manifest.values();
        let ghost files = store.files();
        let mut r: Vec<Arc<AuthorizedRequestContext>> = Vec::new();
        let ghost mut names: Seq<Seq<char>> = Seq::empty();
        let mut i: usize = 0;
        while i < entries.len()
            invariant
                i <= entries@.len(),
                asks_once(*manifest, sdk_key@, names, r@),
                forall|j: int|
                    0 <= j < names.len() ==> exists|a: int|
                        0 <= a < i && (#[trigger] entries@[a]).name@ == #[trigger] names[j],
                forall|a: int, b: int|
                    0 <= a < b < entries@.len() ==> (#[trigger] entries@[a]).name@ != (
                    #[trigger] entries@[b]).name@,
                files == old(store).files(),
                store.limit() == old(store).limit(),
                store.files().submap_of(files),
                old(store).within() ==> store.within() && store.files() == files,
                forall|a: int|
                    0 <= a < entries@.len() ==> manifest.named((#[trigger] entries@[a]).name@)
                        == Some(*entries@[a]),
                forall|j: int|
                    0 <= j < r@.len() ==> !is_at_hand(store.files(), (#[trigger] r@[j])@),
                forall|a: int|
                    #![trigger entries@[a]]
                    0 <= a < i && listed_context(*manifest, sdk_key@, entries@[a].name@) is Some
                        && !is_at_hand(
                        files,
                        listed_context(*manifest, sdk_key@, entries@[a].name@)->0,
                    ) ==> exists|j: int|
                        0 <= j < r@.len() && listed_context(
                            *manifest,
                            sdk_key@,
                            entries@[a].name@,
                        ) == Some((#[trigger] r@[j])@),
            decreases entries@.len() - i,
        {
            let ghost before = r@;
            let ghost here = store.files();
            let entry = entries[i];
            let ghost name = entry.name@;
            assert(manifest.named(entries@[i as int].name@) == Some(*entry));
            if let Ok(context) = request_context_from_manifest_url(
                sdk_key,
                entry.url.as_str(),
                entry.size,
            ) {
                let ghost view = context@;
                assert(listed_context(*manifest, sdk_key@, name) == Some(view));
                if !store.is_fresh_enough(&context) {
                    assert(!names.contains(name));
                    proof {
                        names = names.push(name);
                    }
                    r.push(context);
                    assert(r@[before.len() as int]@ == view);
                }
            }
            assert forall|k: Seq<char>| #[trigger] store.files().dom().contains(k) implies (
            here.dom().contains(k) && files.dom().contains(k) && store.files()[k] == files[k]
                && here[k] == files[k]) by {
                assert(here.dom().contains(k));
                assert(files.dom().contains(k));
            }
            assert forall|j: int| 0 <= j < r@.len() implies !is_at_hand(
                store.files(),
                (#[trigger] r@[j])@,
            ) by {
                let id = r@[j]@.file_id->0;
                assert(store.files().dom().contains(id) ==> here.dom().contains(id));
                if j < before.len() {
                    assert(r@[j] == before[j]);
                }
            }
            assert forall|a: int|
                #![trigger entries@[a]]
                0 <= a < i + 1 && listed_context(*manifest, sdk_key@, entries@[a].name@) is Some
                    && !is_at_hand(
                    files,
                    listed_context(*manifest, sdk_key@, entries@[a].name@)->0,
                ) implies exists|j: int|
                0 <= j < r@.len() && listed_context(*manifest, sdk_key@, entries@[a].name@)
                    == Some((#[trigger] r@[j])@) by {
                if a < i {
                    let j = choose|j: int|
                        0 <= j < before.len() && listed_context(
                            *manifest,
                            sdk_key@,
                            entries@[a].name@,
                        ) == Some((#[trigger] before[j])@);
                    assert(r@[j] == before[j]);
                } else {
                    let c = listed_context(*manifest, sdk_key@, name)->0;
                    if here.contains_key(c.file_id->0) {
                        assert(files.contains_key(c.file_id->0));
                    }
                    assert(r@[before.len() as int]@ == c);
                }
            }
            i += 1;
        }
        assert forall|name: Seq<char>|
            #![trigger listed_context(*manifest, sdk_key@, name)]
            listed_context(*manifest, sdk_key@, name) is Some && !is_at_hand(
                old(store).files(),
                listed_context(*manifest, sdk_key@, name)->0,
            ) implies exists|j: int|
            0 <= j < r@.len() && listed_context(*manifest, sdk_key@, name) == Some(
                (#[trigger] r@[j])@,
            ) by {
            assert(manifest.named(name) is Some);
            let a = choose|a: int|
                0 <= a < entries@.len() && (#[trigger] entries@[a]).name@ == name;
            assert(entries@[a].name@ == name);
        }
        r
    }
}

/// A file that is listed is asked for in full, under its own name.
pub proof fn law_listed_files_are_asked_for_in_full(
    sdk_key: Seq<char>,
    parts: Result<(Seq<char>, Option<Seq<char>>), Seq<char>>,
    size: u64,
    len: int,
)
    requires
        manifest_context(sdk_key, parts, size) is Ok,
        0 <= len,
    ensures
        ({
            let c = manifest_context(sdk_key, parts, size)->Ok_0;
            &&& c.path is V1DownloadIdListFile
            &&& c.file_id is Some
            &&& c.range_start == Some(0u64)
            &&& id_list_file_store::satisfies(len, c.range_start, c.id_list_size) ==> len >= size
        }),
{
}

/// The file of a blob stands between the container and the next slash, and is never empty.
pub proof fn law_blobs_name_their_file(id: Seq<char>, rest: Seq<char>, s: Seq<char>)
    requires
        !id.contains('/'),
    ensures
        id.len() > 0 ==> blob_file_id("/idlists/"@ + id) == Some(id),
        id.len() > 0 ==> blob_file_id("/idlists/"@ + (id + seq!['/'] + rest)) == Some(id),
        blob_file_id("/idlists/"@ + (seq!['/'] + rest)) is None,
        !text::has_prefix(s, "/idlists/"@) ==> blob_file_id(s) is None,
{
    let p = "/idlists/"@;
    text::law_texts_start_and_end(p, id, id);
    text::law_texts_start_and_end(p, id + seq!['/'] + rest, id);
    text::law_texts_start_and_end(p, seq!['/'] + rest, id);
    text::lemma_run_len(id, '/');
    assert(id.take(id.len() as int) =~= id);
    text::law_texts_are_cut_at_the_first(id, rest, '/');
    let t = id + seq!['/'] + rest;
    text::lemma_run_len(t, '/');
    assert(t[id.len() as int] == '/');
    assert(t.contains('/'));
    assert((seq!['/'] + rest)[0] == '/');
}

/// A file that a manifest lists is asked for by its key, its size and the query of its
/// address: on its own path where the address is that of a file, and on the path of files
/// where it is that of a blob. Any other address is an error.
pub proof fn law_listed_files_are_asked_for_by_their_address(
    sdk_key: Seq<char>,
    id: Seq<char>,
    path: Seq<char>,
    query: Option<Seq<char>>,
    size: u64,
    reason: Seq<char>,
)
    requires
        !id.contains('/'),
        id.len() > 0,
    ensures
        ({
            let r = manifest_context(
                sdk_key,
                Ok(("/v1/download_id_list_file/"@ + id, query)),
                size,
            );
            let b = manifest_context(sdk_key, Ok(("/idlists/"@ + id, query)), size);
            &&& r matches Ok(c)
            &&& c.sdk_key == sdk_key
            &&& c.file_id == Some(id)
            &&& c.raw_path == Some("/v1/download_id_list_file/"@ + id)
            &&& c.raw_query == query
            &&& c.id_list_size == Some(size)
            &&& c.range_start == Some(0u64)
            &&& c.path == normalized_path::PathView::V1DownloadIdListFile
            &&& b == r
        }),
        manifest_context(sdk_key, Err(reason), size) is Err,
        authorized_request_context::id_list_file_id(path) is None && blob_file_id(path) is None
            ==> manifest_context(sdk_key, Ok((path, query)), size) is Err,
{
    authorized_request_context::law_paths_name_their_file(id, id, "/idlists/"@ + id);
    law_blobs_name_their_file(id, id, id);
    reveal_strlit("/v1/download_id_list_file/");
    reveal_strlit("/idlists/");
    let s = "/idlists/"@ + id;
    if text::has_prefix(s, "/v1/download_id_list_file/"@) {
        assert(s.take(26)[1] == s[1]);
    }
}

/// Files are looked for where a request for lists brought some, and nowhere else.
pub proof fn law_manifests_come_with_lists(
    c: authorized_request_context::ContextView,
    result: DataProviderRequestResult,
)
    ensures
        brings_manifest(c, result) <==> c.path == normalized_path::PathView::V1GetIdLists && result
            == DataProviderRequestResult::DataAvailable,
{
}

/// A name is asked for with the address and size of the entry that counts for it.
pub proof fn law_names_are_asked_for_by_their_entry(
    manifest: IdListManifest,
    sdk_key: Seq<char>,
    name: Seq<char>,
    e: IdListManifestEntry,
)
    ensures
        manifest.named(name) is None ==> listed_context(manifest, sdk_key, name) is None,
        manifest.named(name) == Some(e) ==> {
            &&& listed_context(manifest, sdk_key, name) is Some <==> manifest_context(
                sdk_key,
                url_parts(e.url@),
                e.size,
            ) is Ok
            &&& listed_context(manifest, sdk_key, name) matches Some(c) ==> c.sdk_key == sdk_key
                && c.id_list_size == Some(e.size)
        },
{
}

} // verus!
