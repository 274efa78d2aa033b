//! SDK keys: where a request carries its key, and how keys appear in logs.

use crate::keyed_store;
use crate::keyed_store::{KeyedStore, StoreKey};
use crate::servers::normalized_path;
use crate::servers::normalized_path::NormalizedPath;
use crate::text;
use regex::{Captures, Regex};
use reqwest::Url;
use std::borrow::Cow;
use vstd::prelude::*;

verus! {

/// How many characters of a key are logged.
pub const SDK_KEY_PREFIX_LENGTH: usize = 20;

/// A key as it is logged: cut behind its prefix where it is longer.
pub open spec fn logged_key(s: Seq<char>) -> Seq<char> {
    if s.len() > SDK_KEY_PREFIX_LENGTH {
        s.take(SDK_KEY_PREFIX_LENGTH as int) + "***"@
    } else {
        s
    }
}

pub fn sdk_key_prefix(sdk_key: &str) -> (r: Cow<'_, str>)
    ensures
        r@ == logged_key(sdk_key@),
        (r is Borrowed) == (sdk_key@.len() <= SDK_KEY_PREFIX_LENGTH),
{
    let n = sdk_key.unicode_len();
    if n <= SDK_KEY_PREFIX_LENGTH {
        return Cow::Borrowed(sdk_key);
    }
    assert(sdk_key@.subrange(0, 20) == sdk_key@.take(20));
    let mut prefixed = sdk_key.substring_char(0, SDK_KEY_PREFIX_LENGTH).to_owned();
    prefixed.append("***");
    Cow::Owned(prefixed)
}

/// ASCII letters and digits: what the body of a key is made of.
pub open spec fn is_alphanumeric(c: char) -> bool {
    'A' <= c <= 'Z' || 'a' <= c <= 'z' || '0' <= c <= '9'
}

/// How many letters and digits a text starts with.
pub open spec fn alphanumeric_run(s: Seq<char>) -> int
    decreases s.len(),
{
    if s.len() > 0 && is_alphanumeric(s[0]) {
        1 + alphanumeric_run(s.drop_first())
    } else {
        0
    }
}

/// Whether a text starts with the kind of a key and a hyphen.
pub open spec fn starts_like_key(s: Seq<char>) -> bool {
    ||| text::has_prefix(s, "client-"@)
    ||| text::has_prefix(s, "server-"@)
    ||| text::has_prefix(s, "secret-"@)
}

/// The length of the key that a text starts with, zero where it starts with
/// none: a kind of seven characters, hyphen counted, and a body that goes as far
/// as it can.
pub open spec fn key_len(s: Seq<char>) -> int {
    if starts_like_key(s) && alphanumeric_run(s.skip(7)) > 0 {
        7 + alphanumeric_run(s.skip(7))
    } else {
        0
    }
}

pub proof fn lemma_alphanumeric_run(s: Seq<char>)
    ensures
        0 <= alphanumeric_run(s) <= s.len(),
        forall|i: int| 0 <= i < alphanumeric_run(s) ==> is_alphanumeric(#[trigger] s[i]),
        alphanumeric_run(s) < s.len() ==> !is_alphanumeric(s[alphanumeric_run(s)]),
    decreases s.len(),
{
    if s.len() > 0 && is_alphanumeric(s[0]) {
        let t = s.drop_first();
        lemma_alphanumeric_run(t);
        assert forall|i: int| 0 <= i < alphanumeric_run(s) implies is_alphanumeric(#[trigger] s[i]) by {
            if i > 0 {
                assert(s[i] == t[i - 1]);
            }
        }
    }
}

pub proof fn lemma_key_len(s: Seq<char>)
    ensures
        0 <= key_len(s) <= s.len(),
        key_len(s) == 0 || key_len(s) > 7,
{
    reveal_strlit("client-");
    reveal_strlit("server-");
    reveal_strlit("secret-");
    if starts_like_key(s) {
        lemma_alphanumeric_run(s.skip(7));
    }
}

/// The text with each key in it as it is logged. Keys are found from the left
/// and do not overlap.
pub open spec fn redacted(s: Seq<char>) -> Seq<char>
    decreases s.len(),
{
    if s.len() == 0 {
        s
    } else if 0 < key_len(s) <= s.len() {
        logged_key(s.take(key_len(s))) + redacted(s.skip(key_len(s)))
    } else {
        seq![s[0]] + redacted(s.drop_first())
    }
}

/// Whether a key stands anywhere in the text.
pub open spec fn has_key(s: Seq<char>) -> bool {
    exists|i: int| 0 <= i < s.len() && key_len(#[trigger] s.skip(i)) > 0
}

/// `Regex::replace_all` of the pattern of keys: it replaces the leftmost matches
/// that do not overlap, each as long as it can be, by what the closure makes of
/// them, and hands the text back where there are none.
#[verifier::external_body]
fn replace_keys<'a>(pattern: &str, text: &'a str) -> (r: Cow<'a, str>)
    requires
        pattern@ == "(?:client|server|secret)-[A-Za-z0-9]+"@,
    ensures
        r@ == redacted(text@),
        (r is Borrowed) == !has_key(text@),
{
    Regex::new(pattern).unwrap().replace_all(
        text,
        |captures: &Captures<'_>| sdk_key_prefix(&captures[0]).into_owned(),
    )
}

/// Cuts every key in `text` to its logged prefix, leaving other content intact.
pub fn redact_sdk_keys(text: &str) -> (r: Cow<'_, str>)
    ensures
        r@ == redacted(text@),
        (r is Borrowed) == !has_key(text@),
{
    replace_keys("(?:client|server|secret)-[A-Za-z0-9]+", text)
}

/// A text without keys is logged as it is.
pub proof fn law_text_without_keys_is_untouched(s: Seq<char>)
    requires
        !has_key(s),
    ensures
        redacted(s) == s,
    decreases s.len(),
{
    if s.len() > 0 {
        assert(s.skip(0) == s);
        let t = s.drop_first();
        assert forall|i: int| 0 <= i < t.len() implies key_len(#[trigger] t.skip(i)) <= 0 by {
            assert(t.skip(i) == s.skip(i + 1));
        }
        law_text_without_keys_is_untouched(t);
        assert(seq![s[0]] + t == s);
    }
}

/// A text whose keys are all short enough is logged as it is.
pub proof fn law_short_keys_are_untouched(s: Seq<char>)
    requires
        forall|i: int| 0 <= i < s.len() ==> key_len(#[trigger] s.skip(i)) <= SDK_KEY_PREFIX_LENGTH,
    ensures
        redacted(s) == s,
    decreases s.len(),
{
    if s.len() > 0 {
        assert(s.skip(0) == s);
        lemma_key_len(s);
        let n = key_len(s);
        let k = if n > 0 {
            n
        } else {
            1
        };
        let t = s.skip(k);
        assert forall|i: int| 0 <= i < t.len() implies key_len(#[trigger] t.skip(i))
            <= SDK_KEY_PREFIX_LENGTH by {
            assert(t.skip(i) == s.skip(i + k));
        }
        law_short_keys_are_untouched(t);
        if n > 0 {
            assert(s.take(n) + t == s);
        } else {
            assert(t == s.drop_first());
            assert(seq![s[0]] + t == s);
        }
    }
}

/// Redacting keeps the first characters of a text, and all of a short one.
proof fn lemma_redacted_start(s: Seq<char>)
    ensures
        s.len() <= SDK_KEY_PREFIX_LENGTH ==> redacted(s) == s,
        redacted(s).len() > SDK_KEY_PREFIX_LENGTH || redacted(s).len() == s.len(),
        forall|i: int|
            0 <= i < SDK_KEY_PREFIX_LENGTH && i < s.len() ==> i < redacted(s).len()
                && #[trigger] redacted(s)[i] == s[i],
    decreases s.len(),
{
    reveal_strlit("***");
    if s.len() > 0 {
        lemma_key_len(s);
        let n = key_len(s);
        let k = if n > 0 {
            n
        } else {
            1
        };
        let t = s.skip(k);
        lemma_redacted_start(t);
        let head = if n > 0 {
            logged_key(s.take(n))
        } else {
            seq![s[0]]
        };
        if n == 0 {
            assert(t == s.drop_first());
        }
        assert(redacted(s) == head + redacted(t));
        assert forall|i: int|
            0 <= i < SDK_KEY_PREFIX_LENGTH && i < s.len() implies i < redacted(s).len()
            && #[trigger] redacted(s)[i] == s[i] by {
            if i >= k {
                assert(redacted(t)[i - k] == t[i - k]);
            }
        }
        if s.len() <= SDK_KEY_PREFIX_LENGTH {
            assert(redacted(s) =~= s);
        }
    }
}

/// Whether a key starts a text shows in its first eight characters.
proof fn lemma_key_start(s: Seq<char>)
    ensures
        key_len(s) > 0 <==> starts_like_key(s) && s.len() > 7 && is_alphanumeric(s[7]),
{
    reveal_strlit("client-");
    reveal_strlit("server-");
    reveal_strlit("secret-");
    lemma_alphanumeric_run(s.skip(7));
    if starts_like_key(s) && s.len() > 7 {
        assert(s.skip(7)[0] == s[7]);
    }
}

proof fn lemma_redacted_star(s: Seq<char>)
    ensures
        redacted(seq!['*'] + s) == seq!['*'] + redacted(s),
{
    reveal_strlit("client-");
    reveal_strlit("server-");
    reveal_strlit("secret-");
    let t = seq!['*'] + s;
    assert(t[0] == '*');
    if starts_like_key(t) {
        assert(t.take(7)[0] == '*');
    }
    assert(t.drop_first() =~= s);
}

/// Redacting a text again changes nothing: no key is left that is longer than its
/// logged prefix.
pub proof fn law_redacted_text_stays(s: Seq<char>)
    ensures
        redacted(redacted(s)) == redacted(s),
    decreases s.len(),
{
    reveal_strlit("***");
    reveal_strlit("client-");
    reveal_strlit("server-");
    reveal_strlit("secret-");
    if s.len() > 0 {
        lemma_key_len(s);
        lemma_key_start(s);
        let n = key_len(s);
        let k = if n > 0 {
            n
        } else {
            1
        };
        let t = s.skip(k);
        let rest = redacted(t);
        let all = redacted(s);
        law_redacted_text_stays(t);
        lemma_redacted_start(s);
        lemma_redacted_start(t);
        lemma_key_len(all);
        lemma_key_start(all);
        if n == 0 {
            assert(t == s.drop_first());
            assert(all == seq![s[0]] + rest);
            assert(key_len(all) == 0) by {
                assert(all.len() > 7 ==> s.len() > 7);
                assert forall|i: int| 0 <= i < 8 && i < all.len() implies all[i] == s[i] by {
                    assert(i < s.len());
                }
                if starts_like_key(all) && all.len() > 7 && is_alphanumeric(all[7]) {
                    assert(all[7] == s[7]);
                    assert(all.take(7) =~= s.take(7));
                }
            }
            assert(all.drop_first() =~= rest);
            assert(all[0] == s[0]);
        } else {
            lemma_alphanumeric_run(s.skip(7));
            let m = if n > SDK_KEY_PREFIX_LENGTH {
                SDK_KEY_PREFIX_LENGTH as int
            } else {
                n
            };
            assert(all == logged_key(s.take(n)) + rest);
            assert(all.take(7) =~= s.take(7));
            assert forall|i: int| 7 <= i < m implies is_alphanumeric(#[trigger] all[i]) by {
                assert(all[i] == s.skip(7)[i - 7]);
            }
            if m == n && t.len() > 0 {
                assert(t[0] == s.skip(7)[n - 7]);
                assert(rest[0] == t[0]);
                assert(all[m] == rest[0]);
            }
            let tail = all.skip(7);
            lemma_alphanumeric_run(tail);
            let run = alphanumeric_run(tail);
            assert(run == m - 7) by {
                if run < m - 7 {
                    assert(is_alphanumeric(all[7 + run]));
                } else if run > m - 7 {
                    assert(tail[m - 7] == all[m]);
                }
            }
            assert(all.take(m).len() == m);
            if n > SDK_KEY_PREFIX_LENGTH {
                let stars = seq!['*'] + (seq!['*'] + (seq!['*'] + rest));
                assert(all.skip(m) =~= stars);
                lemma_redacted_star(rest);
                lemma_redacted_star(seq!['*'] + rest);
                lemma_redacted_star(seq!['*'] + (seq!['*'] + rest));
            } else {
                assert(all.skip(m) =~= rest);
            }
            assert(all.take(m) + all.skip(m) =~= all);
        }
    }
}

/// The name and value pairs in the query of a URL, percent-decoded; nothing
/// where the text is no URL.
pub uninterp spec fn url_query_pairs(url: Seq<char>) -> Option<Seq<(Seq<char>, Seq<char>)>>;

pub open spec fn pair_texts_option(
    v: Option<Vec<(String, String)>>,
) -> Option<Seq<(Seq<char>, Seq<char>)>> {
    match v {
        Some(p) => Some(text::pair_texts(p@)),
        None => None,
    }
}

/// `Url::parse` and, of what it gives, `Url::query_pairs`. Which pairs a text
/// holds is not said here, only that it depends on the text alone.
#[verifier::external_body]
fn parse_query_pairs(url: &str) -> (r: Option<Vec<(String, String)>>)
    ensures
        pair_texts_option(r) == url_query_pairs(url@),
{
    let url = Url::parse(url).ok()?;
    Some(url.query_pairs().map(|(k, v)| (k.into_owned(), v.into_owned())).collect())
}

/// The key that the query of a signed file download carries.
pub open spec fn signed_query_key(query: Seq<char>) -> Option<Seq<char>> {
    match url_query_pairs("http://dummy/?"@ + query) {
        Some(pairs) => text::first_value(pairs, "k"@),
        None => None,
    }
}

pub fn extract_download_id_list_file_sdk_key(query: &str) -> (r: Option<String>)
    ensures
        text::text_option(r) == signed_query_key(query@),
{
    let mut url = "http://dummy/?".to_owned();
    url.append(query);
    match parse_query_pairs(url.as_str()) {
        Some(pairs) => match text::find_value(&pairs, "k") {
            Some(key) => Some(key.to_owned()),
            None => None,
        },
        None => None,
    }
}

/// The key that the last segment of a path names, without its file extension.
pub open spec fn key_of_path(path: Seq<char>) -> Seq<char> {
    let stem = match text::before_suffix(path, ".json"@) {
        Some(t) => t,
        None => match text::before_suffix(path, ".js"@) {
            Some(t) => t,
            None => path,
        },
    };
    match text::after_last(stem, '/') {
        Some(key) => key,
        None => path,
    }
}

pub fn sdk_key_of_path(path: &str) -> (r: String)
    ensures
        r@ == key_of_path(path@),
{
    let stem = match text::strip_suffix(path, ".json") {
        Some(t) => t,
        None => match text::strip_suffix(path, ".js") {
            Some(t) => t,
            None => path,
        },
    };
    match text::behind_last(stem, '/') {
        Some(key) => key.to_owned(),
        None => path.to_owned(),
    }
}

/// The keys that were read from paths before.
pub struct SdkKeyCache {
    entries: KeyedStore<String>,
}

pub open spec fn path_key(path: Seq<char>) -> keyed_store::KeyView {
    (seq![path], Seq::empty())
}

impl SdkKeyCache {
    /// Every remembered key is the one its path names.
    pub closed spec fn wf(&self) -> bool {
        &&& self.entries.wf()
        &&& forall|path: Seq<char>| #[trigger]
            self.entries@.contains_key(path_key(path)) ==> self.entries@[path_key(path)]@
                == key_of_path(path)
    }

    /// Whether the key of a path is remembered.
    pub closed spec fn remembers(&self, path: Seq<char>) -> bool {
        self.entries@.contains_key(path_key(path))
    }

    pub fn new() -> (r: Self)
        ensures
            r.wf(),
            forall|path: Seq<char>| !r.remembers(path),
    {
        SdkKeyCache { entries: KeyedStore::new() }
    }

    /// The key that the path names, remembered from now on.
    pub fn key_of(&mut self, path: &str) -> (r: String)
        requires
            old(self).wf(),
        ensures
            final(self).wf(),
            r@ == key_of_path(path@),
            forall|p: Seq<char>| #[trigger]
                final(self).remembers(p) <==> old(self).remembers(p) || p == path@,
    {
        let mut names: Vec<String> = Vec::new();
        names.push(path.to_owned());
        let key = StoreKey { names, numbers: Vec::new() };
        assert(key@.0 =~= seq![path@]);
        assert(key@ == path_key(path@));
        assert forall|p: Seq<char>| #[trigger] path_key(p) == path_key(path@) implies p == path@ by {
            assert(path_key(p).0[0] == path_key(path@).0[0]);
        }
        if let Some(found) = self.entries.get(&key) {
            return found.clone();
        }
        let new_key = sdk_key_of_path(path);
        self.entries.insert(key, new_key.clone());
        new_key
    }
}

/// The key that a request without a key header is given: none for anything but
/// a `GET`, the signed one for a file download, and the one its path names
/// otherwise.
pub open spec fn key_to_add(
    has_header: bool,
    is_get: bool,
    path: Seq<char>,
    query: Option<Seq<char>>,
) -> Option<Seq<char>> {
    if has_header || !is_get {
        None
    } else if normalized_path::path_named(path)
        == normalized_path::PathView::V1DownloadIdListFile {
        match query {
            Some(q) => signed_query_key(q),
            None => None,
        }
    } else {
        Some(key_of_path(path))
    }
}

/// Decides which key header a request is given before it is routed.
pub fn normalize_sdk_key(
    cache: &mut SdkKeyCache,
    has_header: bool,
    is_get: bool,
    path: &str,
    query: &Option<String>,
) -> (r: Option<String>)
    requires
        old(cache).wf(),
    ensures
        final(cache).wf(),
        text::text_option(r) == key_to_add(has_header, is_get, path@, text::text_option(*query)),
        forall|p: Seq<char>| #[trigger]
            final(cache).remembers(p) <==> old(cache).remembers(p) || (p == path@ && !has_header
                && is_get && normalized_path::path_named(path@)
                != normalized_path::PathView::V1DownloadIdListFile),
{
    if has_header || !is_get {
        return None;
    }
    if NormalizedPath::parse(path) == NormalizedPath::V1DownloadIdListFile {
        return match query {
            Some(q) => extract_download_id_list_file_sdk_key(q.as_str()),
            None => None,
        };
    }
    Some(cache.key_of(path))
}

/// The key of a path is what follows its last slash, without the ending of a script or its
/// data. A path without a slash is a key as a whole.
pub proof fn law_keys_are_read_from_paths(dir: Seq<char>, key: Seq<char>, plain: Seq<char>)
    requires
        !key.contains('/'),
        !plain.contains('/'),
    ensures
        key_of_path(dir + seq!['/'] + key + ".json"@) == key,
        key_of_path(dir + seq!['/'] + key + ".js"@) == key,
        !text::has_suffix(dir + seq!['/'] + key, ".json"@) && !text::has_suffix(
            dir + seq!['/'] + key,
            ".js"@,
        ) ==> key_of_path(dir + seq!['/'] + key) == key,
        key_of_path(plain) == plain,
{
    reveal_strlit(".json");
    reveal_strlit(".js");
    let stem = dir + seq!['/'] + key;
    text::law_the_last_part_follows_the_last(dir, key, '/');
    text::law_texts_start_and_end(stem, ".json"@, stem);
    text::law_texts_start_and_end(stem, ".js"@, stem);
    assert(!text::has_suffix(stem + ".js"@, ".json"@)) by {
        let s = stem + ".js"@;
        if text::has_suffix(s, ".json"@) {
            assert(s.skip(s.len() - 5)[4] == s[s.len() - 1]);
            assert(s[s.len() - 1] == 's');
        }
    }
    text::law_the_last_part_follows_the_last(dir, plain, '/');
    lemma_no_slash(plain, plain.len() as int);
    lemma_no_slash(plain, plain.len() - 5);
    lemma_no_slash(plain, plain.len() - 3);
    assert(plain.take(plain.len() as int) =~= plain);
}

proof fn lemma_no_slash(s: Seq<char>, n: int)
    requires
        !s.contains('/'),
    ensures
        0 <= n <= s.len() ==> text::after_last(s.take(n), '/') is None,
{
    if 0 <= n <= s.len() {
        let t = s.take(n);
        assert forall|i: int| 0 <= i < t.len() implies t[i] != '/' by {
            assert(s.contains(s[i]));
        }
        text::law_the_last_part_follows_the_last(t, t, '/');
    }
}

/// A key is added to a request exactly where it has none, is one that reads, and its path
/// or its signed query tells one.
pub proof fn law_keys_are_added_where_they_are_missing(
    has_header: bool,
    is_get: bool,
    path: Seq<char>,
    query: Seq<char>,
)
    ensures
        key_to_add(true, is_get, path, Some(query)) is None,
        key_to_add(has_header, false, path, Some(query)) is None,
        normalized_path::path_named(path) != normalized_path::PathView::V1DownloadIdListFile ==> {
            &&& key_to_add(false, true, path, None) == Some(key_of_path(path))
            &&& key_to_add(false, true, path, Some(query)) == Some(key_of_path(path))
        },
        normalized_path::path_named(path) == normalized_path::PathView::V1DownloadIdListFile ==> {
            &&& key_to_add(false, true, path, None) is None
            &&& key_to_add(false, true, path, Some(query)) == signed_query_key(query)
        },
{
}

/// The key of a signed query is the value of its first `k`, wherever it stands in it.
pub proof fn law_signed_queries_name_their_key(
    query: Seq<char>,
    pairs: Seq<(Seq<char>, Seq<char>)>,
    i: int,
)
    requires
        url_query_pairs("http://dummy/?"@ + query) == Some(pairs),
    ensures
        0 <= i < pairs.len() && pairs[i].0 == "k"@ && (forall|j: int|
            0 <= j < i ==> (#[trigger] pairs[j]).0 != "k"@) ==> signed_query_key(query) == Some(
            pairs[i].1,
        ),
        (forall|j: int| 0 <= j < pairs.len() ==> (#[trigger] pairs[j]).0 != "k"@)
            ==> signed_query_key(query) is None,
{
    text::law_the_first_pair_counts(pairs, "k"@, i);
}

/// A key is logged with its first characters and a mark, and a short one as it is. No more
/// of it than that is ever shown.
pub proof fn law_keys_are_logged_in_part(s: Seq<char>)
    ensures
        s.len() <= SDK_KEY_PREFIX_LENGTH ==> logged_key(s) == s,
        s.len() > SDK_KEY_PREFIX_LENGTH ==> {
            &&& logged_key(s).take(SDK_KEY_PREFIX_LENGTH as int) == s.take(
                SDK_KEY_PREFIX_LENGTH as int,
            )
            &&& logged_key(s).skip(SDK_KEY_PREFIX_LENGTH as int) == "***"@
        },
{
    if s.len() > SDK_KEY_PREFIX_LENGTH {
        assert(logged_key(s).take(SDK_KEY_PREFIX_LENGTH as int) =~= s.take(
            SDK_KEY_PREFIX_LENGTH as int,
        ));
        assert(logged_key(s).skip(SDK_KEY_PREFIX_LENGTH as int) =~= "***"@);
    }
}

/// A key in a text is logged in part, wherever it ends, and what follows it is looked
/// through in turn.
pub proof fn law_keys_in_texts_are_redacted(kind: Seq<char>, name: Seq<char>, rest: Seq<char>)
    requires
        kind == "client-"@ || kind == "server-"@ || kind == "secret-"@,
        name.len() > 0,
        forall|i: int| 0 <= i < name.len() ==> is_alphanumeric(#[trigger] name[i]),
        rest.len() > 0 ==> !is_alphanumeric(rest[0]),
    ensures
        redacted(kind + name + rest) == logged_key(kind + name) + redacted(rest),
{
    reveal_strlit("client-");
    reveal_strlit("server-");
    reveal_strlit("secret-");
    let s = kind + name + rest;
    assert(kind.len() == 7);
    assert(s.take(7) =~= kind);
    assert(s.skip(7) =~= name + rest);
    lemma_run(name, rest);
    let n = key_len(s);
    assert(n == 7 + name.len());
    assert(s.take(n) =~= kind + name);
    assert(s.skip(n) =~= rest);
}

/// Letters and digits run as far as they go.
pub proof fn lemma_run(name: Seq<char>, rest: Seq<char>)
    requires
        forall|i: int| 0 <= i < name.len() ==> is_alphanumeric(#[trigger] name[i]),
        rest.len() > 0 ==> !is_alphanumeric(rest[0]),
    ensures
        alphanumeric_run(name + rest) == name.len(),
    decreases name.len(),
{
    let s = name + rest;
    if name.len() > 0 {
        let t = name.drop_first();
        assert(s[0] == name[0]);
        assert forall|i: int| 0 <= i < t.len() implies is_alphanumeric(#[trigger] t[i]) by {
            assert(t[i] == name[i + 1]);
        }
        lemma_run(t, rest);
        assert(s.drop_first() =~= t + rest);
    } else {
        assert(s =~= rest);
    }
}

/// Keys go on with the letters and digits of ASCII, and end at any other character.
pub proof fn law_keys_are_letters_and_digits(c: char)
    ensures
        '0' <= c <= '9' ==> is_alphanumeric(c),
        'a' <= c <= 'z' ==> is_alphanumeric(c),
        'A' <= c <= 'Z' ==> is_alphanumeric(c),
        c == '-' || c == '_' || c == '/' || c == '"' || c == ' ' || c > 'z' || c < '0'
            ==> !is_alphanumeric(c),
{
}

} // verus!
