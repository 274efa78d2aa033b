//! The endpoints of the proxy.

use crate::text;
use vstd::prelude::*;

verus! {

/// A path that could not be normalized.
#[derive(Debug, Clone, Copy)]
pub struct PathNormalizerError;

/// The endpoint that a request path names. A path of no known endpoint is kept
/// as it is.
#[derive(Debug)]
pub enum NormalizedPath {
    V1DownloadConfigSpecs,
    V1GetIdLists,
    V1DownloadIdListFile,
    V1LogEvent,
    V2DownloadConfigSpecs,
    V2DownloadConfigSpecsDeltas,
    RawPath(String),
}

/// The model of a path.
pub enum PathView {
    V1DownloadConfigSpecs,
    V1GetIdLists,
    V1DownloadIdListFile,
    V1LogEvent,
    V2DownloadConfigSpecs,
    V2DownloadConfigSpecsDeltas,
    RawPath(Seq<char>),
}

impl View for NormalizedPath {
    type V = PathView;

    open spec fn view(&self) -> PathView {
        match self {
            NormalizedPath::V1DownloadConfigSpecs => PathView::V1DownloadConfigSpecs,
            NormalizedPath::V1GetIdLists => PathView::V1GetIdLists,
            NormalizedPath::V1DownloadIdListFile => PathView::V1DownloadIdListFile,
            NormalizedPath::V1LogEvent => PathView::V1LogEvent,
            NormalizedPath::V2DownloadConfigSpecs => PathView::V2DownloadConfigSpecs,
            NormalizedPath::V2DownloadConfigSpecsDeltas => PathView::V2DownloadConfigSpecsDeltas,
            NormalizedPath::RawPath(path) => PathView::RawPath(path@),
        }
    }
}

/// The text of a path.
pub open spec fn path_text(p: PathView) -> Seq<char> {
    match p {
        PathView::V1DownloadConfigSpecs => "/v1/download_config_specs/"@,
        PathView::V1GetIdLists => "/v1/get_id_lists/"@,
        PathView::V1DownloadIdListFile => "/v1/download_id_list_file/"@,
        PathView::V1LogEvent => "/v1/log_event/"@,
        PathView::V2DownloadConfigSpecs => "/v2/download_config_specs/"@,
        PathView::V2DownloadConfigSpecsDeltas => "/v2/download_config_specs_deltas/"@,
        PathView::RawPath(path) => path,
    }
}

/// The endpoint that a text names.
pub open spec fn path_named(s: Seq<char>) -> PathView {
    if text::has_prefix(s, "/v1/download_config_specs"@) {
        PathView::V1DownloadConfigSpecs
    } else if text::has_prefix(s, "/v1/get_id_lists"@) {
        PathView::V1GetIdLists
    } else if text::has_prefix(s, "/v1/download_id_list_file"@) {
        PathView::V1DownloadIdListFile
    } else if text::has_prefix(s, "/v1/log_event"@) {
        PathView::V1LogEvent
    } else if text::has_prefix(s, "/v2/download_config_specs_deltas"@) {
        PathView::V2DownloadConfigSpecsDeltas
    } else if text::has_prefix(s, "/v2/download_config_specs"@) {
        PathView::V2DownloadConfigSpecs
    } else {
        PathView::RawPath(s)
    }
}

impl PartialEq for NormalizedPath {
    fn eq(&self, other: &Self) -> (r: bool) {
        match (self, other) {
            (NormalizedPath::V1DownloadConfigSpecs, NormalizedPath::V1DownloadConfigSpecs) => true,
            (NormalizedPath::V1GetIdLists, NormalizedPath::V1GetIdLists) => true,
            (NormalizedPath::V1DownloadIdListFile, NormalizedPath::V1DownloadIdListFile) => true,
            (NormalizedPath::V1LogEvent, NormalizedPath::V1LogEvent) => true,
            (NormalizedPath::V2DownloadConfigSpecs, NormalizedPath::V2DownloadConfigSpecs) => true,
            (
                NormalizedPath::V2DownloadConfigSpecsDeltas,
                NormalizedPath::V2DownloadConfigSpecsDeltas,
            ) => true,
            (NormalizedPath::RawPath(a), NormalizedPath::RawPath(b)) => *a == *b,
            _ => false,
        }
    }
}

impl vstd::std_specs::cmp::PartialEqSpecImpl for NormalizedPath {
    open spec fn obeys_eq_spec() -> bool {
        true
    }

    open spec fn eq_spec(&self, other: &Self) -> bool {
        self@ == other@
    }
}

impl Eq for NormalizedPath {

}

impl NormalizedPath {
    pub fn as_str(&self) -> (r: &str)
        ensures
            r@ == path_text(self@),
    {
        match self {
            NormalizedPath::V1DownloadConfigSpecs => "/v1/download_config_specs/",
            NormalizedPath::V1GetIdLists => "/v1/get_id_lists/",
            NormalizedPath::V1DownloadIdListFile => "/v1/download_id_list_file/",
            NormalizedPath::V1LogEvent => "/v1/log_event/",
            NormalizedPath::V2DownloadConfigSpecs => "/v2/download_config_specs/",
            NormalizedPath::V2DownloadConfigSpecsDeltas => "/v2/download_config_specs_deltas/",
            NormalizedPath::RawPath(path) => path.as_str(),
        }
    }

    pub fn to_string(&self) -> (r: String)
        ensures
            r@ == path_text(self@),
    {
        self.as_str().to_owned()
    }

    /// The endpoint that the path of a request names.
    pub fn parse(value: &str) -> (r: Self)
        ensures
            r@ == path_named(value@),
    {
        if text::starts_with(value, "/v1/download_config_specs") {
            NormalizedPath::V1DownloadConfigSpecs
        } else if text::starts_with(value, "/v1/get_id_lists") {
            NormalizedPath::V1GetIdLists
        } else if text::starts_with(value, "/v1/download_id_list_file") {
            NormalizedPath::V1DownloadIdListFile
        } else if text::starts_with(value, "/v1/log_event") {
            NormalizedPath::V1LogEvent
        } else if text::starts_with(value, "/v2/download_config_specs_deltas") {
            NormalizedPath::V2DownloadConfigSpecsDeltas
        } else if text::starts_with(value, "/v2/download_config_specs") {
            NormalizedPath::V2DownloadConfigSpecs
        } else {
            NormalizedPath::RawPath(value.to_owned())
        }
    }
}

impl Clone for NormalizedPath {
    fn clone(&self) -> (r: Self)
        ensures
            r@ == self@,
    {
        match self {
            NormalizedPath::V1DownloadConfigSpecs => NormalizedPath::V1DownloadConfigSpecs,
            NormalizedPath::V1GetIdLists => NormalizedPath::V1GetIdLists,
            NormalizedPath::V1DownloadIdListFile => NormalizedPath::V1DownloadIdListFile,
            NormalizedPath::V1LogEvent => NormalizedPath::V1LogEvent,
            NormalizedPath::V2DownloadConfigSpecs => NormalizedPath::V2DownloadConfigSpecs,
            NormalizedPath::V2DownloadConfigSpecsDeltas =>
                NormalizedPath::V2DownloadConfigSpecsDeltas,
            NormalizedPath::RawPath(path) => NormalizedPath::RawPath(path.clone()),
        }
    }
}

impl From<&str> for NormalizedPath {
    fn from(value: &str) -> (r: Self)
        ensures
            r@ == path_named(value@),
    {
        NormalizedPath::parse(value)
    }
}

impl vstd::std_specs::convert::FromSpecImpl<&str> for NormalizedPath {
    open spec fn obeys_from_spec() -> bool {
        false
    }

    open spec fn from_spec(value: &str) -> Self {
        arbitrary()
    }
}

/// Normalizing the text of an endpoint gives the endpoint back.
pub proof fn law_known_paths_round_trip(p: PathView)
    requires
        !(p is RawPath),
    ensures
        path_named(path_text(p)) == p,
{
    reveal_strlit("/v1/download_config_specs/");
    reveal_strlit("/v1/get_id_lists/");
    reveal_strlit("/v1/download_id_list_file/");
    reveal_strlit("/v1/log_event/");
    reveal_strlit("/v2/download_config_specs/");
    reveal_strlit("/v2/download_config_specs_deltas/");
    reveal_strlit("/v1/download_config_specs");
    reveal_strlit("/v1/get_id_lists");
    reveal_strlit("/v1/download_id_list_file");
    reveal_strlit("/v1/log_event");
    reveal_strlit("/v2/download_config_specs");
    reveal_strlit("/v2/download_config_specs_deltas");
    let s = path_text(p);
    match p {
        PathView::V1DownloadConfigSpecs => {
            assert(s.take(25) == "/v1/download_config_specs"@);
        },
        PathView::V1GetIdLists => {
            assert(s.take(16) == "/v1/get_id_lists"@);
        },
        PathView::V1DownloadIdListFile => {
            assert(s.take(25)[13] != "/v1/download_config_specs"@[13]);
            assert(s.take(16)[4] != "/v1/get_id_lists"@[4]);
            assert(s.take(25) == "/v1/download_id_list_file"@);
        },
        PathView::V1LogEvent => {
            assert(s.take(13) == "/v1/log_event"@);
        },
        PathView::V2DownloadConfigSpecs => {
            assert(s.take(25)[2] != "/v1/download_config_specs"@[2]);
            assert(s.take(16)[2] != "/v1/get_id_lists"@[2]);
            assert(s.take(25)[2] != "/v1/download_id_list_file"@[2]);
            assert(s.take(13)[2] != "/v1/log_event"@[2]);
            assert(s.take(25) == "/v2/download_config_specs"@);
        },
        PathView::V2DownloadConfigSpecsDeltas => {
            assert(s.take(25)[2] != "/v1/download_config_specs"@[2]);
            assert(s.take(16)[2] != "/v1/get_id_lists"@[2]);
            assert(s.take(25)[2] != "/v1/download_id_list_file"@[2]);
            assert(s.take(13)[2] != "/v1/log_event"@[2]);
            assert(s.take(32) == "/v2/download_config_specs_deltas"@);
        },
        PathView::RawPath(_) => {},
    }
}

/// A request is for the endpoint that its path starts with, whatever follows: a key, a file
/// or an ending. The deltas of the second version are not taken for its specs. Any other
/// path stays as it is.
pub proof fn law_paths_are_known_by_their_start(rest: Seq<char>, s: Seq<char>)
    ensures
        path_named("/v1/download_config_specs"@ + rest) == PathView::V1DownloadConfigSpecs,
        path_named("/v1/get_id_lists"@ + rest) == PathView::V1GetIdLists,
        path_named("/v1/download_id_list_file"@ + rest) == PathView::V1DownloadIdListFile,
        path_named("/v1/log_event"@ + rest) == PathView::V1LogEvent,
        path_named("/v2/download_config_specs_deltas"@ + rest)
            == PathView::V2DownloadConfigSpecsDeltas,
        !text::has_prefix(rest, "_deltas"@) ==> path_named("/v2/download_config_specs"@ + rest)
            == PathView::V2DownloadConfigSpecs,
        path_named(s) is RawPath ==> path_named(s) == PathView::RawPath(s),
        s.len() > 0 && s[0] != '/' ==> path_named(s) is RawPath,
{
    reveal_strlit("/v1/download_config_specs");
    reveal_strlit("/v1/get_id_lists");
    reveal_strlit("/v1/download_id_list_file");
    reveal_strlit("/v1/log_event");
    reveal_strlit("/v2/download_config_specs");
    reveal_strlit("/v2/download_config_specs_deltas");
    reveal_strlit("_deltas");
    let a = "/v1/download_config_specs"@ + rest;
    text::law_texts_start_and_end("/v1/download_config_specs"@, rest, a);
    let b = "/v1/get_id_lists"@ + rest;
    text::law_texts_start_and_end("/v1/get_id_lists"@, rest, b);
    assert(b[4] == 'g');
    assert(!text::has_prefix(b, "/v1/download_config_specs"@)) by {
        assert("/v1/download_config_specs"@[4] == 'd');
        if text::has_prefix(b, "/v1/download_config_specs"@) {
            assert(b.take(25)[4] == b[4]);
        }
    }
    let c = "/v1/download_id_list_file"@ + rest;
    text::law_texts_start_and_end("/v1/download_id_list_file"@, rest, c);
    assert(c[13] == 'i' && c[4] == 'd');
    assert(!text::has_prefix(c, "/v1/download_config_specs"@)) by {
        if text::has_prefix(c, "/v1/download_config_specs"@) {
            assert(c.take(25)[13] == c[13]);
        }
    }
    assert(!text::has_prefix(c, "/v1/get_id_lists"@)) by {
        if text::has_prefix(c, "/v1/get_id_lists"@) {
            assert(c.take(16)[4] == c[4]);
        }
    }
    let d = "/v1/log_event"@ + rest;
    text::law_texts_start_and_end("/v1/log_event"@, rest, d);
    assert(d[4] == 'l');
    assert(!text::has_prefix(d, "/v1/download_config_specs"@)) by {
        if text::has_prefix(d, "/v1/download_config_specs"@) {
            assert(d.take(25)[4] == d[4]);
        }
    }
    assert(!text::has_prefix(d, "/v1/get_id_lists"@)) by {
        if text::has_prefix(d, "/v1/get_id_lists"@) {
            assert(d.take(16)[4] == d[4]);
        }
    }
    assert(!text::has_prefix(d, "/v1/download_id_list_file"@)) by {
        if text::has_prefix(d, "/v1/download_id_list_file"@) {
            assert(d.take(25)[4] == d[4]);
        }
    }
    let e = "/v2/download_config_specs_deltas"@ + rest;
    text::law_texts_start_and_end("/v2/download_config_specs_deltas"@, rest, e);
    assert(e[2] == '2');
    lemma_second_version(e);
    let f = "/v2/download_config_specs"@ + rest;
    text::law_texts_start_and_end("/v2/download_config_specs"@, rest, f);
    assert(f[2] == '2');
    lemma_second_version(f);
    if text::has_prefix(f, "/v2/download_config_specs_deltas"@) {
        assert(rest.take(7) =~= "_deltas"@) by {
            assert forall|i: int| 0 <= i < 7 implies rest[i] == "_deltas"@[i] by {
                assert(f.take(32)[25 + i] == f[25 + i]);
                assert("/v2/download_config_specs_deltas"@[25 + i] == "_deltas"@[i]);
            }
        }
    }
    if s.len() > 0 && s[0] != '/' {
        assert(!text::has_prefix(s, "/v1/download_config_specs"@)) by {
            assert(s.take(25)[0] == s[0] || s.len() < 25);
        }
        assert(!text::has_prefix(s, "/v1/get_id_lists"@)) by {
            assert(s.take(16)[0] == s[0] || s.len() < 16);
        }
        assert(!text::has_prefix(s, "/v1/download_id_list_file"@)) by {
            assert(s.take(25)[0] == s[0] || s.len() < 25);
        }
        assert(!text::has_prefix(s, "/v1/log_event"@)) by {
            assert(s.take(13)[0] == s[0] || s.len() < 13);
        }
        assert(!text::has_prefix(s, "/v2/download_config_specs_deltas"@)) by {
            assert(s.take(32)[0] == s[0] || s.len() < 32);
        }
        assert(!text::has_prefix(s, "/v2/download_config_specs"@)) by {
            assert(s.take(25)[0] == s[0] || s.len() < 25);
        }
    }
}

proof fn lemma_second_version(s: Seq<char>)
    requires
        s.len() > 2,
        s[2] == '2',
    ensures
        !text::has_prefix(s, "/v1/download_config_specs"@),
        !text::has_prefix(s, "/v1/get_id_lists"@),
        !text::has_prefix(s, "/v1/download_id_list_file"@),
        !text::has_prefix(s, "/v1/log_event"@),
{
    reveal_strlit("/v1/download_config_specs");
    reveal_strlit("/v1/get_id_lists");
    reveal_strlit("/v1/download_id_list_file");
    reveal_strlit("/v1/log_event");
    if text::has_prefix(s, "/v1/download_config_specs"@) {
        assert(s.take(25)[2] == s[2]);
    }
    if text::has_prefix(s, "/v1/get_id_lists"@) {
        assert(s.take(16)[2] == s[2]);
    }
    if text::has_prefix(s, "/v1/download_id_list_file"@) {
        assert(s.take(25)[2] == s[2]);
    }
    if text::has_prefix(s, "/v1/log_event"@) {
        assert(s.take(13)[2] == s[2]);
    }
}

/// A known path is written as its endpoint and a slash, and any other as it is.
pub proof fn law_paths_are_written_with_a_slash(p: PathView, s: Seq<char>)
    ensures
        path_text(PathView::V1DownloadConfigSpecs) == "/v1/download_config_specs"@ + seq!['/'],
        path_text(PathView::V1GetIdLists) == "/v1/get_id_lists"@ + seq!['/'],
        path_text(PathView::V1DownloadIdListFile) == "/v1/download_id_list_file"@ + seq!['/'],
        path_text(PathView::V1LogEvent) == "/v1/log_event"@ + seq!['/'],
        path_text(PathView::V2DownloadConfigSpecs) == "/v2/download_config_specs"@ + seq!['/'],
        path_text(PathView::V2DownloadConfigSpecsDeltas) == "/v2/download_config_specs_deltas"@
            + seq!['/'],
        path_text(PathView::RawPath(s)) == s,
        p !is RawPath ==> path_text(p).last() == '/',
{
    reveal_strlit("/v1/download_config_specs/");
    reveal_strlit("/v1/get_id_lists/");
    reveal_strlit("/v1/download_id_list_file/");
    reveal_strlit("/v1/log_event/");
    reveal_strlit("/v2/download_config_specs/");
    reveal_strlit("/v2/download_config_specs_deltas/");
    reveal_strlit("/v1/download_config_specs");
    reveal_strlit("/v1/get_id_lists");
    reveal_strlit("/v1/download_id_list_file");
    reveal_strlit("/v1/log_event");
    reveal_strlit("/v2/download_config_specs");
    reveal_strlit("/v2/download_config_specs_deltas");
    assert(path_text(PathView::V1DownloadConfigSpecs) =~= "/v1/download_config_specs"@ + seq!['/']);
    assert(path_text(PathView::V1GetIdLists) =~= "/v1/get_id_lists"@ + seq!['/']);
    assert(path_text(PathView::V1DownloadIdListFile) =~= "/v1/download_id_list_file"@ + seq!['/']);
    assert(path_text(PathView::V1LogEvent) =~= "/v1/log_event"@ + seq!['/']);
    assert(path_text(PathView::V2DownloadConfigSpecs) =~= "/v2/download_config_specs"@ + seq!['/']);
    assert(path_text(PathView::V2DownloadConfigSpecsDeltas) =~= "/v2/download_config_specs_deltas"@
        + seq!['/']);
}

} // verus!
