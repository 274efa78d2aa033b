//! Content encodings, and which of them an `Accept-Encoding` header accepts.

use crate::text;
use crate::utils::quality;
use std::str::FromStr;
use vstd::prelude::*;

verus! {

#[derive(Debug, PartialEq, Eq, Copy, Clone, Ord, PartialOrd, Hash, Structural)]
pub enum CompressionEncoder {
    PlainText,
    Gzip,
    Brotli,
    StatsigBrotli,
    Deflate,
    Compress,
    Identity,
    Zstd,
}

/// The name of an encoding in headers and tags.
pub open spec fn encoder_name(e: CompressionEncoder) -> Seq<char> {
    match e {
        CompressionEncoder::PlainText => "plain_text"@,
        CompressionEncoder::Gzip => "gzip"@,
        CompressionEncoder::Brotli => "br"@,
        CompressionEncoder::StatsigBrotli => "statsig-br"@,
        CompressionEncoder::Deflate => "deflate"@,
        CompressionEncoder::Compress => "compress"@,
        CompressionEncoder::Identity => "identity"@,
        CompressionEncoder::Zstd => "zstd"@,
    }
}

/// The encoding that a text names, whatever the case of its letters.
pub open spec fn encoder_named(s: Seq<char>) -> Option<CompressionEncoder> {
    let t = text::lowered(s);
    if t == "gzip"@ || t == "x-gzip"@ {
        Some(CompressionEncoder::Gzip)
    } else if t == "br"@ {
        Some(CompressionEncoder::Brotli)
    } else if t == "statsig_br"@ || t == "statsig-br"@ {
        Some(CompressionEncoder::StatsigBrotli)
    } else if t == "deflate"@ {
        Some(CompressionEncoder::Deflate)
    } else if t == "compress"@ {
        Some(CompressionEncoder::Compress)
    } else if t == "identity"@ {
        Some(CompressionEncoder::Identity)
    } else if t == "zstd"@ {
        Some(CompressionEncoder::Zstd)
    } else if t == "plain_text"@ {
        Some(CompressionEncoder::PlainText)
    } else {
        None
    }
}

impl CompressionEncoder {
    pub fn to_str(&self) -> (r: &'static str)
        ensures
            r@ == encoder_name(*self),
    {
        match self {
            CompressionEncoder::PlainText => "plain_text",
            CompressionEncoder::Gzip => "gzip",
            CompressionEncoder::Brotli => "br",
            CompressionEncoder::StatsigBrotli => "statsig-br",
            CompressionEncoder::Deflate => "deflate",
            CompressionEncoder::Compress => "compress",
            CompressionEncoder::Identity => "identity",
            CompressionEncoder::Zstd => "zstd",
        }
    }

    pub fn to_string(&self) -> (r: String)
        ensures
            r@ == encoder_name(*self),
    {
        self.to_str().to_owned()
    }

    /// The encoding that the text names. No character outside ASCII has one of
    /// the letters of these names for its lower case, so only ASCII letters
    /// need folding.
    pub fn named(s: &str) -> (r: Option<Self>)
        ensures
            r == encoder_named(s@),
    {
        let lowered = text::to_lowered(s);
        let t = lowered.as_str();
        if text::same_text(t, "gzip") || text::same_text(t, "x-gzip") {
            Some(CompressionEncoder::Gzip)
        } else if text::same_text(t, "br") {
            Some(CompressionEncoder::Brotli)
        } else if text::same_text(t, "statsig_br") || text::same_text(t, "statsig-br") {
            Some(CompressionEncoder::StatsigBrotli)
        } else if text::same_text(t, "deflate") {
            Some(CompressionEncoder::Deflate)
        } else if text::same_text(t, "compress") {
            Some(CompressionEncoder::Compress)
        } else if text::same_text(t, "identity") {
            Some(CompressionEncoder::Identity)
        } else if text::same_text(t, "zstd") {
            Some(CompressionEncoder::Zstd)
        } else if text::same_text(t, "plain_text") {
            Some(CompressionEncoder::PlainText)
        } else {
            None
        }
    }
}

impl FromStr for CompressionEncoder {
    type Err = ();

    fn from_str(s: &str) -> (r: Result<Self, ()>)
        ensures
            r == (match encoder_named(s@) {
                Some(e) => Ok::<Self, ()>(e),
                None => Err(()),
            }),
    {
        match CompressionEncoder::named(s) {
            Some(e) => Ok(e),
            None => Err(()),
        }
    }
}

/// The names of some encodings.
pub open spec fn names(s: Seq<CompressionEncoder>) -> Seq<Seq<char>> {
    Seq::new(s.len(), |i: int| encoder_name(s[i]))
}

fn name_list(encodings: &[CompressionEncoder]) -> (r: Vec<String>)
    ensures
        text::texts(r@) == names(encodings@),
{
    let mut r: Vec<String> = Vec::new();
    let mut i: usize = 0;
    while i < encodings.len()
        invariant
            i <= encodings@.len(),
            text::texts(r@) == names(encodings@.take(i as int)),
        decreases encodings@.len() - i,
    {
        let ghost before = r@;
        r.push(encodings[i].to_string());
        i += 1;
        assert(text::texts(r@) == text::texts(before).push(encoder_name(encodings@[i - 1])));
        assert(names(encodings@.take(i as int)) == names(encodings@.take(i - 1)).push(
            encoder_name(encodings@[i - 1]),
        ));
    }
    assert(encodings@.take(i as int) == encodings@);
    r
}

/// The names of the encodings with a separator between them.
pub fn join_names(encodings: &[CompressionEncoder], sep: &str) -> (r: String)
    ensures
        r@ == text::join_spec(names(encodings@), sep@),
{
    text::join(&name_list(encodings), sep)
}

/// The names of the encodings, separated by commas.
pub fn format_compression_encodings(encodings: &[CompressionEncoder]) -> (r: String)
    ensures
        r@ == text::join_spec(names(encodings@), ","@),
{
    join_names(encodings, ",")
}

pub open spec fn priority(e: CompressionEncoder) -> u8 {
    match e {
        CompressionEncoder::StatsigBrotli => 0,
        CompressionEncoder::Gzip => 1,
        CompressionEncoder::Brotli => 2,
        CompressionEncoder::Zstd => 3,
        CompressionEncoder::Deflate => 4,
        CompressionEncoder::Compress => 5,
        CompressionEncoder::Identity => 6,
        CompressionEncoder::PlainText => 7,
    }
}

/// The place of an encoding in the order of preference: the least is preferred.
pub fn encoding_priority(encoding: CompressionEncoder) -> (r: u8)
    ensures
        r == priority(encoding),
{
    match encoding {
        CompressionEncoder::StatsigBrotli => 0,
        CompressionEncoder::Gzip => 1,
        CompressionEncoder::Brotli => 2,
        CompressionEncoder::Zstd => 3,
        CompressionEncoder::Deflate => 4,
        CompressionEncoder::Compress => 5,
        CompressionEncoder::Identity => 6,
        CompressionEncoder::PlainText => 7,
    }
}

/// All encodings, the preferred ones first.
pub open spec fn by_priority() -> Seq<CompressionEncoder> {
    seq![
        CompressionEncoder::StatsigBrotli,
        CompressionEncoder::Gzip,
        CompressionEncoder::Brotli,
        CompressionEncoder::Zstd,
        CompressionEncoder::Deflate,
        CompressionEncoder::Compress,
        CompressionEncoder::Identity,
        CompressionEncoder::PlainText,
    ]
}

/// Those encodings that `f` admits, each once, the preferred ones first.
pub open spec fn ordered(f: spec_fn(CompressionEncoder) -> bool) -> Seq<CompressionEncoder> {
    by_priority().filter(f)
}

/// An ordered list of encodings holds what was asked for and nothing
/// else, in strictly ascending order of priority.
pub proof fn law_ordered_encodings(f: spec_fn(CompressionEncoder) -> bool)
    ensures
        forall|e: CompressionEncoder| #[trigger] ordered(f).contains(e) <==> f(e),
        forall|i: int, j: int|
            0 <= i < j < ordered(f).len() ==> priority(#[trigger] ordered(f)[i]) < priority(
                #[trigger] ordered(f)[j],
            ),
{
    let all = by_priority();
    lemma_filtered(all, f);
    assert forall|e: CompressionEncoder| #[trigger] ordered(f).contains(e) <==> f(e) by {
        assert(all[priority(e) as int] == e);
    }
}

proof fn lemma_filtered(s: Seq<CompressionEncoder>, f: spec_fn(CompressionEncoder) -> bool)
    requires
        forall|i: int, j: int| 0 <= i < j < s.len() ==> priority(s[i]) < priority(s[j]),
    ensures
        forall|e: CompressionEncoder|
            #[trigger] s.filter(f).contains(e) <==> s.contains(e) && f(e),
        forall|i: int, j: int|
            0 <= i < j < s.filter(f).len() ==> priority(#[trigger] s.filter(f)[i]) < priority(
                #[trigger] s.filter(f)[j],
            ),
    decreases s.len(),
{
    reveal(Seq::filter);
    if s.len() > 0 {
        let t = s.drop_last();
        lemma_filtered(t, f);
        let r = t.filter(f);
        let last = s.last();
        assert forall|e: CompressionEncoder|
            #[trigger] s.filter(f).contains(e) <==> s.contains(e) && f(e) by {
            if s.contains(e) {
                let k = choose|k: int| 0 <= k < s.len() && s[k] == e;
                if k < t.len() {
                    assert(t[k] == e);
                }
            }
            if t.contains(e) {
                let k = choose|k: int| 0 <= k < t.len() && t[k] == e;
                assert(s[k] == e);
            }
            assert(s[s.len() - 1] == last);
            if f(last) {
                assert(s.filter(f) == r.push(last));
                assert(r.push(last)[r.len() as int] == last);
                if r.contains(e) {
                    let k = choose|k: int| 0 <= k < r.len() && r[k] == e;
                    assert(r.push(last)[k] == e);
                }
                if r.push(last).contains(e) && e != last {
                    let k = choose|k: int| 0 <= k < r.push(last).len() && r.push(last)[k] == e;
                    assert(r[k] == e);
                }
            }
        }
        assert forall|i: int, j: int| 0 <= i < j < s.filter(f).len() implies priority(
            #[trigger] s.filter(f)[i],
        ) < priority(#[trigger] s.filter(f)[j]) by {
            if j == r.len() {
                assert(r.contains(r[i]));
                let k = choose|k: int| 0 <= k < t.len() && t[k] == r[i];
                assert(s[k] == r[i]);
            }
        }
    }
}

pub fn has_encoder(v: &[CompressionEncoder], e: CompressionEncoder) -> (r: bool)
    ensures
        r == v@.contains(e),
{
    let mut i: usize = 0;
    while i < v.len()
        invariant
            i <= v@.len(),
            forall|j: int| 0 <= j < i ==> v@[j] != e,
        decreases v@.len() - i,
    {
        if v[i] == e {
            assert(v@[i as int] == e);
            return true;
        }
        i += 1;
    }
    false
}

/// Sorts encodings by preference and keeps each of them once.
pub fn sort_and_dedup(v: &[CompressionEncoder]) -> (r: Vec<CompressionEncoder>)
    ensures
        r@ == ordered(|e: CompressionEncoder| v@.contains(e)),
{
    let all: [CompressionEncoder; 8] = [
        CompressionEncoder::StatsigBrotli,
        CompressionEncoder::Gzip,
        CompressionEncoder::Brotli,
        CompressionEncoder::Zstd,
        CompressionEncoder::Deflate,
        CompressionEncoder::Compress,
        CompressionEncoder::Identity,
        CompressionEncoder::PlainText,
    ];
    let ghost f = |e: CompressionEncoder| v@.contains(e);
    let mut r: Vec<CompressionEncoder> = Vec::new();
    let mut i: usize = 0;
    assert(all@ == by_priority());
    proof {
        reveal(Seq::filter);
    }
    while i < 8
        invariant
            i <= 8,
            all@ == by_priority(),
            f == (|e: CompressionEncoder| v@.contains(e)),
            r@ == by_priority().take(i as int).filter(f),
        decreases 8 - i,
    {
        proof {
            reveal(Seq::filter);
            assert(by_priority().take(i + 1).drop_last() == by_priority().take(i as int));
        }
        if has_encoder(v, all[i]) {
            r.push(all[i]);
        }
        i += 1;
    }
    assert(by_priority().take(8) == by_priority());
    r
}

/// Whether one parameter of an `Accept-Encoding` entry is a quality at or below
/// zero.
pub open spec fn refuses(param: Seq<char>) -> bool {
    match text::split_once_spec(param, '=') {
        Some((k, v)) => text::lowered(text::trimmed(k)) == "q"@ && quality::at_or_below_zero(
            text::trimmed(v),
        ),
        None => false,
    }
}

/// The encoding that an `Accept-Encoding` entry names, and whether the entry
/// accepts it.
pub open spec fn accept_encoding_token(raw: Seq<char>) -> Option<(CompressionEncoder, bool)> {
    let parts = text::split_spec(raw, ';');
    match encoder_named(text::trimmed(parts[0])) {
        Some(e) => Some(
            (e, !exists|i: int| 1 <= i < parts.len() && refuses(#[trigger] parts[i])),
        ),
        None => None,
    }
}

pub(crate) proof fn lemma_split_not_empty(s: Seq<char>, c: char)
    ensures
        text::split_spec(s, c).len() > 0,
{
}

/// Reads one entry of an `Accept-Encoding` header.
pub fn parse_accept_encoding_token(raw: &str) -> (r: Option<(CompressionEncoder, bool)>)
    ensures
        r == accept_encoding_token(raw@),
{
    let parts = text::split(raw, ';');
    proof {
        lemma_split_not_empty(raw@, ';');
        assert(text::texts(parts@)[0] == parts@[0]@);
        let t = text::trimmed(parts@[0]@);
        assert(text::lowered(text::lowered(t)) == text::lowered(t)) by {
            assert forall|i: int| 0 <= i < t.len() implies text::lower(text::lower(t[i]))
                == text::lower(t[i]) by {}
        }
    }
    let token = text::to_lowered(text::trim(parts[0].as_str()));
    let encoding = match CompressionEncoder::named(token.as_str()) {
        Some(e) => e,
        None => {
            return None;
        },
    };
    let mut i: usize = 1;
    while i < parts.len()
        invariant
            1 <= i <= parts@.len(),
            text::texts(parts@) == text::split_spec(raw@, ';'),
            encoder_named(text::trimmed(parts@[0]@)) == Some(encoding),
            forall|j: int| 1 <= j < i ==> !refuses(#[trigger] parts@[j]@),
        decreases parts@.len() - i,
    {
        assert(text::texts(parts@)[i as int] == parts@[i as int]@);
        if let Some((k, v)) = text::split_once(parts[i].as_str(), '=') {
            proof {
                reveal_strlit("q");
                assert(text::lowered("q"@) == "q"@);
            }
            if text::same_lowered(text::trim(k), "q") && quality::is_at_or_below_zero(
                text::trim(v),
            ) {
                assert(refuses(text::split_spec(raw@, ';')[i as int]));
                return Some((encoding, false));
            }
        }
        i += 1;
    }
    assert forall|j: int| 1 <= j < parts@.len() implies !refuses(
        #[trigger] text::split_spec(raw@, ';')[j],
    ) by {
        assert(text::texts(parts@)[j] == parts@[j]@);
    }
    Some((encoding, true))
}

/// An entry of an `Accept-Encoding` header without the white space around it.
pub open spec fn entry(value: Seq<char>, i: int) -> Seq<char> {
    text::trimmed(text::split_spec(value, ',')[i])
}

/// Whether place `i` of an `Accept-Encoding` header holds an entry.
pub open spec fn has_entry(value: Seq<char>, i: int) -> bool {
    0 <= i < text::split_spec(value, ',').len() && entry(value, i).len() > 0
}

/// Whether the header has an entry that accepts the encoding.
pub open spec fn accepts(value: Seq<char>, e: CompressionEncoder) -> bool {
    exists|i: int|
        has_entry(value, i) && accept_encoding_token(#[trigger] entry(value, i)) == Some((e, true))
}

/// The value of the accepted-encodings tag for a header value.
pub open spec fn accept_encoding_tag(value: Seq<char>) -> Seq<char> {
    let accepted = ordered(|e: CompressionEncoder| accepts(value, e));
    if !exists|i: int| has_entry(value, i) {
        "none"@
    } else if accepted.len() == 0 {
        "unknown"@
    } else if exists|i: int|
        has_entry(value, i) && accept_encoding_token(#[trigger] entry(value, i)) is None {
        text::join_spec(names(accepted), "+"@) + "+unknown"@
    } else {
        text::join_spec(names(accepted), "+"@)
    }
}

/// What an `Accept-Encoding` header says.
#[derive(Debug, Clone, PartialEq, Eq)]
pub struct ParsedAcceptEncoding {
    acceptable_encodings: Vec<CompressionEncoder>,
    saw_non_empty_token: bool,
    saw_unrecognized_token: bool,
}

impl ParsedAcceptEncoding {
    /// The encodings that the header accepts, the preferred ones first.
    pub closed spec fn accepted(&self) -> Seq<CompressionEncoder> {
        self.acceptable_encodings@
    }

    /// Whether the header has any entry.
    pub closed spec fn non_empty(&self) -> bool {
        self.saw_non_empty_token
    }

    /// Whether the header has an entry that names no encoding.
    pub closed spec fn unrecognized(&self) -> bool {
        self.saw_unrecognized_token
    }

    /// Whether this is what the header value `value` says.
    pub open spec fn says(&self, value: Seq<char>) -> bool {
        &&& self.accepted() == ordered(|e: CompressionEncoder| accepts(value, e))
        &&& self.non_empty() == exists|i: int| has_entry(value, i)
        &&& self.unrecognized() == exists|i: int|
            has_entry(value, i) && accept_encoding_token(#[trigger] entry(value, i)) is None
    }

    pub fn from_raw_value(value: &str) -> (r: Self)
        ensures
            r.says(value@),
    {
        let parts = text::split(value, ',');
        let mut found: Vec<CompressionEncoder> = Vec::new();
        let mut non_empty = false;
        let mut unrecognized = false;
        let mut i: usize = 0;
        while i < parts.len()
            invariant
                i <= parts@.len(),
                text::texts(parts@) == text::split_spec(value@, ','),
                non_empty == exists|k: int| k < i && has_entry(value@, k),
                unrecognized == exists|k: int|
                    k < i && has_entry(value@, k) && accept_encoding_token(
                        #[trigger] entry(value@, k),
                    ) is None,
                forall|e: CompressionEncoder| #[trigger]
                    found@.contains(e) <==> exists|k: int|
                        k < i && has_entry(value@, k) && accept_encoding_token(
                            #[trigger] entry(value@, k),
                        ) == Some((e, true)),
            decreases parts@.len() - i,
        {
            let ghost before = found@;
            assert(text::texts(parts@)[i as int] == parts@[i as int]@);
            let raw = text::trim(parts[i].as_str());
            assert(raw@ == entry(value@, i as int));
            if !raw.is_empty() {
                assert(has_entry(value@, i as int));
                non_empty = true;
                match parse_accept_encoding_token(raw) {
                    Some((encoding, acceptable)) => {
                        if acceptable {
                            found.push(encoding);
                        }
                    },
                    None => {
                        unrecognized = true;
                    },
                }
            }
            i += 1;
            assert forall|e: CompressionEncoder| #[trigger]
                found@.contains(e) <==> exists|k: int|
                    k < i && has_entry(value@, k) && accept_encoding_token(
                        #[trigger] entry(value@, k),
                    ) == Some((e, true)) by {
                let now = accept_encoding_token(entry(value@, i - 1));
                if found@.contains(e) {
                    let k = choose|k: int| 0 <= k < found@.len() && found@[k] == e;
                    if k < before.len() {
                        assert(before[k] == e);
                        assert(before.contains(e));
                    }
                }
                if before.contains(e) {
                    let k = choose|k: int| 0 <= k < before.len() && before[k] == e;
                    assert(found@[k] == e);
                }
                if has_entry(value@, i - 1) && now == Some((e, true)) {
                    assert(found@[before.len() as int] == e);
                }
            }
        }
        proof {
            assert forall|e: CompressionEncoder| #[trigger]
                found@.contains(e) <==> accepts(value@, e) by {}
            assert((|e: CompressionEncoder| found@.contains(e)) =~= (|e: CompressionEncoder|
                accepts(value@, e)));
        }
        ParsedAcceptEncoding {
            acceptable_encodings: sort_and_dedup(found.as_slice()),
            saw_non_empty_token: non_empty,
            saw_unrecognized_token: unrecognized,
        }
    }

    /// Reads the values of all `Accept-Encoding` headers of a request.
    pub fn from_header_values(header: &Vec<String>) -> (r: Self)
        ensures
            r.says(text::join_spec(text::texts(header@), ","@)),
    {
        let raw = text::join(header, ",");
        Self::from_raw_value(raw.as_str())
    }

    /// The value of the accepted-encodings tag.
    pub open spec fn tag(&self) -> Seq<char> {
        if !self.non_empty() {
            "none"@
        } else if self.accepted().len() == 0 {
            "unknown"@
        } else if self.unrecognized() {
            text::join_spec(names(self.accepted()), "+"@) + "+unknown"@
        } else {
            text::join_spec(names(self.accepted()), "+"@)
        }
    }

    pub fn logger_tag(&self) -> (r: Option<String>)
        ensures
            text::text_option(r) == Some(self.tag()),
    {
        if !self.saw_non_empty_token {
            return Some("none".to_owned());
        }
        if self.acceptable_encodings.is_empty() {
            return Some("unknown".to_owned());
        }
        let mut normalized = join_names(self.acceptable_encodings.as_slice(), "+");
        if self.saw_unrecognized_token {
            normalized.append("+unknown");
        }
        Some(normalized)
    }

    /// The accepted encodings that change the payload.
    pub fn acceptable_encodings(&self) -> (r: Vec<CompressionEncoder>)
        ensures
            r@ == self.accepted().filter(|e: CompressionEncoder| is_transforming(e)),
    {
        let v = &self.acceptable_encodings;
        let ghost f = |e: CompressionEncoder| is_transforming(e);
        let mut r: Vec<CompressionEncoder> = Vec::new();
        let mut i: usize = 0;
        proof {
            reveal(Seq::filter);
        }
        while i < v.len()
            invariant
                i <= v@.len(),
                f == (|e: CompressionEncoder| is_transforming(e)),
                r@ == v@.take(i as int).filter(f),
            decreases v@.len() - i,
        {
            proof {
                reveal(Seq::filter);
                assert(v@.take(i + 1).drop_last() == v@.take(i as int));
            }
            if v[i] != CompressionEncoder::PlainText && v[i] != CompressionEncoder::Identity {
                r.push(v[i]);
            }
            i += 1;
        }
        assert(v@.take(i as int) == v@);
        r
    }
}

/// Whether the encoding changes the payload.
pub open spec fn is_transforming(e: CompressionEncoder) -> bool {
    e != CompressionEncoder::PlainText && e != CompressionEncoder::Identity
}

proof fn lemma_names()
    ensures
        forall|e: CompressionEncoder|
            text::lowered(#[trigger] encoder_name(e)) == encoder_name(e),
        text::lowered("x-gzip"@) == "x-gzip"@,
        text::lowered("statsig_br"@) == "statsig_br"@,
        forall|a: CompressionEncoder, b: CompressionEncoder|
            #[trigger] encoder_name(a) == #[trigger] encoder_name(b) ==> a == b,
        forall|a: CompressionEncoder|
            #[trigger] encoder_name(a) != "x-gzip"@ && encoder_name(a) != "statsig_br"@,
        "x-gzip"@ != "statsig_br"@,
{
    reveal_strlit("plain_text");
    reveal_strlit("gzip");
    reveal_strlit("br");
    reveal_strlit("statsig-br");
    reveal_strlit("deflate");
    reveal_strlit("compress");
    reveal_strlit("identity");
    reveal_strlit("zstd");
    reveal_strlit("x-gzip");
    reveal_strlit("statsig_br");
    assert("plain_text"@[0] == 'p');
    assert("statsig-br"@[7] == '-');
    assert("statsig_br"@[7] == '_');
    assert("gzip"@[0] == 'g');
    assert("zstd"@[0] == 'z');
    assert("compress"@[0] == 'c');
    assert("identity"@[0] == 'i');
    assert("statsig-br"@[0] == 's');
    assert forall|e: CompressionEncoder|
        text::lowered(#[trigger] encoder_name(e)) == encoder_name(e) by {
        assert(text::lowered(encoder_name(e)) =~= encoder_name(e));
    }
    assert(text::lowered("x-gzip"@) =~= "x-gzip"@);
    assert(text::lowered("statsig_br"@) =~= "statsig_br"@);
}

/// The name of an encoding is read as the encoding, however its letters are cased. Besides
/// its name only "x-gzip" is read as gzip, and only "statsig_br" as the brotli of Statsig.
pub proof fn law_encodings_are_read_by_name(e: CompressionEncoder, s: Seq<char>)
    ensures
        text::lowered(s) == encoder_name(e) ==> encoder_named(s) == Some(e),
        encoder_named(encoder_name(e)) == Some(e),
        text::lowered(s) == "x-gzip"@ ==> encoder_named(s) == Some(CompressionEncoder::Gzip),
        text::lowered(s) == "statsig_br"@ ==> encoder_named(s) == Some(
            CompressionEncoder::StatsigBrotli,
        ),
        encoder_named(s) == Some(e) && text::lowered(s) != encoder_name(e) ==> (text::lowered(s)
            == "x-gzip"@ && e == CompressionEncoder::Gzip) || (text::lowered(s) == "statsig_br"@
            && e == CompressionEncoder::StatsigBrotli),
{
    lemma_names();
    assert(text::lowered(encoder_name(e)) == encoder_name(e));
    assert(encoder_name(CompressionEncoder::PlainText) == "plain_text"@);
    assert(encoder_name(CompressionEncoder::Gzip) == "gzip"@);
    assert(encoder_name(CompressionEncoder::Brotli) == "br"@);
    assert(encoder_name(CompressionEncoder::StatsigBrotli) == "statsig-br"@);
    assert(encoder_name(CompressionEncoder::Deflate) == "deflate"@);
    assert(encoder_name(CompressionEncoder::Compress) == "compress"@);
    assert(encoder_name(CompressionEncoder::Identity) == "identity"@);
    assert(encoder_name(CompressionEncoder::Zstd) == "zstd"@);
}

/// The names of the encodings are those of the content codings.
pub proof fn law_encodings_have_their_usual_names(e: CompressionEncoder)
    ensures
        encoder_named("gzip"@) == Some(CompressionEncoder::Gzip),
        encoder_named("br"@) == Some(CompressionEncoder::Brotli),
        encoder_named("statsig-br"@) == Some(CompressionEncoder::StatsigBrotli),
        encoder_named("deflate"@) == Some(CompressionEncoder::Deflate),
        encoder_named("compress"@) == Some(CompressionEncoder::Compress),
        encoder_named("identity"@) == Some(CompressionEncoder::Identity),
        encoder_named("zstd"@) == Some(CompressionEncoder::Zstd),
        encoder_named("plain_text"@) == Some(CompressionEncoder::PlainText),
        encoder_name(e) == "gzip"@ <==> e == CompressionEncoder::Gzip,
        encoder_name(e) == "br"@ <==> e == CompressionEncoder::Brotli,
        encoder_name(e) == "statsig-br"@ <==> e == CompressionEncoder::StatsigBrotli,
{
    lemma_names();
    law_encodings_are_read_by_name(CompressionEncoder::Gzip, "gzip"@);
    law_encodings_are_read_by_name(CompressionEncoder::Brotli, "br"@);
    law_encodings_are_read_by_name(CompressionEncoder::StatsigBrotli, "statsig-br"@);
    law_encodings_are_read_by_name(CompressionEncoder::Deflate, "deflate"@);
    law_encodings_are_read_by_name(CompressionEncoder::Compress, "compress"@);
    law_encodings_are_read_by_name(CompressionEncoder::Identity, "identity"@);
    law_encodings_are_read_by_name(CompressionEncoder::Zstd, "zstd"@);
    law_encodings_are_read_by_name(CompressionEncoder::PlainText, "plain_text"@);
    assert(encoder_name(CompressionEncoder::Gzip) == "gzip"@);
    assert(encoder_name(CompressionEncoder::Brotli) == "br"@);
    assert(encoder_name(CompressionEncoder::StatsigBrotli) == "statsig-br"@);
    assert(encoder_name(e) == encoder_name(e));
}

proof fn lemma_plain_names(e: CompressionEncoder)
    ensures
        encoder_name(e).len() > 0,
        !encoder_name(e).contains(','),
        !encoder_name(e).contains(';'),
        text::trimmed(encoder_name(e)) == encoder_name(e),
{
    reveal_strlit("plain_text");
    reveal_strlit("gzip");
    reveal_strlit("br");
    reveal_strlit("statsig-br");
    reveal_strlit("deflate");
    reveal_strlit("compress");
    reveal_strlit("identity");
    reveal_strlit("zstd");
    let n = encoder_name(e);
    assert(n.len() > 0);
    assert(!text::is_space(n[0]));
    assert(!text::is_space(n.last()));
    assert(text::trim_start(n) == n);
    assert(text::trim_end(n) == n);
}

/// A client that lists the names of encodings accepts exactly those.
pub proof fn law_listed_encodings_are_accepted(
    encodings: Seq<CompressionEncoder>,
    e: CompressionEncoder,
)
    requires
        encodings.len() > 0,
    ensures
        accepts(text::join_spec(names(encodings), seq![',']), e) <==> encodings.contains(e),
{
    let value = text::join_spec(names(encodings), seq![',']);
    assert forall|i: int| 0 <= i < names(encodings).len() implies !(
    #[trigger] names(encodings)[i]).contains(',') by {
        lemma_plain_names(encodings[i]);
    }
    text::law_joined_texts_are_split_again(names(encodings), ',');
    assert forall|i: int| 0 <= i < encodings.len() implies has_entry(value, i)
        && accept_encoding_token(#[trigger] entry(value, i)) == Some((encodings[i], true)) by {
        let n = encoder_name(encodings[i]);
        assert(names(encodings)[i] == n);
        lemma_plain_names(encodings[i]);
        text::law_texts_are_split_part_by_part(n, Seq::empty(), ';');
        law_encodings_are_read_by_name(encodings[i], n);
    }
    if encodings.contains(e) {
        let i = choose|i: int| 0 <= i < encodings.len() && encodings[i] == e;
        assert(accept_encoding_token(entry(value, i)) == Some((e, true)));
    }
    if accepts(value, e) {
        let i = choose|i: int|
            has_entry(value, i) && accept_encoding_token(#[trigger] entry(value, i)) == Some(
                (e, true),
            );
        assert(0 <= i < encodings.len());
        assert(encodings[i] == e);
    }
}

/// An encoding with a quality of zero or less is refused, and one with any other parameter,
/// or none, is accepted. What is no encoding is neither.
pub proof fn law_encodings_are_refused_by_quality(
    e: CompressionEncoder,
    name: Seq<char>,
    quality: Seq<char>,
)
    requires
        !name.contains(';'),
        !quality.contains(';'),
    ensures
        accept_encoding_token(name) is Some <==> encoder_named(text::trimmed(name)) is Some,
        encoder_named(text::trimmed(name)) == Some(e) ==> {
            &&& accept_encoding_token(name) == Some((e, true))
            &&& accept_encoding_token(name + seq![';'] + quality) == Some((e, !refuses(quality)))
        },
        encoder_named(text::trimmed(name)) is None ==> accept_encoding_token(
            name + seq![';'] + quality,
        ) is None,
{
    text::law_texts_are_split_part_by_part(name, quality, ';');
    text::law_texts_are_split_part_by_part(quality, Seq::empty(), ';');
    let parts = text::split_spec(name + seq![';'] + quality, ';');
    assert(parts =~= seq![name, quality]);
    assert(text::split_spec(name, ';')[0] == name);
    if refuses(quality) {
        assert(refuses(parts[1]));
    }
}

/// A parameter refuses an encoding exactly where it is the quality and at or below zero.
pub proof fn law_the_quality_refuses(key: Seq<char>, value: Seq<char>)
    requires
        !key.contains('='),
    ensures
        refuses(key + seq!['='] + value) <==> text::lowered(text::trimmed(key)) == "q"@
            && quality::at_or_below_zero(text::trimmed(value)),
        !refuses(key),
{
    text::law_texts_are_cut_at_the_first(key, value, '=');
}

/// A filter keeps what it lets through.
pub proof fn lemma_filter_keeps(
    s: Seq<CompressionEncoder>,
    f: spec_fn(CompressionEncoder) -> bool,
    e: CompressionEncoder,
)
    ensures
        s.filter(f).contains(e) <==> s.contains(e) && f(e),
    decreases s.len(),
{
    reveal(Seq::filter);
    if s.len() > 0 {
        let t = s.drop_last();
        lemma_filter_keeps(t, f, e);
        let r = t.filter(f);
        if s.contains(e) && e != s.last() {
            let i = choose|i: int| 0 <= i < s.len() && s[i] == e;
            assert(t[i] == e);
        }
        if t.contains(e) {
            let i = choose|i: int| 0 <= i < t.len() && t[i] == e;
            assert(s[i] == e);
        }
        if f(s.last()) {
            let w = r.push(s.last());
            assert(w[r.len() as int] == s.last());
            if r.contains(e) {
                let i = choose|i: int| 0 <= i < r.len() && r[i] == e;
                assert(w[i] == e);
            }
            if w.contains(e) && e != s.last() {
                let i = choose|i: int| 0 <= i < w.len() && w[i] == e;
                assert(r[i] == e);
            }
        }
        assert(s[s.len() - 1] == s.last());
    }
}

/// A client that accepts one encoding is tagged by its name, and one that names nothing as
/// accepting none.
pub proof fn law_accepted_encodings_are_tagged(e: CompressionEncoder, value: Seq<char>)
    ensures
        accept_encoding_tag(encoder_name(e)) == encoder_name(e),
        (forall|i: int| 0 <= i < text::split_spec(value, ',').len() ==> text::trimmed(
            #[trigger] text::split_spec(value, ',')[i],
        ).len() == 0) ==> accept_encoding_tag(value) == "none"@,
        is_transforming(e) <==> e != CompressionEncoder::PlainText && e
            != CompressionEncoder::Identity,
{
    let n = encoder_name(e);
    lemma_plain_names(e);
    text::law_texts_are_split_part_by_part(n, Seq::empty(), ',');
    text::law_texts_are_split_part_by_part(n, Seq::empty(), ';');
    law_encodings_are_read_by_name(e, n);
    assert(text::split_spec(n, ',')[0] == n);
    assert(entry(n, 0) == n);
    assert(has_entry(n, 0));
    assert(accept_encoding_token(entry(n, 0)) == Some((e, true)));
    let f = |x: CompressionEncoder| accepts(n, x);
    law_ordered_encodings(f);
    let o = ordered(f);
    assert(f(e));
    assert(o.contains(e));
    assert forall|i: int| 0 <= i < o.len() implies o[i] == e by {
        assert(o.contains(o[i]));
        assert(f(o[i]));
        let j = choose|j: int|
            has_entry(n, j) && accept_encoding_token(#[trigger] entry(n, j)) == Some((o[i], true));
        assert(j == 0);
    }
    if o.len() > 1 {
        assert(priority(o[0]) < priority(o[1]));
    }
    assert(o.len() == 1);
    assert(names(o).len() == 1);
    assert(text::join_spec(names(o), "+"@) == names(o)[0]);
    if forall|i: int| 0 <= i < text::split_spec(value, ',').len() ==> text::trimmed(
        #[trigger] text::split_spec(value, ',')[i],
    ).len() == 0 {
        assert forall|i: int| !has_entry(value, i) by {
            if 0 <= i < text::split_spec(value, ',').len() {
                assert(text::trimmed(text::split_spec(value, ',')[i]).len() == 0);
            }
        }
    }
}

} // verus!
