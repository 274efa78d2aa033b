//! The list of the files of ids, as the upstream sends it.

use crate::codecs;
use crate::datastore::data_providers::http_data_provider;
use crate::datastore::data_providers::http_data_provider::ResponsePayload;
use crate::text;
use crate::utils::compress_encoder;
use crate::utils::compress_encoder::CompressionEncoder;
use vstd::prelude::*;

verus! {

/// One file of the list.
#[derive(Clone, Debug, PartialEq, Eq)]
pub struct IdListManifestEntry {
    pub name: String,
    pub size: u64,
    pub url: String,
    pub creation_time: u64,
    pub file_id: String,
}

/// The bytes of a list without their compression, or the reason why they cannot
/// be had.
pub open spec fn decoded_payload(p: http_data_provider::PayloadView) -> Result<
    Seq<u8>,
    Seq<char>,
> {
    match p.encoding {
        CompressionEncoder::PlainText => Ok(p.data),
        CompressionEncoder::Gzip => match codecs::gzip_contents(p.data) {
            Ok(data) => Ok(data),
            Err(e) => Err("get_id_lists gzip payload could not be decoded: "@ + e),
        },
        CompressionEncoder::Brotli => brotli_payload(p.data),
        CompressionEncoder::StatsigBrotli => brotli_payload(p.data),
        _ => Err(
            "get_id_lists payload uses unsupported encoding: "@ + compress_encoder::encoder_name(
                p.encoding,
            ),
        ),
    }
}

pub open spec fn brotli_payload(data: Seq<u8>) -> Result<Seq<u8>, Seq<char>> {
    match codecs::brotli_contents(data, 4096) {
        Ok(data) => Ok(data),
        Err(e) => Err("get_id_lists brotli payload could not be decoded: "@ + e),
    }
}

/// Takes the compression off a list.
pub fn decode_response_payload(payload: &ResponsePayload) -> (r: Result<Vec<u8>, String>)
    ensures
        codecs::bytes_result(r) == decoded_payload(payload@),
{
    match payload.encoding {
        CompressionEncoder::PlainText => Ok(payload.data.clone()),
        CompressionEncoder::Gzip => match codecs::read_gzip(payload.data.as_slice()) {
            Ok(data) => Ok(data),
            Err(reason) => {
                let mut e = "get_id_lists gzip payload could not be decoded: ".to_owned();
                e.append(reason.as_str());
                Err(e)
            },
        },
        CompressionEncoder::Brotli | CompressionEncoder::StatsigBrotli => match codecs::read_brotli(
            payload.data.as_slice(),
            4096,
        ) {
            Ok(data) => Ok(data),
            Err(reason) => {
                let mut e = "get_id_lists brotli payload could not be decoded: ".to_owned();
                e.append(reason.as_str());
                Err(e)
            },
        },
        _ => {
            let mut e = "get_id_lists payload uses unsupported encoding: ".to_owned();
            e.append(payload.encoding.to_str());
            Err(e)
        },
    }
}

/// The reason why a list cannot be read, in the words of what read it.
pub fn manifest_parse_error(reason: &str) -> (r: String)
    ensures
        r@ == "get_id_lists JSON could not be parsed: "@ + reason@,
{
    let mut e = "get_id_lists JSON could not be parsed: ".to_owned();
    e.append(reason);
    e
}

/// The files by their names. Of two with one name the later one counts.
pub struct IdListManifest {
    entries: Vec<IdListManifestEntry>,
}

/// The last of some files with a name.
pub open spec fn last_named(entries: Seq<IdListManifestEntry>, name: Seq<char>) -> Option<
    IdListManifestEntry,
>
    decreases entries.len(),
{
    if entries.len() == 0 {
        None
    } else if entries.last().name@ == name {
        Some(entries.last())
    } else {
        last_named(entries.drop_last(), name)
    }
}

impl IdListManifest {
    /// The files in the order in which they came.
    pub closed spec fn listed(&self) -> Seq<IdListManifestEntry> {
        self.entries@
    }

    pub open spec fn named(&self, name: Seq<char>) -> Option<IdListManifestEntry> {
        last_named(self.listed(), name)
    }

    /// The files of a list, in the order in which they came.
    pub fn from_entries(entries: Vec<IdListManifestEntry>) -> (r: Self)
        ensures
            r.listed() == entries@,
    {
        IdListManifest { entries }
    }

    pub fn contains_key(&self, name: &str) -> (r: bool)
        ensures
            r == self.named(name@) is Some,
    {
        self.get(name).is_some()
    }

    pub fn get(&self, name: &str) -> (r: Option<&IdListManifestEntry>)
        ensures
            (match r {
                Some(e) => Some(*e),
                None => None,
            }) == self.named(name@),
    {
        let mut i: usize = self.entries.len();
        assert(self.entries@.take(i as int) =~= self.entries@);
        while i > 0
            invariant
                i <= self.entries@.len(),
                last_named(self.entries@, name@) == last_named(
                    self.entries@.take(i as int),
                    name@,
                ),
            decreases i,
        {
            assert(self.entries@.take(i as int).drop_last() =~= self.entries@.take(i - 1));
            if text::same_text(self.entries[i - 1].name.as_str(), name) {
                return Some(&self.entries[i - 1]);
            }
            i -= 1;
        }
        None
    }

    /// The files that count, each name once.
    pub fn values(&self) -> (r: Vec<&IdListManifestEntry>)
        ensures
            forall|j: int|
                0 <= j < r@.len() ==> self.named((#[trigger] r@[j]).name@) == Some(*r@[j]),
            forall|name: Seq<char>|
                self.named(name) is Some ==> exists|j: int|
                    0 <= j < r@.len() && (#[trigger] r@[j]).name@ == name,
            forall|a: int, b: int|
                0 <= a < b < r@.len() ==> (#[trigger] r@[a]).name@ != (#[trigger] r@[b]).name@,
    {
        let mut r: Vec<&IdListManifestEntry> = Vec::new();
        let mut i: usize = 0;
        while i < self.entries.len()
            invariant
                i <= self.entries@.len(),
                forall|j: int|
                    0 <= j < r@.len() ==> self.named((#[trigger] r@[j]).name@) == Some(*r@[j]),
                forall|a: int|
                    0 <= a < i ==> exists|j: int|
                        0 <= j < r@.len() && (#[trigger] r@[j]).name@ == (
                        #[trigger] self.entries@[a]).name@,
                forall|a: int, b: int|
                    0 <= a < b < r@.len() ==> (#[trigger] r@[a]).name@ != (
                    #[trigger] r@[b]).name@,
            decreases self.entries@.len() - i,
        {
            let ghost before = r@;
            let name = self.entries[i].name.as_str();
            let mut seen = false;
            let mut k: usize = 0;
            while k < r.len()
                invariant
                    k <= r@.len(),
                    r@ == before,
                    seen == exists|j: int| 0 <= j < k && (#[trigger] before[j]).name@ == name@,
                decreases r@.len() - k,
            {
                if text::same_text(r[k].name.as_str(), name) {
                    seen = true;
                }
                k += 1;
            }
            if !seen {
                proof {
                    lemma_named(self.entries@, i as int);
                }
                if let Some(e) = self.get(name) {
                    r.push(e);
                    proof {
                        lemma_last_named(self.entries@, name@);
                        assert(r@[before.len() as int].name@ == name@);
                    }
                }
            }
            assert forall|a: int| 0 <= a < i + 1 implies exists|j: int|
                0 <= j < r@.len() && (#[trigger] r@[j]).name@ == (
                #[trigger] self.entries@[a]).name@ by {
                if a < i {
                    let j = choose|j: int|
                        0 <= j < before.len() && (#[trigger] before[j]).name@
                            == self.entries@[a].name@;
                    assert(r@[j] == before[j]);
                } else if seen {
                    let j = choose|j: int|
                        0 <= j < before.len() && (#[trigger] before[j]).name@ == name@;
                    assert(r@[j] == before[j]);
                } else {
                    assert(r@[before.len() as int].name@ == name@);
                }
            }
            i += 1;
        }
        assert forall|name: Seq<char>| self.named(name) is Some implies exists|j: int|
            0 <= j < r@.len() && (#[trigger] r@[j]).name@ == name by {
            lemma_last_named(self.entries@, name);
            let a = choose|a: int|
                0 <= a < self.entries@.len() && (#[trigger] self.entries@[a]).name@ == name;
            let j = choose|j: int|
                0 <= j < r@.len() && (#[trigger] r@[j]).name@ == self.entries@[a].name@;
            assert(r@[j].name@ == name);
        }
        r
    }
}

/// What is found under a name has that name and stands in the list.
proof fn lemma_last_named(entries: Seq<IdListManifestEntry>, name: Seq<char>)
    ensures
        last_named(entries, name) matches Some(e) ==> e.name@ == name,
        last_named(entries, name) is Some ==> exists|a: int|
            0 <= a < entries.len() && (#[trigger] entries[a]).name@ == name,
    decreases entries.len(),
{
    if entries.len() > 0 {
        if entries.last().name@ == name {
            assert(entries[entries.len() - 1].name@ == name);
        } else {
            lemma_last_named(entries.drop_last(), name);
            if last_named(entries.drop_last(), name) is Some {
                let a = choose|a: int|
                    0 <= a < entries.drop_last().len() && (
                    #[trigger] entries.drop_last()[a]).name@ == name;
                assert(entries[a].name@ == name);
            }
        }
    }
}

/// What stands in the list is found under its name.
proof fn lemma_named(entries: Seq<IdListManifestEntry>, i: int)
    requires
        0 <= i < entries.len(),
    ensures
        last_named(entries, entries[i].name@) is Some,
    decreases entries.len(),
{
    if entries.last().name@ != entries[i].name@ {
        lemma_named(entries.drop_last(), i);
        assert(entries.drop_last()[i] == entries[i]);
    }
}

/// The last entry of a name is the one that counts, and a name without an entry has none.
pub proof fn law_the_last_entry_counts(
    entries: Seq<IdListManifestEntry>,
    name: Seq<char>,
    i: int,
)
    ensures
        0 <= i < entries.len() && entries[i].name@ == name && (forall|j: int|
            i < j < entries.len() ==> (#[trigger] entries[j]).name@ != name) ==> last_named(
            entries,
            name,
        ) == Some(entries[i]),
        (forall|j: int| 0 <= j < entries.len() ==> (#[trigger] entries[j]).name@ != name)
            ==> last_named(entries, name) is None,
    decreases entries.len(),
{
    if entries.len() > 0 {
        let short = entries.drop_last();
        law_the_last_entry_counts(short, name, i);
        assert(forall|j: int| 0 <= j < short.len() ==> short[j] == entries[j]);
        assert(entries[entries.len() - 1] == entries.last());
    }
}

/// Lists are read as they are where they are plain, and as what they unpack to where they
/// are packed. What does not unpack, and what is packed in another way, is an error.
pub proof fn law_lists_are_unpacked(p: http_data_provider::PayloadView, data: Seq<u8>)
    ensures
        p.encoding == CompressionEncoder::PlainText ==> decoded_payload(p) == Ok::<
            Seq<u8>,
            Seq<char>,
        >(p.data),
        p.encoding == CompressionEncoder::Gzip ==> (decoded_payload(p) == Ok::<
            Seq<u8>,
            Seq<char>,
        >(data) <==> codecs::gzip_contents(p.data) == Ok::<Seq<u8>, Seq<char>>(data)),
        p.encoding == CompressionEncoder::Brotli || p.encoding == CompressionEncoder::StatsigBrotli
            ==> (decoded_payload(p) == Ok::<Seq<u8>, Seq<char>>(data) <==> codecs::brotli_contents(
            p.data,
            4096,
        ) == Ok::<Seq<u8>, Seq<char>>(data)),
        p.encoding == CompressionEncoder::Zstd || p.encoding == CompressionEncoder::Deflate
            || p.encoding == CompressionEncoder::Compress || p.encoding
            == CompressionEncoder::Identity ==> decoded_payload(p) is Err,
{
}

} // verus!
