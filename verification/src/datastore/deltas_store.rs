//! The changes of config specs that were fetched lately, for clients that take
//! changes instead of everything.

use crate::codecs;
use crate::datastore::data_providers::http_data_provider;
use crate::datastore::data_providers::http_data_provider::ResponsePayload;
use crate::datastore::data_providers::{
    DataProviderRequestResult, FullRequestContext, ResponseContext,
};
use crate::datastore::envelope_frames;
use crate::datastore::sdk_key_store;
use crate::datastore::sdk_key_store::SdkKeyStore;
use crate::keyed_store;
use crate::keyed_store::{KeyedStore, StoreKey};
use crate::servers::authorized_request_context;
use crate::servers::authorized_request_context::AuthorizedRequestContext;
use crate::servers::normalized_path;
use crate::servers::normalized_path::NormalizedPath;
use crate::utils::compress_encoder::CompressionEncoder;
use crate::utils::response_compression;
use std::sync::Arc;
use vstd::prelude::*;

verus! {

/// What an envelope is about. The first four frame the others.
#[derive(Clone, Copy, Debug, PartialEq, Eq, Structural)]
pub enum SpecsEnvelopeKind {
    Done,
    CopyPrev,
    TopLevel,
    Checksums,
    Other(i32),
}

/// One envelope of a binary payload.
#[derive(Debug, PartialEq)]
pub struct SpecsEnvelope {
    pub kind: SpecsEnvelopeKind,
    pub name: String,
    pub data: Option<Vec<u8>>,
    /// The envelope in its encoding.
    pub encoded: Vec<u8>,
}

/// The top level of a payload.
#[derive(Clone, Copy, Debug, PartialEq, Eq, Structural)]
pub struct SpecsTopLevel {
    pub time: u64,
}

/// One change, and from when on it was asked for.
#[derive(Debug)]
pub struct DeltaCacheEntry {
    pub since_time_requested: u64,
    pub lcut: u64,
    pub top_level: SpecsTopLevel,
    pub envelopes: Vec<SpecsEnvelope>,
}

/// A payload that was read.
#[derive(Debug)]
pub struct ParsedDelta {
    pub envelopes: Vec<SpecsEnvelope>,
    pub top_level: SpecsTopLevel,
}

/// What a client that asks for changes gets.
#[derive(Debug, PartialEq)]
pub enum DeltaProtoBuildResult {
    SdkKeyNotRegistered,
    NoCachedDeltas,
    SinceTimeTooOld { earliest_since_time: u64 },
    NoUpdates { lcut: u64 },
    Combined { lcut: u64, payload: Vec<u8> },
    SerializationFailed,
}

/// The model of what a client gets.
pub enum BuildView {
    SdkKeyNotRegistered,
    NoCachedDeltas,
    SinceTimeTooOld(u64),
    NoUpdates(u64),
    Combined(u64, Seq<u8>),
    SerializationFailed,
}

impl View for DeltaProtoBuildResult {
    type V = BuildView;

    open spec fn view(&self) -> BuildView {
        match self {
            DeltaProtoBuildResult::SdkKeyNotRegistered => BuildView::SdkKeyNotRegistered,
            DeltaProtoBuildResult::NoCachedDeltas => BuildView::NoCachedDeltas,
            DeltaProtoBuildResult::SinceTimeTooOld { earliest_since_time } =>
                BuildView::SinceTimeTooOld(*earliest_since_time),
            DeltaProtoBuildResult::NoUpdates { lcut } => BuildView::NoUpdates(*lcut),
            DeltaProtoBuildResult::Combined { lcut, payload } => BuildView::Combined(
                *lcut,
                payload@,
            ),
            DeltaProtoBuildResult::SerializationFailed => BuildView::SerializationFailed,
        }
    }
}

/// The parts of a combined payload.
#[derive(Clone, Copy, Debug, PartialEq, Eq, Structural)]
pub enum EnvelopePart {
    Head,
    Data,
    Tail,
}

/// Where envelopes of a kind stand in a combined payload.
pub open spec fn part_of(kind: SpecsEnvelopeKind) -> EnvelopePart {
    match kind {
        SpecsEnvelopeKind::CopyPrev => EnvelopePart::Head,
        SpecsEnvelopeKind::TopLevel => EnvelopePart::Head,
        SpecsEnvelopeKind::Checksums => EnvelopePart::Tail,
        SpecsEnvelopeKind::Done => EnvelopePart::Tail,
        SpecsEnvelopeKind::Other(_) => EnvelopePart::Data,
    }
}

/// Whether an envelope frames the others.
pub open spec fn is_meta(kind: SpecsEnvelopeKind) -> bool {
    !(kind is Other)
}

pub fn is_meta_envelope(kind: SpecsEnvelopeKind) -> (r: bool)
    ensures
        r == is_meta(kind),
{
    match kind {
        SpecsEnvelopeKind::Other(_) => false,
        _ => true,
    }
}

fn part_of_kind(kind: SpecsEnvelopeKind) -> (r: EnvelopePart)
    ensures
        r == part_of(kind),
{
    match kind {
        SpecsEnvelopeKind::CopyPrev => EnvelopePart::Head,
        SpecsEnvelopeKind::TopLevel => EnvelopePart::Head,
        SpecsEnvelopeKind::Checksums => EnvelopePart::Tail,
        SpecsEnvelopeKind::Done => EnvelopePart::Tail,
        SpecsEnvelopeKind::Other(_) => EnvelopePart::Data,
    }
}

/// The envelopes of one part, in order.
pub open spec fn in_part(envelopes: Seq<SpecsEnvelope>, part: EnvelopePart) -> Seq<SpecsEnvelope> {
    envelopes.filter(|e: SpecsEnvelope| part_of(e.kind) == part)
}

/// The envelopes with content of some changes, the earliest first.
pub open spec fn contents(deltas: Seq<Arc<DeltaCacheEntry>>) -> Seq<SpecsEnvelope>
    decreases deltas.len(),
{
    if deltas.len() == 0 {
        Seq::empty()
    } else {
        contents(deltas.drop_last()) + in_part(deltas.last().envelopes@, EnvelopePart::Data)
    }
}

/// The envelopes of a combined payload: the head of the latest change, the
/// contents of all, the earliest first, and the tail of the latest.
pub open spec fn assembled(deltas: Seq<Arc<DeltaCacheEntry>>) -> Seq<SpecsEnvelope> {
    if deltas.len() == 0 {
        Seq::empty()
    } else {
        in_part(deltas.last().envelopes@, EnvelopePart::Head) + contents(deltas) + in_part(
            deltas.last().envelopes@,
            EnvelopePart::Tail,
        )
    }
}

/// The encodings of some envelopes.
pub open spec fn encodings_of(envelopes: Seq<SpecsEnvelope>) -> Seq<Seq<u8>> {
    Seq::new(envelopes.len(), |i: int| envelopes[i].encoded@)
}

/// The bytes of some envelopes.
pub open spec fn payload_of(envelopes: Seq<SpecsEnvelope>) -> Seq<u8> {
    envelope_frames::framed(encodings_of(envelopes))
}

proof fn lemma_payload_add(a: Seq<SpecsEnvelope>, b: Seq<SpecsEnvelope>)
    ensures
        payload_of(a + b) == payload_of(a) + payload_of(b),
{
    assert(encodings_of(a + b) =~= encodings_of(a) + encodings_of(b));
    envelope_frames::lemma_framed_add(encodings_of(a), encodings_of(b));
}

fn write_part(out: &mut Vec<u8>, envelopes: &Vec<SpecsEnvelope>, part: EnvelopePart)
    ensures
        final(out)@ == old(out)@ + payload_of(in_part(envelopes@, part)),
{
    let ghost f = |e: SpecsEnvelope| part_of(e.kind) == part;
    let mut i: usize = 0;
    proof {
        reveal(Seq::filter);
        assert(envelopes@.take(0).filter(f) =~= Seq::<SpecsEnvelope>::empty());
        assert(encodings_of(Seq::<SpecsEnvelope>::empty()) =~= Seq::<Seq<u8>>::empty());
        assert(old(out)@ + payload_of(Seq::<SpecsEnvelope>::empty()) =~= old(out)@);
    }
    while i < envelopes.len()
        invariant
            i <= envelopes@.len(),
            f == (|e: SpecsEnvelope| part_of(e.kind) == part),
            out@ == old(out)@ + payload_of(envelopes@.take(i as int).filter(f)),
        decreases envelopes@.len() - i,
    {
        let ghost before = envelopes@.take(i as int).filter(f);
        proof {
            reveal(Seq::filter);
            assert(envelopes@.take(i + 1).drop_last() =~= envelopes@.take(i as int));
        }
        if part_of_kind(envelopes[i].kind) == part {
            envelope_frames::write_frame(out, &envelopes[i].encoded);
            proof {
                let e = envelopes@[i as int];
                assert(encodings_of(before.push(e)) =~= encodings_of(before).push(e.encoded@));
                envelope_frames::lemma_framed_push(encodings_of(before), e.encoded@);
                assert(envelopes@.take(i + 1).filter(f) == before.push(e));
                assert(out@ =~= old(out)@ + payload_of(before.push(e)));
            }
        }
        i += 1;
    }
    assert(envelopes@.take(i as int) =~= envelopes@);
}

/// Combines changes into one payload.
pub fn assemble_envelopes_in_delta_order(selected_deltas: &Vec<Arc<DeltaCacheEntry>>) -> (r: Option<
    Vec<u8>,
>)
    ensures
        codecs::bytes_option(r) == Some(payload_of(assembled(selected_deltas@))),
{
    let mut out: Vec<u8> = Vec::new();
    let n: usize = selected_deltas.len();
    if n == 0 {
        assert(encodings_of(assembled(selected_deltas@)) =~= Seq::<Seq<u8>>::empty());
        return Some(out);
    }
    let ghost last = selected_deltas@.last().envelopes@;
    let ghost head = in_part(last, EnvelopePart::Head);
    write_part(&mut out, &selected_deltas[n - 1].envelopes, EnvelopePart::Head);
    let mut i: usize = 0;
    proof {
        assert(encodings_of(contents(selected_deltas@.take(0))) =~= Seq::<Seq<u8>>::empty());
        assert(out@ =~= payload_of(head) + payload_of(contents(selected_deltas@.take(0))));
    }
    while i < n
        invariant
            i <= n == selected_deltas@.len(),
            out@ == payload_of(head) + payload_of(contents(selected_deltas@.take(i as int))),
        decreases n - i,
    {
        let ghost before = contents(selected_deltas@.take(i as int));
        let ghost part = in_part(selected_deltas@[i as int].envelopes@, EnvelopePart::Data);
        write_part(&mut out, &selected_deltas[i].envelopes, EnvelopePart::Data);
        proof {
            assert(selected_deltas@.take(i + 1).drop_last() =~= selected_deltas@.take(i as int));
            lemma_payload_add(before, part);
            assert(contents(selected_deltas@.take(i + 1)) == before + part);
            assert(out@ =~= payload_of(head) + payload_of(before + part));
        }
        i += 1;
    }
    write_part(&mut out, &selected_deltas[n - 1].envelopes, EnvelopePart::Tail);
    proof {
        assert(selected_deltas@.take(n as int) =~= selected_deltas@);
        let middle = contents(selected_deltas@);
        let tail = in_part(last, EnvelopePart::Tail);
        lemma_payload_add(head, middle);
        lemma_payload_add(head + middle, tail);
    }
    Some(out)
}

/// A reader of a combined payload finds its envelopes, in order and nothing
/// else.
pub proof fn law_combined_payloads_are_read_back(deltas: Seq<Arc<DeltaCacheEntry>>)
    requires
        forall|i: int|
            0 <= i < assembled(deltas).len() ==> (#[trigger] assembled(deltas)[i]).encoded@.len()
                <= u64::MAX,
    ensures
        envelope_frames::unframed(payload_of(assembled(deltas))) == (
            encodings_of(assembled(deltas)),
            true,
        ),
{
    envelope_frames::law_frames_round_trip(encodings_of(assembled(deltas)));
}

/// The bytes of a payload without its compression; nothing where the payload is
/// not binary or is compressed in another way.
pub open spec fn delta_bytes(p: http_data_provider::PayloadView) -> Option<Seq<u8>> {
    if !p.use_proto {
        None
    } else {
        match p.encoding {
            CompressionEncoder::Brotli => codecs::unbrotlied(p.data, 4096),
            CompressionEncoder::StatsigBrotli => codecs::unbrotlied(p.data, 4096),
            CompressionEncoder::Gzip => codecs::gunzipped(p.data),
            CompressionEncoder::PlainText => Some(p.data),
            _ => None,
        }
    }
}

/// Takes the compression off a binary payload.
pub fn decompress(payload: &ResponsePayload) -> (r: Option<Vec<u8>>)
    ensures
        codecs::bytes_option(r) == delta_bytes(payload@),
{
    if !payload.use_proto {
        return None;
    }
    match payload.encoding {
        CompressionEncoder::Brotli | CompressionEncoder::StatsigBrotli => codecs::unbrotli(
            payload.data.as_slice(),
            4096,
        ),
        CompressionEncoder::Gzip => codecs::gunzip(payload.data.as_slice()),
        CompressionEncoder::PlainText => Some(payload.data.clone()),
        _ => None,
    }
}

/// Whether every frame was decoded.
pub open spec fn all_decoded(decoded: Seq<Option<SpecsEnvelope>>) -> bool {
    forall|i: int| 0 <= i < decoded.len() ==> (#[trigger] decoded[i]) is Some
}

/// The envelopes of a payload, from the decoding of each of its frames and of
/// the payload as a whole: the frames where they all decode and are all there
/// is, the payload as one envelope where its first frame does not, and nothing
/// otherwise.
pub open spec fn envelopes_of(
    decoded: Seq<Option<SpecsEnvelope>>,
    clean: bool,
    whole: Option<SpecsEnvelope>,
) -> Option<Seq<SpecsEnvelope>> {
    if clean && all_decoded(decoded) {
        Some(Seq::new(decoded.len(), |i: int| decoded[i]->0))
    } else if decoded.len() == 0 || decoded[0] is None {
        match whole {
            Some(e) => Some(seq![e]),
            None => None,
        }
    } else {
        None
    }
}

/// Gathers the envelopes of a payload.
pub fn decode_envelopes(
    decoded: Vec<Option<SpecsEnvelope>>,
    clean: bool,
    whole: Option<SpecsEnvelope>,
) -> (r: Option<Vec<SpecsEnvelope>>)
    ensures
        (match r {
            Some(v) => Some(v@),
            None => None,
        }) == envelopes_of(decoded@, clean, whole),
{
    let ghost all = decoded@;
    let mut rest = decoded;
    let mut reversed: Vec<Option<SpecsEnvelope>> = Vec::new();
    let mut complete = clean;
    let first_failed = rest.len() == 0 || rest[0].is_none();
    let mut i: usize = 0;
    while i < rest.len()
        invariant
            i <= rest@.len(),
            rest@ == all,
            complete == (clean && forall|j: int| 0 <= j < i ==> (#[trigger] all[j]) is Some),
        decreases rest@.len() - i,
    {
        if rest[i].is_none() {
            complete = false;
            assert(!(all[i as int] is Some));
        }
        i += 1;
    }
    if !complete {
        if !first_failed {
            return None;
        }
        return match whole {
            Some(e) => {
                let mut v: Vec<SpecsEnvelope> = Vec::new();
                v.push(e);
                assert(v@ =~= seq![e]);
                Some(v)
            },
            None => None,
        };
    }
    while rest.len() > 0
        invariant
            rest@ == all.take(rest@.len() as int),
            rest@.len() + reversed@.len() == all.len(),
            forall|j: int|
                0 <= j < reversed@.len() ==> #[trigger] reversed@[j] == all[all.len() - 1 - j],
        decreases rest@.len(),
    {
        let ghost n = rest@.len();
        let e = rest.pop();
        if let Some(x) = e {
            assert(x == all[n - 1]);
            reversed.push(x);
        }
        assert(rest@ =~= all.take(rest@.len() as int));
    }
    let mut out: Vec<SpecsEnvelope> = Vec::new();
    while reversed.len() > 0
        invariant
            out@.len() + reversed@.len() == all.len(),
            all_decoded(all),
            forall|j: int|
                0 <= j < reversed@.len() ==> #[trigger] reversed@[j] == all[all.len() - 1 - j],
            forall|j: int| 0 <= j < out@.len() ==> #[trigger] out@[j] == all[j]->0,
        decreases reversed@.len(),
    {
        let ghost n = reversed@.len();
        assert(reversed@[n - 1] == all[out@.len() as int]);
        let e = reversed.pop();
        if let Some(Some(x)) = e {
            out.push(x);
        }
    }
    assert(out@ =~= Seq::new(all.len(), |i: int| all[i]->0));
    Some(out)
}

/// Where the first envelope with the top level stands.
pub open spec fn first_top_level(envelopes: Seq<SpecsEnvelope>) -> int
    decreases envelopes.len(),
{
    if envelopes.len() == 0 || envelopes[0].kind == SpecsEnvelopeKind::TopLevel {
        0
    } else {
        1 + first_top_level(envelopes.drop_first())
    }
}

/// The encoding of the top level, where there is an envelope with it.
pub open spec fn top_level_bytes(envelopes: Seq<SpecsEnvelope>) -> Option<Seq<u8>> {
    let i = first_top_level(envelopes);
    if 0 <= i < envelopes.len() {
        codecs::bytes_option(envelopes[i].data)
    } else {
        None
    }
}

pub fn top_level_data(envelopes: &Vec<SpecsEnvelope>) -> (r: Option<Vec<u8>>)
    ensures
        codecs::bytes_option(r) == top_level_bytes(envelopes@),
{
    let mut i: usize = 0;
    assert(envelopes@.skip(0) =~= envelopes@);
    while i < envelopes.len()
        invariant
            i <= envelopes@.len(),
            first_top_level(envelopes@) == i + first_top_level(envelopes@.skip(i as int)),
        decreases envelopes@.len() - i,
    {
        assert(envelopes@.skip(i as int)[0] == envelopes@[i as int]);
        if envelopes[i].kind == SpecsEnvelopeKind::TopLevel {
            return match &envelopes[i].data {
                Some(d) => Some(d.clone()),
                None => None,
            };
        }
        assert(envelopes@.skip(i as int).drop_first() =~= envelopes@.skip(i + 1));
        i += 1;
    }
    assert(envelopes@.skip(i as int).len() == 0);
    None
}

/// The payload that was read: its envelopes, with the top level of the envelope
/// that has it, or of the payload as a whole.
pub fn parse_payload_to_protos(
    envelopes: Option<Vec<SpecsEnvelope>>,
    top_of_envelope: Option<SpecsTopLevel>,
    top_of_whole: Option<SpecsTopLevel>,
) -> (r: Option<ParsedDelta>)
    ensures
        match r {
            Some(p) => envelopes == Some(p.envelopes) && p.top_level == (match top_of_envelope {
                Some(t) => t,
                None => top_of_whole->0,
            }) && (top_of_envelope is Some || top_of_whole is Some),
            None => envelopes is None || (top_of_envelope is None && top_of_whole is None),
        },
{
    let envelopes = match envelopes {
        Some(e) => e,
        None => {
            return None;
        },
    };
    let top_level = match top_of_envelope {
        Some(t) => t,
        None => match top_of_whole {
            Some(t) => t,
            None => {
                return None;
            },
        },
    };
    Some(ParsedDelta { envelopes, top_level })
}

/// The context under which the changes of a key are kept up to date.
pub open spec fn delta_context(
    c: authorized_request_context::ContextView,
) -> authorized_request_context::ContextView {
    authorized_request_context::ContextView {
        supports_proto: c.supports_proto,
        accept_deltas: c.accept_deltas,
        ..authorized_request_context::new_context(
            c.sdk_key,
            normalized_path::PathView::V2DownloadConfigSpecsDeltas,
            c.encodings,
        )
    }
}

pub fn to_delta_request_context(request_context: &AuthorizedRequestContext) -> (r: Arc<
    AuthorizedRequestContext,
>)
    ensures
        r@ == delta_context(request_context@),
{
    Arc::new(
        AuthorizedRequestContext::new(
            request_context.sdk_key.clone(),
            NormalizedPath::V2DownloadConfigSpecsDeltas,
            request_context.encodings.clone(),
        ).with_request_capabilities(request_context.supports_proto, request_context.accept_deltas),
    )
}

/// Where a change belongs among others: behind all that are not newer.
pub open spec fn place_of(records: Seq<Arc<DeltaCacheEntry>>, lcut: u64) -> int
    decreases records.len(),
{
    if records.len() == 0 || records[0].lcut > lcut {
        0
    } else {
        1 + place_of(records.drop_first(), lcut)
    }
}

/// The changes with one more, of which the oldest are dropped beyond `max`.
pub open spec fn with_delta(
    records: Seq<Arc<DeltaCacheEntry>>,
    entry: Arc<DeltaCacheEntry>,
    max: int,
) -> Seq<Arc<DeltaCacheEntry>> {
    let all = records.insert(place_of(records, entry.lcut), entry);
    if all.len() > max {
        all.skip(all.len() - max)
    } else {
        all
    }
}

pub proof fn lemma_place_of(records: Seq<Arc<DeltaCacheEntry>>, lcut: u64)
    ensures
        0 <= place_of(records, lcut) <= records.len(),
        forall|i: int| 0 <= i < place_of(records, lcut) ==> (#[trigger] records[i]).lcut <= lcut,
        place_of(records, lcut) < records.len() ==> records[place_of(records, lcut)].lcut > lcut,
    decreases records.len(),
{
    if records.len() > 0 && records[0].lcut <= lcut {
        let t = records.drop_first();
        lemma_place_of(t, lcut);
        assert forall|i: int| 0 <= i < place_of(records, lcut) implies (
        #[trigger] records[i]).lcut <= lcut by {
            if i > 0 {
                assert(records[i] == t[i - 1]);
            }
        }
    }
}

/// Whether changes stand in the order of their times.
pub open spec fn in_order(records: Seq<Arc<DeltaCacheEntry>>) -> bool {
    forall|i: int, j: int|
        0 <= i <= j < records.len() ==> (#[trigger] records[i]).lcut <= (
        #[trigger] records[j]).lcut
}

/// Changes stay in order and within their limit, and the latest of them is never
/// dropped.
pub proof fn law_deltas_stay_ordered_and_bounded(
    records: Seq<Arc<DeltaCacheEntry>>,
    entry: Arc<DeltaCacheEntry>,
    max: int,
)
    requires
        in_order(records),
        records.len() <= max,
        max >= 1,
    ensures
        in_order(with_delta(records, entry, max)),
        1 <= with_delta(records, entry, max).len() <= max,
        with_delta(records, entry, max).last().lcut >= entry.lcut,
        records.len() > 0 ==> with_delta(records, entry, max).last().lcut >= records.last().lcut,
{
    lemma_place_of(records, entry.lcut);
    let p = place_of(records, entry.lcut);
    let all = records.insert(p, entry);
    assert forall|i: int, j: int| 0 <= i <= j < all.len() implies (#[trigger] all[i]).lcut <= (
    #[trigger] all[j]).lcut by {
        if i < p && j == p {
            assert(records[i].lcut <= entry.lcut);
        } else if i == p && j > p {
            assert(records[p].lcut <= records[j - 1].lcut);
        }
    }
    assert(in_order(all));
    let kept = with_delta(records, entry, max);
    let d = all.len() - kept.len();
    assert(kept =~= all.skip(d));
    assert forall|i: int, j: int| 0 <= i <= j < kept.len() implies (#[trigger] kept[i]).lcut <= (
    #[trigger] kept[j]).lcut by {
        assert(kept[i] == all[i + d]);
        assert(kept[j] == all[j + d]);
    }
    assert(kept.last() == all.last());
    assert(all[p] == entry);
    assert(all[p].lcut <= all[all.len() - 1].lcut);
    if records.len() > 0 {
        if p == records.len() {
            assert(records.last().lcut <= entry.lcut);
        } else {
            assert(all.last() == records.last());
        }
    }
}

/// The earliest time that changes were asked for.
pub open spec fn earliest_since(deltas: Seq<Arc<DeltaCacheEntry>>) -> u64
    decreases deltas.len(),
{
    if deltas.len() == 0 {
        0
    } else if deltas.len() == 1 {
        deltas[0].since_time_requested
    } else {
        let rest = earliest_since(deltas.drop_last());
        if deltas.last().since_time_requested < rest {
            deltas.last().since_time_requested
        } else {
            rest
        }
    }
}

/// The changes that a client at `since_time` may lack. One time can stand for
/// several versions, so the changes of that very time count.
pub open spec fn selected(
    deltas: Seq<Arc<DeltaCacheEntry>>,
    since_time: u64,
) -> Seq<Arc<DeltaCacheEntry>> {
    deltas.filter(|d: Arc<DeltaCacheEntry>| d.lcut >= since_time)
}

/// What a client at `since_time` gets of some changes. A client at the very
/// latest time gets nothing, lest the last change be sent over and over.
pub open spec fn build_result(
    registered: bool,
    deltas: Seq<Arc<DeltaCacheEntry>>,
    since_time: u64,
) -> BuildView {
    if !registered {
        BuildView::SdkKeyNotRegistered
    } else if deltas.len() == 0 {
        BuildView::NoCachedDeltas
    } else if since_time < earliest_since(deltas) {
        BuildView::SinceTimeTooOld(earliest_since(deltas))
    } else if selected(deltas, since_time).len() == 0 || since_time == deltas.last().lcut {
        BuildView::NoUpdates(deltas.last().lcut)
    } else {
        BuildView::Combined(
            deltas.last().lcut,
            payload_of(assembled(selected(deltas, since_time))),
        )
    }
}

pub open spec fn sdk_key_key(sdk_key: Seq<char>) -> keyed_store::KeyView {
    (seq![sdk_key], Seq::empty())
}

fn store_key_of(sdk_key: &str) -> (r: StoreKey)
    ensures
        r@ == sdk_key_key(sdk_key@),
{
    let mut names: Vec<String> = Vec::new();
    names.push(sdk_key.to_owned());
    let key = StoreKey { names, numbers: Vec::new() };
    assert(key@.0 =~= seq![sdk_key@]);
    assert(key@.1 =~= Seq::<u64>::empty());
    key
}

fn share_all(v: &Vec<Arc<DeltaCacheEntry>>) -> (r: Vec<Arc<DeltaCacheEntry>>)
    ensures
        r@ == v@,
{
    let mut r: Vec<Arc<DeltaCacheEntry>> = Vec::new();
    let mut i: usize = 0;
    while i < v.len()
        invariant
            i <= v@.len(),
            r@ =~= v@.take(i as int),
        decreases v@.len() - i,
    {
        r.push(keyed_store::share(&v[i]));
        i += 1;
    }
    assert(v@.take(i as int) =~= v@);
    r
}

/// The changes of all keys.
pub struct DeltasStore {
    store: KeyedStore<Vec<Arc<DeltaCacheEntry>>>,
    max_responses_to_persist: usize,
}

impl DeltasStore {
    /// The changes of each key are in order, and no more than their limit.
    pub closed spec fn wf(&self) -> bool {
        &&& self.store.wf()
        &&& self.max_responses_to_persist >= 1
        &&& forall|k: keyed_store::KeyView| #[trigger]
            self.store@.contains_key(k) ==> in_order(self.store@[k]@) && self.store@[k]@.len()
                <= self.max_responses_to_persist
    }

    /// How many changes are kept of each key.
    pub closed spec fn limit(&self) -> int {
        self.max_responses_to_persist as int
    }

    /// The changes by the keys they are stored under.
    pub closed spec fn deltas(&self) -> Map<keyed_store::KeyView, Seq<Arc<DeltaCacheEntry>>> {
        self.store@.map_values(|v: Vec<Arc<DeltaCacheEntry>>| v@)
    }

    /// The changes of a key.
    pub open spec fn of_key(&self, sdk_key: Seq<char>) -> Seq<Arc<DeltaCacheEntry>> {
        if self.deltas().contains_key(sdk_key_key(sdk_key)) {
            self.deltas()[sdk_key_key(sdk_key)]
        } else {
            Seq::empty()
        }
    }

    pub fn new(max_responses_to_persist: usize) -> (r: Self)
        ensures
            r.wf(),
            r.limit() == (if max_responses_to_persist >= 1 {
                max_responses_to_persist as int
            } else {
                1
            }),
            r.deltas() == Map::<keyed_store::KeyView, Seq<Arc<DeltaCacheEntry>>>::empty(),
    {
        let r = DeltasStore {
            store: KeyedStore::new(),
            max_responses_to_persist: if max_responses_to_persist >= 1 {
                max_responses_to_persist
            } else {
                1
            },
        };
        assert(r.deltas() =~= Map::<keyed_store::KeyView, Seq<Arc<DeltaCacheEntry>>>::empty());
        r
    }

    /// The changes of each key are in order, and no more than their limit.
    pub proof fn law_kept_deltas(&self, sdk_key: Seq<char>)
        requires
            self.wf(),
        ensures
            in_order(self.of_key(sdk_key)),
            self.of_key(sdk_key).len() <= self.limit(),
    {
        let k = sdk_key_key(sdk_key);
        if self.deltas().contains_key(k) {
            assert(self.store@.contains_key(k));
        }
    }

    /// Registers a key whose changes were never asked for. Tells whether they
    /// must be fetched first.
    pub fn needs_fetch(
        &self,
        sdk_keys: &mut SdkKeyStore,
        rc: &AuthorizedRequestContext,
    ) -> (r: bool)
        requires
            old(sdk_keys).wf(),
        ensures
            final(sdk_keys).wf(),
            r == !old(sdk_keys).lcuts().contains_key(sdk_key_store::context_key(rc@)),
            final(sdk_keys).lcuts() == (if r {
                old(sdk_keys).lcuts().insert(
                    sdk_key_store::context_key(delta_context(rc@)),
                    0,
                )
            } else {
                old(sdk_keys).lcuts()
            }),
            final(sdk_keys).requests() == (if r {
                sdk_key_store::upserted(old(sdk_keys).requests(), delta_context(rc@), 0)
            } else {
                old(sdk_keys).requests()
            }),
    {
        if sdk_keys.has_key(rc) {
            return false;
        }
        sdk_keys.upsert(&to_delta_request_context(rc), 0);
        true
    }

    pub fn has_registered_key(&self, sdk_keys: &SdkKeyStore, rc: &AuthorizedRequestContext) -> (r:
        bool)
        requires
            sdk_keys.wf(),
        ensures
            r == sdk_keys.lcuts().contains_key(sdk_key_store::context_key(delta_context(rc@))),
    {
        sdk_keys.has_key(&to_delta_request_context(rc))
    }

    pub fn register_sdk_key(
        &self,
        sdk_keys: &mut SdkKeyStore,
        rc: &AuthorizedRequestContext,
        since_time: u64,
    )
        requires
            old(sdk_keys).wf(),
        ensures
            final(sdk_keys).wf(),
            final(sdk_keys).lcuts() == old(sdk_keys).lcuts().insert(
                sdk_key_store::context_key(delta_context(rc@)),
                since_time,
            ),
            final(sdk_keys).requests() == sdk_key_store::upserted(
                old(sdk_keys).requests(),
                delta_context(rc@),
                since_time,
            ),
    {
        sdk_keys.upsert(&to_delta_request_context(rc), since_time);
    }

    pub fn get_cached_deltas(&self, rc: &AuthorizedRequestContext) -> (r: Vec<
        Arc<DeltaCacheEntry>,
    >)
        requires
            self.wf(),
        ensures
            r@ == self.of_key(rc@.sdk_key),
    {
        match self.store.get(&store_key_of(rc.sdk_key.as_str())) {
            Some(records) => share_all(records),
            None => Vec::new(),
        }
    }

    /// What a client at `since_time` gets.
    pub fn build_combined_delta_proto_payload(
        &self,
        sdk_keys: &SdkKeyStore,
        rc: &AuthorizedRequestContext,
        since_time: u64,
    ) -> (r: DeltaProtoBuildResult)
        requires
            self.wf(),
            sdk_keys.wf(),
        ensures
            r@ == build_result(
                sdk_keys.lcuts().contains_key(sdk_key_store::context_key(delta_context(rc@))),
                self.of_key(rc@.sdk_key),
                since_time,
            ),
    {
        if !self.has_registered_key(sdk_keys, rc) {
            return DeltaProtoBuildResult::SdkKeyNotRegistered;
        }
        let deltas = self.get_cached_deltas(rc);
        let n: usize = deltas.len();
        if n == 0 {
            return DeltaProtoBuildResult::NoCachedDeltas;
        }
        let ghost f = |d: Arc<DeltaCacheEntry>| d.lcut >= since_time;
        let mut earliest: u64 = deltas[0].since_time_requested;
        let mut chosen: Vec<Arc<DeltaCacheEntry>> = Vec::new();
        let mut i: usize = 0;
        proof {
            reveal(Seq::filter);
        }
        while i < n
            invariant
                i <= n == deltas@.len(),
                n > 0,
                f == (|d: Arc<DeltaCacheEntry>| d.lcut >= since_time),
                chosen@ == deltas@.take(i as int).filter(f),
                i == 0 ==> earliest == deltas@[0].since_time_requested,
                i > 0 ==> earliest == earliest_since(deltas@.take(i as int)),
            decreases n - i,
        {
            proof {
                reveal(Seq::filter);
                assert(deltas@.take(i + 1).drop_last() =~= deltas@.take(i as int));
            }
            if deltas[i].since_time_requested < earliest {
                earliest = deltas[i].since_time_requested;
            }
            if deltas[i].lcut >= since_time {
                chosen.push(keyed_store::share(&deltas[i]));
            }
            i += 1;
        }
        assert(deltas@.take(n as int) =~= deltas@);
        let latest_lcut: u64 = deltas[n - 1].lcut;
        if since_time < earliest {
            return DeltaProtoBuildResult::SinceTimeTooOld { earliest_since_time: earliest };
        }
        if chosen.is_empty() || since_time == latest_lcut {
            return DeltaProtoBuildResult::NoUpdates { lcut: latest_lcut };
        }
        match assemble_envelopes_in_delta_order(&chosen) {
            Some(payload) => DeltaProtoBuildResult::Combined { lcut: latest_lcut, payload },
            None => DeltaProtoBuildResult::SerializationFailed,
        }
    }

    fn remove_sdk_key(&mut self, sdk_keys: &mut SdkKeyStore, rc: &AuthorizedRequestContext)
        requires
            old(self).wf(),
            old(sdk_keys).wf(),
        ensures
            final(self).wf(),
            final(sdk_keys).wf(),
            final(self).limit() == old(self).limit(),
            final(sdk_keys).lcuts() == old(sdk_keys).lcuts().remove(
                sdk_key_store::context_key(rc@),
            ),
            final(sdk_keys).requests() == old(sdk_keys).requests().remove(
                sdk_key_store::context_key(rc@),
            ),
            final(self).deltas() == old(self).deltas().remove(sdk_key_key(rc@.sdk_key)),
    {
        let ghost before = *self;
        sdk_keys.remove_key(rc);
        let _ = self.store.remove(&store_key_of(rc.sdk_key.as_str()));
        assert(self.deltas() =~= before.deltas().remove(sdk_key_key(rc@.sdk_key)));
    }

    /// Keeps a change of a key.
    pub fn persist_delta(
        &mut self,
        rc: &AuthorizedRequestContext,
        parsed: ParsedDelta,
        since_time_requested: u64,
    )
        requires
            old(self).wf(),
        ensures
            final(self).wf(),
            final(self).limit() == old(self).limit(),
            final(self).deltas() == old(self).deltas().insert(
                sdk_key_key(rc@.sdk_key),
                with_delta(
                    old(self).of_key(rc@.sdk_key),
                    Arc::new(
                        DeltaCacheEntry {
                            since_time_requested,
                            lcut: parsed.top_level.time,
                            top_level: parsed.top_level,
                            envelopes: parsed.envelopes,
                        },
                    ),
                    old(self).limit(),
                ),
            ),
    {
        let ghost before = *self;
        let lcut: u64 = parsed.top_level.time;
        let entry = Arc::new(
            DeltaCacheEntry {
                since_time_requested,
                lcut,
                top_level: parsed.top_level,
                envelopes: parsed.envelopes,
            },
        );
        let ghost e = entry;
        let key = store_key_of(rc.sdk_key.as_str());
        let ghost k = key@;
        proof {
            before.law_kept_deltas(rc@.sdk_key);
        }
        let mut records = match self.store.remove(&key) {
            Some(records) => records,
            None => Vec::new(),
        };
        let ghost old_records = before.of_key(rc@.sdk_key);
        assert(records@ =~= old_records);
        let mut idx: usize = 0;
        assert(records@.skip(0) =~= records@);
        while idx < records.len() && records[idx].lcut <= lcut
            invariant
                idx <= records@.len(),
                records@ == old_records,
                place_of(old_records, lcut) == idx + place_of(old_records.skip(idx as int), lcut),
            decreases records@.len() - idx,
        {
            assert(old_records.skip(idx as int)[0] == records@[idx as int]);
            assert(old_records.skip(idx as int).drop_first() =~= old_records.skip(idx + 1));
            idx += 1;
        }
        proof {
            if idx < records@.len() {
                assert(old_records.skip(idx as int)[0] == records@[idx as int]);
            }
            assert(idx == place_of(old_records, lcut));
        }
        records.insert(idx, entry);
        let ghost all = records@;
        assert(all =~= old_records.insert(idx as int, e));
        assert(all.skip(0) =~= all);
        while records.len() > self.max_responses_to_persist
            invariant
                records@.len() <= all.len(),
                records@ =~= all.skip(all.len() - records@.len()),
                self.max_responses_to_persist == before.max_responses_to_persist,
                self.max_responses_to_persist >= 1,
                all.len() > self.max_responses_to_persist ==> records@.len()
                    >= self.max_responses_to_persist,
                all.len() <= self.max_responses_to_persist ==> records@.len() == all.len(),
            decreases records@.len(),
        {
            let _ = records.remove(0);
        }
        proof {
            law_deltas_stay_ordered_and_bounded(old_records, e, before.limit());
            assert(records@ =~= with_delta(old_records, e, before.limit()));
        }
        self.store.insert(key, records);
        assert(self.deltas() =~= before.deltas().insert(
            k,
            with_delta(old_records, e, before.limit()),
        ));
    }

    /// Takes a response, with its payload where it was read. The responses of the
    /// main endpoint only register keys or drop them; those of the endpoint for
    /// changes bring the changes.
    pub fn update(
        &mut self,
        sdk_keys: &mut SdkKeyStore,
        request_context: &FullRequestContext,
        response_context: &ResponseContext,
        parsed: Option<ParsedDelta>,
    )
        requires
            old(self).wf(),
            old(sdk_keys).wf(),
        ensures
            final(self).wf(),
            final(sdk_keys).wf(),
            final(self).limit() == old(self).limit(),
            final(sdk_keys).lcuts() == lcuts_after(
                old(sdk_keys).lcuts(),
                request_context.authorized_request_context@,
                response_context.result_type,
                response_context.lcut,
            ),
            final(sdk_keys).requests() == requests_after(
                old(sdk_keys).requests(),
                request_context.authorized_request_context@,
                response_context.result_type,
                response_context.lcut,
            ),
            final(self).deltas() == deltas_after(
                *old(self),
                request_context.authorized_request_context@,
                *response_context,
                parsed,
            ),
    {
        let rc = &request_context.authorized_request_context;
        if rc.path == NormalizedPath::V2DownloadConfigSpecs {
            if !rc.supports_proto || !rc.accept_deltas {
                return;
            }
            let delta_rc = to_delta_request_context(rc);
            match response_context.result_type {
                DataProviderRequestResult::DataAvailable => {
                    if sdk_keys.has_key(&delta_rc) {
                        return;
                    }
                    sdk_keys.upsert(&delta_rc, response_context.lcut);
                },
                DataProviderRequestResult::Unauthorized
                | DataProviderRequestResult::ClientError => {
                    self.remove_sdk_key(sdk_keys, &delta_rc);
                },
                _ => {},
            }
        } else if rc.path == NormalizedPath::V2DownloadConfigSpecsDeltas {
            match response_context.result_type {
                DataProviderRequestResult::DataAvailable => {
                    if let Some(p) = parsed {
                        self.persist_delta(rc, p, response_context.request_since_time);
                    }
                    sdk_keys.upsert(rc, response_context.lcut);
                },
                DataProviderRequestResult::Unauthorized
                | DataProviderRequestResult::ClientError => {
                    self.remove_sdk_key(sdk_keys, rc);
                },
                _ => {},
            }
        }
    }
}

/// Whether a response means that a key is not served any more.
pub open spec fn drops_key(result: DataProviderRequestResult) -> bool {
    result == DataProviderRequestResult::Unauthorized || result
        == DataProviderRequestResult::ClientError
}

/// What a response makes of the registered requests.
pub open spec fn lcuts_after(
    m: Map<keyed_store::KeyView, u64>,
    c: authorized_request_context::ContextView,
    result: DataProviderRequestResult,
    lcut: u64,
) -> Map<keyed_store::KeyView, u64> {
    let available = result == DataProviderRequestResult::DataAvailable;
    if c.path is V2DownloadConfigSpecs && c.supports_proto && c.accept_deltas {
        let k = sdk_key_store::context_key(delta_context(c));
        if available && !m.contains_key(k) {
            m.insert(k, lcut)
        } else if drops_key(result) {
            m.remove(k)
        } else {
            m
        }
    } else if c.path is V2DownloadConfigSpecsDeltas {
        let k = sdk_key_store::context_key(c);
        if available {
            m.insert(k, lcut)
        } else if drops_key(result) {
            m.remove(k)
        } else {
            m
        }
    } else {
        m
    }
}

/// What a response makes of the registered requests and their contexts.
pub open spec fn requests_after(
    m: sdk_key_store::RegisteredRequests,
    c: authorized_request_context::ContextView,
    result: DataProviderRequestResult,
    lcut: u64,
) -> sdk_key_store::RegisteredRequests {
    let available = result == DataProviderRequestResult::DataAvailable;
    if c.path is V2DownloadConfigSpecs && c.supports_proto && c.accept_deltas {
        let k = sdk_key_store::context_key(delta_context(c));
        if available && !m.contains_key(k) {
            sdk_key_store::upserted(m, delta_context(c), lcut)
        } else if drops_key(result) {
            m.remove(k)
        } else {
            m
        }
    } else if c.path is V2DownloadConfigSpecsDeltas {
        if available {
            sdk_key_store::upserted(m, c, lcut)
        } else if drops_key(result) {
            m.remove(sdk_key_store::context_key(c))
        } else {
            m
        }
    } else {
        m
    }
}

/// What a response makes of the changes.
pub open spec fn deltas_after(
    store: DeltasStore,
    c: authorized_request_context::ContextView,
    r: ResponseContext,
    parsed: Option<ParsedDelta>,
) -> Map<keyed_store::KeyView, Seq<Arc<DeltaCacheEntry>>> {
    let m = store.deltas();
    let k = sdk_key_key(c.sdk_key);
    if c.path is V2DownloadConfigSpecs && c.supports_proto && c.accept_deltas {
        if drops_key(r.result_type) {
            m.remove(k)
        } else {
            m
        }
    } else if c.path is V2DownloadConfigSpecsDeltas {
        if r.result_type == DataProviderRequestResult::DataAvailable && parsed is Some {
            m.insert(
                k,
                with_delta(
                    store.of_key(c.sdk_key),
                    Arc::new(
                        DeltaCacheEntry {
                            since_time_requested: r.request_since_time,
                            lcut: (parsed->0).top_level.time,
                            top_level: (parsed->0).top_level,
                            envelopes: (parsed->0).envelopes,
                        },
                    ),
                    store.limit(),
                ),
            )
        } else if drops_key(r.result_type) {
            m.remove(k)
        } else {
            m
        }
    } else {
        m
    }
}

/// Whoever is served changes misses none of those kept that are as new as what
/// the client has or newer.
pub proof fn law_served_changes_are_complete(
    deltas: Seq<Arc<DeltaCacheEntry>>,
    since_time: u64,
    i: int,
)
    requires
        build_result(true, deltas, since_time) is Combined,
        0 <= i < deltas.len(),
        deltas[i].lcut >= since_time,
    ensures
        selected(deltas, since_time).contains(deltas[i]),
        since_time >= earliest_since(deltas),
{
    lemma_selected(deltas, since_time, i);
}

proof fn lemma_selected(deltas: Seq<Arc<DeltaCacheEntry>>, since_time: u64, i: int)
    requires
        0 <= i < deltas.len(),
        deltas[i].lcut >= since_time,
    ensures
        selected(deltas, since_time).contains(deltas[i]),
    decreases deltas.len(),
{
    reveal(Seq::filter);
    let f = |d: Arc<DeltaCacheEntry>| d.lcut >= since_time;
    let t = deltas.drop_last();
    let r = t.filter(f);
    if i < t.len() {
        lemma_selected(t, since_time, i);
        assert(t[i] == deltas[i]);
        let j = choose|j: int| 0 <= j < r.len() && r[j] == deltas[i];
        assert(selected(deltas, since_time)[j] == deltas[i]);
    } else {
        assert(f(deltas.last()));
        assert(selected(deltas, since_time) == r.push(deltas.last()));
        assert(r.push(deltas.last())[r.len() as int] == deltas[i]);
    }
}

proof fn lemma_earliest(deltas: Seq<Arc<DeltaCacheEntry>>)
    requires
        deltas.len() > 0,
    ensures
        forall|i: int|
            0 <= i < deltas.len() ==> earliest_since(deltas) <= (
            #[trigger] deltas[i]).since_time_requested,
        exists|i: int|
            0 <= i < deltas.len() && earliest_since(deltas) == (
            #[trigger] deltas[i]).since_time_requested,
    decreases deltas.len(),
{
    if deltas.len() == 1 {
        assert(earliest_since(deltas) == deltas[0].since_time_requested);
    } else {
        let t = deltas.drop_last();
        lemma_earliest(t);
        let i = choose|i: int|
            0 <= i < t.len() && earliest_since(t) == (#[trigger] t[i]).since_time_requested;
        assert(deltas[i] == t[i]);
        assert(deltas[deltas.len() - 1] == deltas.last());
        assert forall|i: int| 0 <= i < deltas.len() implies earliest_since(deltas) <= (
        #[trigger] deltas[i]).since_time_requested by {
            if i < t.len() {
                assert(deltas[i] == t[i]);
            }
        }
    }
}

/// What a client at `since_time` is told of the changes that are kept. It is turned
/// away where its key is not known, where there is nothing yet, and where every change
/// was asked for from a later time on than the client is at. Otherwise it is sent
/// something wherever some change is newer than what it has, and told that there is
/// nothing new only where none is. The time it is told is that of the newest change.
pub proof fn law_clients_are_sent_what_is_newer(
    registered: bool,
    deltas: Seq<Arc<DeltaCacheEntry>>,
    since_time: u64,
)
    requires
        forall|i: int, j: int|
            0 <= i <= j < deltas.len() ==> (#[trigger] deltas[i]).lcut <= (
            #[trigger] deltas[j]).lcut,
    ensures
        build_result(registered, deltas, since_time) is SdkKeyNotRegistered <==> !registered,
        build_result(registered, deltas, since_time) is NoCachedDeltas <==> registered
            && deltas.len() == 0,
        build_result(registered, deltas, since_time) is SinceTimeTooOld <==> registered
            && deltas.len() > 0 && forall|i: int|
            0 <= i < deltas.len() ==> since_time < (#[trigger] deltas[i]).since_time_requested,
        build_result(registered, deltas, since_time) is Combined <==> registered && (exists|i: int|
            0 <= i < deltas.len() && (#[trigger] deltas[i]).since_time_requested <= since_time) && (
        exists|i: int| 0 <= i < deltas.len() && (#[trigger] deltas[i]).lcut > since_time),
        build_result(registered, deltas, since_time) is NoUpdates <==> registered && (exists|i: int|
            0 <= i < deltas.len() && (#[trigger] deltas[i]).since_time_requested <= since_time)
            && forall|i: int|
            0 <= i < deltas.len() ==> (#[trigger] deltas[i]).lcut <= since_time,
        build_result(registered, deltas, since_time) matches BuildView::SinceTimeTooOld(t) ==> (
        forall|i: int|
            0 <= i < deltas.len() ==> t <= (#[trigger] deltas[i]).since_time_requested) && exists|
            i: int,
        |
            0 <= i < deltas.len() && t == (#[trigger] deltas[i]).since_time_requested,
        match build_result(registered, deltas, since_time) {
            BuildView::NoUpdates(lcut) => is_newest(deltas, lcut),
            BuildView::Combined(lcut, _) => is_newest(deltas, lcut),
            _ => true,
        },
{
    if deltas.len() > 0 {
        lemma_earliest(deltas);
        let newest = deltas[deltas.len() - 1];
        let f = |d: Arc<DeltaCacheEntry>| d.lcut >= since_time;
        if newest.lcut >= since_time {
            deltas.lemma_filter_contains(f, deltas.len() - 1);
            assert(selected(deltas, since_time).len() > 0);
        } else {
            if selected(deltas, since_time).len() > 0 {
                let d = selected(deltas, since_time)[0];
                deltas.lemma_filter_pred(f, 0);
                lemma_selected_of(deltas, f, 0);
                assert(false);
            }
        }
        assert(is_newest(deltas, newest.lcut));
    }
}

/// Whether a time is that of the newest of some changes.
pub open spec fn is_newest(deltas: Seq<Arc<DeltaCacheEntry>>, lcut: u64) -> bool {
    &&& forall|i: int| 0 <= i < deltas.len() ==> (#[trigger] deltas[i]).lcut <= lcut
    &&& exists|i: int| 0 <= i < deltas.len() && (#[trigger] deltas[i]).lcut == lcut
}

proof fn lemma_selected_of(
    deltas: Seq<Arc<DeltaCacheEntry>>,
    f: spec_fn(Arc<DeltaCacheEntry>) -> bool,
    j: int,
)
    requires
        0 <= j < deltas.filter(f).len(),
    ensures
        deltas.contains(deltas.filter(f)[j]),
    decreases deltas.len(),
{
    reveal(Seq::filter);
    let t = deltas.drop_last();
    if j < t.filter(f).len() {
        lemma_selected_of(t, f, j);
        let i = choose|i: int| 0 <= i < t.len() && t[i] == t.filter(f)[j];
        assert(deltas[i] == t.filter(f)[j]);
    } else {
        assert(deltas[deltas.len() - 1] == deltas.filter(f)[j]);
    }
}

/// The envelopes of some changes that carry specs.
proof fn lemma_contents(deltas: Seq<Arc<DeltaCacheEntry>>)
    ensures
        contents(deltas) == deltas.map_values(
            |d: Arc<DeltaCacheEntry>| d.envelopes@.filter(|e: SpecsEnvelope| e.kind is Other),
        ).flatten(),
    decreases deltas.len(),
{
    let g = |d: Arc<DeltaCacheEntry>| d.envelopes@.filter(|e: SpecsEnvelope| e.kind is Other);
    if deltas.len() > 0 {
        let t = deltas.drop_last();
        lemma_contents(t);
        assert(deltas.map_values(g) =~= t.map_values(g).push(g(deltas.last())));
        t.map_values(g).lemma_flatten_push(g(deltas.last()));
        let f = |e: SpecsEnvelope| part_of(e.kind) == EnvelopePart::Data;
        let h = |e: SpecsEnvelope| e.kind is Other;
        assert(f =~= h);
    }
}

/// What a client is sent is one payload of whole envelopes: those of the newest change
/// that open a payload, then what every change brings that is as new as what the client
/// has, from the oldest to the newest and in the order in which it came, then those of
/// the newest change that close a payload.
pub proof fn law_combined_payloads_hold_every_change(
    deltas: Seq<Arc<DeltaCacheEntry>>,
    since_time: u64,
)
    requires
        build_result(true, deltas, since_time) is Combined,
        deltas.len() > 0,
        deltas.last().lcut >= since_time,
    ensures
        ({
            let newest = deltas.last().envelopes@;
            let sent = newest.filter(
                |e: SpecsEnvelope| e.kind is CopyPrev || e.kind is TopLevel,
            ) + deltas.filter(|d: Arc<DeltaCacheEntry>| d.lcut >= since_time).map_values(
                |d: Arc<DeltaCacheEntry>| d.envelopes@.filter(|e: SpecsEnvelope| e.kind is Other),
            ).flatten() + newest.filter(
                |e: SpecsEnvelope| e.kind is Checksums || e.kind is Done,
            );
            let encoded = sent.map_values(|e: SpecsEnvelope| e.encoded@);
            &&& build_result(true, deltas, since_time)->Combined_1 == envelope_frames::framed(
                encoded,
            )
            &&& (forall|i: int| 0 <= i < sent.len() ==> (#[trigger] sent[i]).encoded@.len() <= u64::MAX)
                ==> envelope_frames::unframed(build_result(true, deltas, since_time)->Combined_1)
                == (encoded, true)
        }),
{
    let chosen = selected(deltas, since_time);
    let f = |d: Arc<DeltaCacheEntry>| d.lcut >= since_time;
    reveal(Seq::filter);
    assert(chosen.last() == deltas.last());
    lemma_contents(chosen);
    let newest = deltas.last().envelopes@;
    let head = |e: SpecsEnvelope| e.kind is CopyPrev || e.kind is TopLevel;
    let tail = |e: SpecsEnvelope| e.kind is Checksums || e.kind is Done;
    assert(head =~= |e: SpecsEnvelope| part_of(e.kind) == EnvelopePart::Head);
    assert(tail =~= |e: SpecsEnvelope| part_of(e.kind) == EnvelopePart::Tail);
    let sent = assembled(chosen);
    let encoded = sent.map_values(|e: SpecsEnvelope| e.encoded@);
    assert(encoded =~= encodings_of(sent));
    if forall|i: int| 0 <= i < sent.len() ==> (#[trigger] sent[i]).encoded@.len() <= u64::MAX {
        envelope_frames::law_frames_round_trip(encoded);
    }
}

/// Keeping one more change loses none while there is room, and only the oldest where
/// there is not: whatever is dropped is no newer than anything that is kept.
pub proof fn law_only_the_oldest_deltas_are_dropped(
    records: Seq<Arc<DeltaCacheEntry>>,
    entry: Arc<DeltaCacheEntry>,
    max: int,
)
    requires
        in_order(records),
        records.len() <= max,
        max >= 1,
    ensures
        with_delta(records, entry, max).len() == (if records.len() < max {
            records.len() as int + 1
        } else {
            max
        }),
        records.len() < max ==> with_delta(records, entry, max).to_multiset()
            == records.to_multiset().insert(entry),
        forall|i: int|
            0 <= i < with_delta(records, entry, max).len() ==> records.contains(
                #[trigger] with_delta(records, entry, max)[i],
            ) || with_delta(records, entry, max)[i] == entry,
        forall|d: Arc<DeltaCacheEntry>, i: int|
            (records.contains(d) || d == entry) && !(#[trigger] with_delta(
                records,
                entry,
                max,
            ).contains(d)) && 0 <= i < with_delta(records, entry, max).len() ==> d.lcut <= (
            #[trigger] with_delta(records, entry, max)[i]).lcut,
{
    lemma_place_of(records, entry.lcut);
    let p = place_of(records, entry.lcut);
    let all = records.insert(p, entry);
    let kept = with_delta(records, entry, max);
    law_deltas_stay_ordered_and_bounded(records, entry, max);
    if records.len() < max {
        assert(kept == all);
        vstd::seq_lib::to_multiset_insert(records, p, entry);
    }
    assert forall|i: int| 0 <= i < kept.len() implies records.contains(#[trigger] kept[i])
        || kept[i] == entry by {
        let j = i + (all.len() - kept.len());
        assert(kept[i] == all[j]);
        if j < p {
            assert(all[j] == records[j]);
        } else if j > p {
            assert(all[j] == records[j - 1]);
        }
    }
    assert forall|d: Arc<DeltaCacheEntry>, i: int|
        (records.contains(d) || d == entry) && !(#[trigger] kept.contains(d)) && 0 <= i
            < kept.len() implies d.lcut <= (#[trigger] kept[i]).lcut by {
        if all.len() <= max {
            if d == entry {
                assert(kept[p] == d);
            } else {
                let j = choose|j: int| 0 <= j < records.len() && records[j] == d;
                if j < p {
                    assert(kept[j] == d);
                } else {
                    assert(kept[j + 1] == d);
                }
            }
        } else {
            let at = if d == entry {
                p
            } else {
                let j = choose|j: int| 0 <= j < records.len() && records[j] == d;
                if j < p {
                    j
                } else {
                    j + 1
                }
            };
            assert(all[at] == d);
            if at >= 1 {
                assert(kept[at - 1] == d);
            }
            assert(at == 0);
            assert(kept[i] == all[i + 1]);
            if p == 0 {
                assert(all[i + 1] == records[i]);
            } else {
                if i + 1 < p {
                    assert(all[i + 1] == records[i + 1]);
                } else if i + 1 > p {
                    assert(all[i + 1] == records[i]);
                }
            }
        }
    }
}

/// A response with a change adds it to those of its key, with the times it came with. A
/// refusal forgets the changes of its key, and no other response changes any. The
/// changes of other keys are left alone.
pub proof fn law_responses_bring_and_drop_deltas(
    store: DeltasStore,
    c: authorized_request_context::ContextView,
    r: ResponseContext,
    parsed: Option<ParsedDelta>,
    other: Seq<char>,
)
    requires
        other != c.sdk_key,
        store.wf(),
    ensures
        ({
            let after = deltas_after(store, c, r, parsed);
            let k = (seq![c.sdk_key], Seq::<u64>::empty());
            let o = (seq![other], Seq::<u64>::empty());
            let tracked_path = c.path is V2DownloadConfigSpecsDeltas || (c.path is V2DownloadConfigSpecs
                && c.supports_proto && c.accept_deltas);
            &&& after.contains_key(o) == store.deltas().contains_key(o)
            &&& after.contains_key(o) ==> after[o] == store.deltas()[o]
            &&& tracked_path && (r.result_type is Unauthorized || r.result_type is ClientError)
                ==> !after.contains_key(k)
            &&& r.result_type is NoDataAvailable || r.result_type is Error || !tracked_path || (
            r.result_type is DataAvailable && c.path is V2DownloadConfigSpecs) || (
            r.result_type is DataAvailable && parsed is None) ==> after == store.deltas()
            &&& c.path is V2DownloadConfigSpecsDeltas && r.result_type is DataAvailable
                && parsed is Some && store.of_key(c.sdk_key).len() < store.limit() ==> exists|i: int|
                {
                    &&& after.contains_key(k)
                    &&& 0 <= i < after[k].len()
                    &&& (#[trigger] after[k][i]).lcut == (parsed->0).top_level.time
                    &&& after[k][i].since_time_requested == r.request_since_time
                    &&& after[k][i].envelopes == (parsed->0).envelopes
                    &&& after[k].len() == store.of_key(c.sdk_key).len() + 1
                }
        }),
{
    let k = sdk_key_key(c.sdk_key);
    let o = sdk_key_key(other);
    assert(k.0[0] == c.sdk_key && o.0[0] == other);
    assert(k != o);
    if c.path is V2DownloadConfigSpecsDeltas && r.result_type is DataAvailable && parsed is Some {
        let records = store.of_key(c.sdk_key);
        let entry = Arc::new(
            DeltaCacheEntry {
                since_time_requested: r.request_since_time,
                lcut: (parsed->0).top_level.time,
                top_level: (parsed->0).top_level,
                envelopes: (parsed->0).envelopes,
            },
        );
        lemma_place_of(records, entry.lcut);
        store.law_kept_deltas(c.sdk_key);
        let p = place_of(records, entry.lcut);
        if records.len() < store.limit() {
            let after = deltas_after(store, c, r, parsed);
            assert(with_delta(records, entry, store.limit())[p] == entry);
            assert(after[k][p] == entry);
        }
    }
}

/// The delta endpoint of a key is registered by the first response of the main endpoint
/// to a client that takes changes, and by every response of its own; a refusal drops it.
/// Nothing else is registered or dropped.
pub proof fn law_delta_keys_are_registered_once_known(
    m: Map<keyed_store::KeyView, u64>,
    c: authorized_request_context::ContextView,
    result: DataProviderRequestResult,
    lcut: u64,
    k: keyed_store::KeyView,
)
    ensures
        ({
            let after = lcuts_after(m, c, result, lcut);
            let own = sdk_key_store::context_key(delta_context(c));
            let at = sdk_key_store::context_key(c);
            let main = c.path is V2DownloadConfigSpecs && c.supports_proto && c.accept_deltas;
            let direct = c.path is V2DownloadConfigSpecsDeltas;
            &&& main && result is DataAvailable ==> after.contains_key(own) && after[own] == (
            if m.contains_key(own) {
                m[own]
            } else {
                lcut
            })
            &&& direct && result is DataAvailable ==> after.contains_key(at) && after[at] == lcut
            &&& main && (result is Unauthorized || result is ClientError) ==> !after.contains_key(
                own,
            )
            &&& direct && (result is Unauthorized || result is ClientError) ==> !after.contains_key(
                at,
            )
            &&& (main ==> k != own) && (direct ==> k != at) ==> after.contains_key(k)
                == m.contains_key(k) && after[k] == m[k]
            &&& result is NoDataAvailable || result is Error || (!main && !direct) ==> after == m
        }),
{
}

/// The request for the changes of a key is for the same key and takes the same, at the
/// endpoint for changes, and asks for nothing else.
pub proof fn law_delta_requests_stay_with_their_key(c: authorized_request_context::ContextView)
    ensures
        delta_context(c).sdk_key == c.sdk_key,
        delta_context(c).path is V2DownloadConfigSpecsDeltas,
        delta_context(c).supports_proto == c.supports_proto,
        delta_context(c).accept_deltas == c.accept_deltas,
        delta_context(c).use_lcut,
        delta_context(c).file_id is None && delta_context(c).raw_path is None
            && delta_context(c).raw_query is None && delta_context(c).range_start is None
            && delta_context(c).id_list_size is None,
        forall|e: CompressionEncoder|
            #[trigger] delta_context(c).encodings.contains(e) && e
                != CompressionEncoder::PlainText ==> c.encodings.contains(e),
        c.encodings.contains(CompressionEncoder::Gzip) ==> delta_context(c).encodings.contains(
            CompressionEncoder::Gzip,
        ),
        c.encodings.contains(CompressionEncoder::StatsigBrotli) ==> delta_context(
            c,
        ).encodings.contains(CompressionEncoder::StatsigBrotli),
{
    let e = delta_context(c).encodings;
    assert(e.len() >= 1);
    assert(e.contains(e[0]));
    if e.len() == 2 {
        assert(e.contains(e[1]));
    }
}

/// Payloads that are read as a list of envelopes are read whole: every frame gives one
/// envelope, in order. A payload whose first frame is no envelope may be one envelope
/// itself, and any other damage refuses it.
pub proof fn law_envelopes_are_read_whole(
    decoded: Seq<Option<SpecsEnvelope>>,
    clean: bool,
    whole: Option<SpecsEnvelope>,
)
    ensures
        clean && (forall|i: int| 0 <= i < decoded.len() ==> (#[trigger] decoded[i]) is Some)
            ==> envelopes_of(decoded, clean, whole) is Some,
        match envelopes_of(decoded, clean, whole) {
            Some(v) => {
                ||| clean && v.len() == decoded.len() && forall|i: int|
                    0 <= i < v.len() ==> decoded[i] == Some(#[trigger] v[i])
                ||| v.len() == 1 && whole == Some(v[0])
            },
            None => true,
        },
        envelopes_of(decoded, clean, whole) is None ==> !clean || exists|i: int|
            0 <= i < decoded.len() && (#[trigger] decoded[i]) is None,
        decoded.len() > 0 && decoded[0] is Some && !clean ==> envelopes_of(decoded, clean, whole)
            is None,
        (decoded.len() == 0 || decoded[0] is None) && !clean ==> (envelopes_of(
            decoded,
            clean,
            whole,
        ) is Some <==> whole is Some),
{
}

/// The time and company of a payload are read from its first top-level envelope.
pub proof fn law_top_level_is_the_first(envelopes: Seq<SpecsEnvelope>, i: int)
    requires
        0 <= i < envelopes.len(),
        envelopes[i].kind is TopLevel,
        forall|j: int| 0 <= j < i ==> !((#[trigger] envelopes[j]).kind is TopLevel),
    ensures
        top_level_bytes(envelopes) == (match envelopes[i].data {
            Some(d) => Some(d@),
            None => None,
        }),
    decreases i,
{
    if i > 0 {
        assert(!(envelopes[0].kind is TopLevel));
        let t = envelopes.drop_first();
        assert(t[i - 1] == envelopes[i]);
        assert forall|j: int| 0 <= j < i - 1 implies !((#[trigger] t[j]).kind is TopLevel) by {
            assert(t[j] == envelopes[j + 1]);
        }
        law_top_level_is_the_first(t, i - 1);
        assert(first_top_level(envelopes) == 1 + first_top_level(t));
        lemma_first_top_level(t);
        assert(envelopes[first_top_level(envelopes)] == t[first_top_level(t)] || first_top_level(t)
            >= t.len());
    }
}

proof fn lemma_first_top_level(envelopes: Seq<SpecsEnvelope>)
    ensures
        0 <= first_top_level(envelopes) <= envelopes.len(),
    decreases envelopes.len(),
{
    if envelopes.len() > 0 && !(envelopes[0].kind is TopLevel) {
        lemma_first_top_level(envelopes.drop_first());
    }
}

/// Binary payloads are read in every encoding that payloads are sent in, and no other
/// payloads are.
pub proof fn law_deltas_are_read_as_they_are_sent(p: http_data_provider::PayloadView)
    ensures
        p.use_proto ==> delta_bytes(p) == response_compression::decompressed(p.data, p.encoding),
        !p.use_proto ==> delta_bytes(p) is None,
        p.use_proto && p.encoding is PlainText ==> delta_bytes(p) == Some(p.data),
{
}

} // verus!
