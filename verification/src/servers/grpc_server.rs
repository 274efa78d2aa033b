//! Config specs over gRPC, once or as a stream of updates.

use crate::datastore::config_spec_store::ServedConfigSpec;
use crate::datastore::data_providers::http_data_provider::ResponsePayload;
use crate::keyed_store;
use crate::observers;
use crate::observers::{EventStat, OperationType, ProxyEvent, ProxyEventType};
use crate::servers::authorized_request_context;
use crate::servers::authorized_request_context::{
    AuthorizedRequestContext, AuthorizedRequestContextCache,
};
use crate::servers::normalized_path;
use crate::servers::normalized_path::NormalizedPath;
use crate::text;
use crate::utils::compress_encoder::CompressionEncoder;
use std::sync::Arc;
use vstd::prelude::*;
use vstd::utf8::*;

verus! {

/// The spec of an answer without news.
pub open spec fn no_update_json() -> Seq<u8> {
    encode_utf8("{\"has_updates\":false}"@)
}

/// The endpoint version that a request names: the first one where it names none.
pub open spec fn api_version(version: Option<i32>) -> int {
    match version {
        Some(v) => if v == 0 {
            1
        } else {
            v as int
        },
        None => 1,
    }
}

/// The endpoint that a version stands for.
pub open spec fn versioned_path(version: Option<i32>) -> normalized_path::PathView {
    let v = api_version(version);
    if v == 1 {
        normalized_path::PathView::V1DownloadConfigSpecs
    } else if v == 2 {
        normalized_path::PathView::V2DownloadConfigSpecs
    } else {
        normalized_path::PathView::RawPath(
            "/v"@ + text::signed_decimal(v) + "/download_config_specs/"@,
        )
    }
}

pub fn get_normalized_path_from_request(version: Option<i32>) -> (r: NormalizedPath)
    ensures
        r@ == versioned_path(version),
{
    let v: i32 = match version {
        Some(v) => if v == 0 {
            1
        } else {
            v
        },
        None => 1,
    };
    if v == 1 {
        NormalizedPath::V1DownloadConfigSpecs
    } else if v == 2 {
        NormalizedPath::V2DownloadConfigSpecs
    } else {
        let mut path = "/v".to_owned();
        text::push_signed_decimal(&mut path, v as i64);
        path.append("/download_config_specs/");
        NormalizedPath::RawPath(path)
    }
}

/// One message to a client.
#[derive(Debug)]
pub struct ConfigSpecReply {
    /// The bytes of the specs, as they came.
    pub spec: Vec<u8>,
    pub last_updated: u64,
}

/// The model of a message.
pub struct ReplyView {
    pub spec: Seq<u8>,
    pub last_updated: u64,
}

impl View for ConfigSpecReply {
    type V = ReplyView;

    open spec fn view(&self) -> ReplyView {
        ReplyView { spec: self.spec@, last_updated: self.last_updated }
    }
}

/// The message with a payload.
pub open spec fn payload_reply(data: Seq<u8>, lcut: u64) -> ReplyView {
    ReplyView { spec: data, last_updated: lcut }
}

pub fn reply_with(payload: &ResponsePayload, lcut: u64) -> (r: ConfigSpecReply)
    ensures
        r@ == payload_reply(payload.data@, lcut),
{
    ConfigSpecReply { spec: payload.data.clone(), last_updated: lcut }
}

/// The message that there is nothing new.
fn no_update_reply(lcut: u64) -> (r: ConfigSpecReply)
    ensures
        r@ == (ReplyView { spec: no_update_json(), last_updated: lcut }),
{
    ConfigSpecReply { spec: "{\"has_updates\":false}".as_bytes_vec(), last_updated: lcut }
}

/// Why a request is refused.
#[derive(Clone, Copy, Debug, PartialEq, Eq, Structural)]
pub enum GrpcRefusal {
    /// The key is not known.
    PermissionDenied,
    /// There are too many streams.
    ResourceExhausted,
}

impl GrpcRefusal {
    pub fn message(self) -> (r: &'static str)
        ensures
            r@ == (match self {
                GrpcRefusal::PermissionDenied => "Unauthorized"@,
                GrpcRefusal::ResourceExhausted => "Max concurrent streams reached"@,
            }),
    {
        match self {
            GrpcRefusal::PermissionDenied => "Unauthorized",
            GrpcRefusal::ResourceExhausted => "Max concurrent streams reached",
        }
    }
}

/// The answer to a request for specs.
pub open spec fn spec_answer(served: Option<ServedConfigSpec>) -> Result<ReplyView, GrpcRefusal> {
    match served {
        None => Err(GrpcRefusal::PermissionDenied),
        Some(s) => if !s.has_updates {
            Ok(ReplyView { spec: no_update_json(), last_updated: s.spec.lcut })
        } else {
            Ok(payload_reply(s.spec.config.data@, s.spec.lcut))
        },
    }
}

pub open spec fn answer_view(r: Result<ConfigSpecReply, GrpcRefusal>) -> Result<
    ReplyView,
    GrpcRefusal,
> {
    match r {
        Ok(reply) => Ok(reply@),
        Err(e) => Err(e),
    }
}

/// Answers a request for specs with what the store serves for it.
pub fn get_config_spec(served: &Option<ServedConfigSpec>) -> (r: Result<
    ConfigSpecReply,
    GrpcRefusal,
>)
    ensures
        answer_view(r) == spec_answer(*served),
        r is Ok <==> served is Some,
        r matches Ok(reply) ==> reply.last_updated == (served->0).spec.lcut && ((
        served->0).has_updates ==> reply.spec@ == (served->0).spec.config.data@),
{
    match served {
        None => Err(GrpcRefusal::PermissionDenied),
        Some(s) => {
            if !s.has_updates {
                return Ok(no_update_reply(s.spec.lcut));
            }
            Ok(reply_with(&s.spec.config, s.spec.lcut))
        },
    }
}

/// The context of a request over gRPC, which takes plain text only.
pub open spec fn grpc_context(
    sdk_key: Seq<char>,
    version: Option<i32>,
) -> authorized_request_context::ContextView {
    authorized_request_context::cached_context(
        sdk_key,
        versioned_path(version),
        seq![CompressionEncoder::PlainText],
        false,
        false,
        None,
    )
}

pub fn request_context(
    cache: &mut AuthorizedRequestContextCache,
    sdk_key: &str,
    version: Option<i32>,
) -> (r: Arc<AuthorizedRequestContext>)
    requires
        old(cache).wf(),
    ensures
        final(cache).wf(),
        r@ == grpc_context(sdk_key@, version),
        final(cache).shared() == authorized_request_context::shared_after(old(cache).shared(), r),
        final(cache).shared()[authorized_request_context::identity_key(r@.identity())] == r,
{
    let mut encodings: Vec<CompressionEncoder> = Vec::new();
    encodings.push(CompressionEncoder::PlainText);
    assert(encodings@ =~= seq![CompressionEncoder::PlainText]);
    cache.get_or_insert(
        sdk_key.to_owned(),
        get_normalized_path_from_request(version),
        encodings,
        false,
        false,
        None,
    )
}

/// Where a stream stands.
#[derive(Clone, Copy, Debug, PartialEq, Eq, Structural)]
pub enum StreamPhase {
    /// The first message is on its way.
    Starting,
    /// Waits for an update.
    Listening,
    /// An update is on its way.
    SendingUpdate,
    /// A sign of life is on its way.
    SendingHealthcheck,
    Closed,
}

/// One stream of updates.
pub struct StreamSession {
    context: Arc<AuthorizedRequestContext>,
    latest_lcut: u64,
    phase: StreamPhase,
}

/// The model of a stream.
pub struct SessionView {
    pub context: authorized_request_context::ContextView,
    pub latest_lcut: u64,
    pub phase: StreamPhase,
}

impl View for StreamSession {
    type V = SessionView;

    closed spec fn view(&self) -> SessionView {
        SessionView {
            context: self.context@,
            latest_lcut: self.latest_lcut,
            phase: self.phase,
        }
    }
}

/// What happened to a stream.
pub enum StreamEvent {
    /// A message went out, or could not.
    Sent { delivered: bool },
    /// There is an update.
    Update { payload: Arc<ResponsePayload>, lcut: u64 },
    /// The server shuts down.
    Shutdown,
    /// The channel has failed, or has run ahead.
    ChannelFailed,
    /// Nothing came for the time of a sign of life.
    TimedOut,
}

/// What a stream does next.
#[derive(Debug)]
pub struct StreamStep {
    /// The event to publish first.
    pub publish: Option<ProxyEvent>,
    /// By how much the count of streams changes.
    pub count: i32,
    pub action: StreamAction,
}

#[derive(Debug)]
pub enum StreamAction {
    Send(ConfigSpecReply),
    Listen,
    Resubscribe,
    Close,
}

/// The model of what a stream does next.
pub struct StepView {
    pub publish: Option<observers::EventView>,
    pub count: int,
    pub action: StreamActionView,
}

pub enum StreamActionView {
    Send(ReplyView),
    Listen,
    Resubscribe,
    Close,
}

impl View for StreamStep {
    type V = StepView;

    open spec fn view(&self) -> StepView {
        StepView {
            publish: match self.publish {
                Some(e) => Some(e@),
                None => None,
            },
            count: self.count as int,
            action: match self.action {
                StreamAction::Send(r) => StreamActionView::Send(r@),
                StreamAction::Listen => StreamActionView::Listen,
                StreamAction::Resubscribe => StreamActionView::Resubscribe,
                StreamAction::Close => StreamActionView::Close,
            },
        }
    }
}

/// An event of a stream.
pub open spec fn stream_event(s: SessionView, t: ProxyEventType) -> Option<observers::EventView> {
    Some(observers::counted_event(t, s.context, None))
}

/// The end of a stream: it is no longer counted.
pub open spec fn closed_step(s: SessionView) -> (SessionView, StepView) {
    (
        SessionView { phase: StreamPhase::Closed, ..s },
        StepView {
            publish: stream_event(s, ProxyEventType::GrpcStreamingStreamDisconnected),
            count: -1,
            action: StreamActionView::Close,
        },
    )
}

/// Back to waiting, with an event.
pub open spec fn listening_step(s: SessionView, t: ProxyEventType, count: int) -> (
    SessionView,
    StepView,
) {
    (
        SessionView { phase: StreamPhase::Listening, ..s },
        StepView { publish: stream_event(s, t), count, action: StreamActionView::Listen },
    )
}

/// Nothing to do but to wait on.
pub open spec fn idle_step(s: SessionView) -> (SessionView, StepView) {
    (s, StepView { publish: None, count: 0, action: StreamActionView::Listen })
}

/// What a stream does when something happens.
pub open spec fn stream_step(s: SessionView, e: StreamEvent) -> (SessionView, StepView) {
    match s.phase {
        // The first message counts even where the client is gone already: the
        // stream is counted, and the next message shows it.
        StreamPhase::Starting => match e {
            StreamEvent::Sent { delivered } => listening_step(
                s,
                ProxyEventType::GrpcStreamingStreamedInitialized,
                1,
            ),
            _ => idle_step(s),
        },
        StreamPhase::Listening => match e {
            StreamEvent::Update { payload, lcut } => (
                SessionView { latest_lcut: lcut, phase: StreamPhase::SendingUpdate, ..s },
                StepView {
                    publish: None,
                    count: 0,
                    action: StreamActionView::Send(payload_reply(payload.data@, lcut)),
                },
            ),
            StreamEvent::Shutdown => closed_step(s),
            StreamEvent::ChannelFailed => (
                s,
                StepView { publish: None, count: 0, action: StreamActionView::Resubscribe },
            ),
            StreamEvent::TimedOut => (
                SessionView { phase: StreamPhase::SendingHealthcheck, ..s },
                StepView {
                    publish: None,
                    count: 0,
                    action: StreamActionView::Send(
                        ReplyView { spec: no_update_json(), last_updated: s.latest_lcut },
                    ),
                },
            ),
            StreamEvent::Sent { delivered } => idle_step(s),
        },
        StreamPhase::SendingUpdate => match e {
            StreamEvent::Sent { delivered } => if delivered {
                listening_step(s, ProxyEventType::GrpcStreamingStreamedResponse, 0)
            } else {
                closed_step(s)
            },
            _ => idle_step(s),
        },
        StreamPhase::SendingHealthcheck => match e {
            StreamEvent::Sent { delivered } => if delivered {
                listening_step(s, ProxyEventType::GrpcStreamingHealthcheckSent, 0)
            } else {
                closed_step(s)
            },
            _ => idle_step(s),
        },
        StreamPhase::Closed => (
            s,
            StepView { publish: None, count: 0, action: StreamActionView::Close },
        ),
    }
}

/// How a stream opens, or is refused.
pub enum StreamOpening {
    /// The stream starts with a message.
    Opened(StreamSession, ConfigSpecReply),
    /// The stream is refused, with an event where its key is not known.
    Refused(GrpcRefusal, Option<ProxyEvent>),
}

impl StreamSession {
    /// Whether there is room for another stream.
    pub fn admits(active_streams: usize, max_concurrent_streams: usize) -> (r: bool)
        ensures
            r == (active_streams < max_concurrent_streams),
    {
        active_streams < max_concurrent_streams
    }

    /// Opens a stream with the answer to its first request.
    pub fn open(
        context: &Arc<AuthorizedRequestContext>,
        active_streams: usize,
        max_concurrent_streams: usize,
        served: &Option<ServedConfigSpec>,
    ) -> (r: StreamOpening)
        ensures
            r is Opened <==> active_streams < max_concurrent_streams && served is Some,
            r matches StreamOpening::Opened(session, first) ==> first@.last_updated == (
            served->0).spec.lcut && session@.latest_lcut == (served->0).spec.lcut
                && session@.context == context@ && session@.phase == StreamPhase::Starting,
            if active_streams >= max_concurrent_streams {
                &&& r matches StreamOpening::Refused(e, event)
                &&& e == GrpcRefusal::ResourceExhausted
                &&& event is None
            } else {
                match spec_answer(*served) {
                    Ok(reply) => {
                        &&& r matches StreamOpening::Opened(session, first)
                        &&& first@ == reply
                        &&& session@ == (SessionView {
                            context: context@,
                            latest_lcut: reply.last_updated,
                            phase: StreamPhase::Starting,
                        })
                    },
                    Err(e) => {
                        &&& r matches StreamOpening::Refused(f, Some(event))
                        &&& f == e
                        &&& event@ == observers::counted_event(
                            ProxyEventType::GrpcStreamingStreamUnauthorized,
                            context@,
                            None,
                        )
                    },
                }
            },
    {
        if !Self::admits(active_streams, max_concurrent_streams) {
            return StreamOpening::Refused(GrpcRefusal::ResourceExhausted, None);
        }
        match get_config_spec(served) {
            Ok(reply) => {
                let session = StreamSession {
                    context: keyed_store::share(context),
                    latest_lcut: reply.last_updated,
                    phase: StreamPhase::Starting,
                };
                StreamOpening::Opened(session, reply)
            },
            Err(e) => StreamOpening::Refused(
                e,
                Some(
                    ProxyEvent::counted(
                        ProxyEventType::GrpcStreamingStreamUnauthorized,
                        context,
                        None,
                    ),
                ),
            ),
        }
    }

    fn close(&mut self) -> (r: StreamStep)
        ensures
            (final(self)@, r@) == closed_step(old(self)@),
    {
        self.phase = StreamPhase::Closed;
        StreamStep {
            publish: Some(
                ProxyEvent::counted(
                    ProxyEventType::GrpcStreamingStreamDisconnected,
                    &self.context,
                    None,
                ),
            ),
            count: -1,
            action: StreamAction::Close,
        }
    }

    fn listen(&mut self, event_type: ProxyEventType, count: i32) -> (r: StreamStep)
        ensures
            (final(self)@, r@) == listening_step(old(self)@, event_type, count as int),
    {
        self.phase = StreamPhase::Listening;
        StreamStep {
            publish: Some(ProxyEvent::counted(event_type, &self.context, None)),
            count,
            action: StreamAction::Listen,
        }
    }

    /// Takes what happened to the stream.
    pub fn step(&mut self, event: StreamEvent) -> (r: StreamStep)
        ensures
            (final(self)@, r@) == stream_step(old(self)@, event),
    {
        match self.phase {
            StreamPhase::Starting => match event {
                StreamEvent::Sent { delivered } => self.listen(
                    ProxyEventType::GrpcStreamingStreamedInitialized,
                    1,
                ),
                _ => StreamStep { publish: None, count: 0, action: StreamAction::Listen },
            },
            StreamPhase::Listening => match event {
                StreamEvent::Update { payload, lcut } => {
                    self.latest_lcut = lcut;
                    self.phase = StreamPhase::SendingUpdate;
                    let reply = reply_with(&payload, lcut);
                    StreamStep { publish: None, count: 0, action: StreamAction::Send(reply) }
                },
                StreamEvent::Shutdown => self.close(),
                StreamEvent::ChannelFailed => StreamStep {
                    publish: None,
                    count: 0,
                    action: StreamAction::Resubscribe,
                },
                StreamEvent::TimedOut => {
                    self.phase = StreamPhase::SendingHealthcheck;
                    let reply = no_update_reply(self.latest_lcut);
                    StreamStep { publish: None, count: 0, action: StreamAction::Send(reply) }
                },
                StreamEvent::Sent { delivered } => StreamStep {
                    publish: None,
                    count: 0,
                    action: StreamAction::Listen,
                },
            },
            StreamPhase::SendingUpdate => match event {
                StreamEvent::Sent { delivered } => if delivered {
                    self.listen(ProxyEventType::GrpcStreamingStreamedResponse, 0)
                } else {
                    self.close()
                },
                _ => StreamStep { publish: None, count: 0, action: StreamAction::Listen },
            },
            StreamPhase::SendingHealthcheck => match event {
                StreamEvent::Sent { delivered } => if delivered {
                    self.listen(ProxyEventType::GrpcStreamingHealthcheckSent, 0)
                } else {
                    self.close()
                },
                _ => StreamStep { publish: None, count: 0, action: StreamAction::Listen },
            },
            StreamPhase::Closed => StreamStep {
                publish: None,
                count: 0,
                action: StreamAction::Close,
            },
        }
    }
}

/// Whether a stream in this phase is counted.
pub open spec fn is_counted(phase: StreamPhase) -> bool {
    phase != StreamPhase::Starting && phase != StreamPhase::Closed
}

/// A stream is counted from its first message to its end: every step changes the
/// count by as much as the stream changes.
pub proof fn law_streams_are_counted_once(s: SessionView, e: StreamEvent)
    ensures
        stream_step(s, e).1.count == (if is_counted(stream_step(s, e).0.phase) {
            1int
        } else {
            0
        }) - (if is_counted(s.phase) {
            1int
        } else {
            0
        }),
{
}

/// A sign of life repeats the time of the last update that was sent.
pub proof fn law_signs_of_life_repeat_the_last_update(s: SessionView)
    requires
        s.phase == StreamPhase::Listening,
    ensures
        stream_step(s, StreamEvent::TimedOut).1.action == StreamActionView::Send(
            ReplyView { spec: no_update_json(), last_updated: s.latest_lcut },
        ),
{
}

/// A stream that has closed stays closed and silent.
pub proof fn law_closed_streams_stay_closed(s: SessionView, e: StreamEvent)
    requires
        s.phase == StreamPhase::Closed,
    ensures
        stream_step(s, e).0 == s,
        stream_step(s, e).1.publish is None,
        stream_step(s, e).1.action is Close,
{
}

/// Tells whether the server takes more streams.
pub struct HealthService {
    max_concurrent_streams: usize,
    grpc_ready_endpoint_percentage_of_total_streams_threshold: usize,
}

impl HealthService {
    pub closed spec fn max_streams(&self) -> usize {
        self.max_concurrent_streams
    }

    pub closed spec fn threshold(&self) -> usize {
        self.grpc_ready_endpoint_percentage_of_total_streams_threshold
    }

    pub fn new(
        max_concurrent_streams: u32,
        grpc_ready_endpoint_percentage_of_total_streams_threshold: usize,
    ) -> (r: Self)
        ensures
            r.max_streams() == max_concurrent_streams,
            r.threshold() == grpc_ready_endpoint_percentage_of_total_streams_threshold,
    {
        HealthService {
            max_concurrent_streams: max_concurrent_streams as usize,
            grpc_ready_endpoint_percentage_of_total_streams_threshold,
        }
    }

    /// Whether the server is serving: its streams are not above the given
    /// percentage of what it takes.
    pub fn check(&self, active_connections: usize) -> (r: bool)
        requires
            self.max_streams() > 0,
            active_connections * 100 <= usize::MAX,
        ensures
            r == ((active_connections * 100) / self.max_streams() as int <= self.threshold()),
            r == is_ready(
                active_connections as int,
                self.max_streams() as int,
                self.threshold() as int,
            ),
    {
        (active_connections * 100) / self.max_concurrent_streams
            <= self.grpc_ready_endpoint_percentage_of_total_streams_threshold
    }
}

/// The event with the number of streams.
pub fn active_streams_event(active: i64) -> (r: ProxyEvent)
    ensures
        r@ == (observers::EventView {
            stat: Some(EventStat { operation_type: OperationType::Gauge, value: active }),
            ..observers::bare_event(ProxyEventType::GrpcEstimatedActiveStreams, None)
        }),
{
    ProxyEvent::new(ProxyEventType::GrpcEstimatedActiveStreams).with_stat(
        EventStat { operation_type: OperationType::Gauge, value: active },
    )
}

/// Which listeners there are.
#[derive(Clone, Copy, Debug, PartialEq, Eq, Structural)]
pub enum Listeners {
    Http,
    Https,
    Both,
}

/// The gRPC server.
pub struct GrpcServer {}

impl GrpcServer {
    /// Without both a certificate and its key there is no encrypted listener;
    /// with them the plain one stays, unless encryption is enforced.
    pub fn listeners(has_cert: bool, has_key: bool, enforce_tls: bool) -> (r: Listeners)
        ensures
            r == (if !(has_cert && has_key) {
                Listeners::Http
            } else if enforce_tls {
                Listeners::Https
            } else {
                Listeners::Both
            }),
            (r is Http || r is Both) <==> !(has_cert && has_key && enforce_tls),
            (r is Https || r is Both) <==> has_cert && has_key,
    {
        if !(has_cert && has_key) {
            Listeners::Http
        } else if enforce_tls {
            Listeners::Https
        } else {
            Listeners::Both
        }
    }
}

/// A request for specs is refused, and as one that may not have them, exactly where nothing
/// is served for it. What is served is told with the time of its last change. It is sent as
/// it is stored where it is news, and in its place goes the word that there is none.
pub proof fn law_only_unknown_keys_are_refused(served: Option<ServedConfigSpec>)
    ensures
        spec_answer(served) == Err::<ReplyView, GrpcRefusal>(GrpcRefusal::PermissionDenied)
            <==> served is None,
        spec_answer(served) is Err <==> served is None,
        served matches Some(s) ==> {
            &&& spec_answer(served) matches Ok(reply)
            &&& reply.last_updated == s.spec.lcut
            &&& s.has_updates ==> reply.spec == s.spec.config.data@
            &&& !s.has_updates ==> reply.spec == encode_utf8("{\"has_updates\":false}"@)
        },
{
}

/// An update that comes while a stream listens is sent with its own bytes and time, and the
/// stream tells that time from then on, once the update is delivered, until the next one.
pub proof fn law_updates_are_passed_on(
    s: SessionView,
    payload: ResponsePayload,
    lcut: u64,
    delivered: bool,
)
    requires
        s.phase == StreamPhase::Listening,
    ensures
        ({
            let (sending, step) = stream_step(
                s,
                StreamEvent::Update { payload: Arc::new(payload), lcut },
            );
            let (after, told) = stream_step(sending, StreamEvent::Sent { delivered });
            &&& step.action matches StreamActionView::Send(reply)
            &&& reply.spec == payload.data@
            &&& reply.last_updated == lcut
            &&& step.publish is None
            &&& delivered ==> {
                &&& after == (SessionView { latest_lcut: lcut, ..s })
                &&& told.action is Listen
                &&& told.publish matches Some(e)
                &&& e.event_type == ProxyEventType::GrpcStreamingStreamedResponse
                &&& e.context == Some(s.context)
                &&& stream_step(after, StreamEvent::TimedOut).1.action matches
                    StreamActionView::Send(sign)
                &&& sign.last_updated == lcut
                &&& sign.spec == encode_utf8("{\"has_updates\":false}"@)
            }
            &&& !delivered ==> {
                &&& after.phase == StreamPhase::Closed
                &&& told.action is Close
                &&& told.publish matches Some(e)
                &&& e.event_type == ProxyEventType::GrpcStreamingStreamDisconnected
                &&& e.context == Some(s.context)
            }
        }),
{
}

/// A stream never serves another context, tells another time only where an update came,
/// and is told to end exactly where it is closed.
pub proof fn law_streams_stay_with_their_context(s: SessionView, e: StreamEvent)
    ensures
        stream_step(s, e).0.context == s.context,
        stream_step(s, e).0.latest_lcut != s.latest_lcut ==> e is Update && s.phase
            == StreamPhase::Listening,
        stream_step(s, e).1.action is Close <==> stream_step(s, e).0.phase == StreamPhase::Closed,
        stream_step(s, e).0.phase == StreamPhase::Closed && s.phase != StreamPhase::Closed <==> (
        s.phase == StreamPhase::Listening && e is Shutdown) || ((s.phase
            == StreamPhase::SendingUpdate || s.phase == StreamPhase::SendingHealthcheck) && (
        e matches StreamEvent::Sent { delivered } && !delivered)),
        stream_step(s, e).1.action is Resubscribe <==> s.phase == StreamPhase::Listening
            && e is ChannelFailed,
        stream_step(s, e).1.publish matches Some(event) ==> event.context == Some(s.context)
            && event.stat == Some(
            EventStat { operation_type: OperationType::IncrByValue, value: 1 },
        ),
        s.phase == StreamPhase::Starting && e is Sent ==> stream_step(s, e).0.phase
            == StreamPhase::Listening,
        s.phase == StreamPhase::SendingHealthcheck && (e matches StreamEvent::Sent { delivered }
            && delivered) ==> stream_step(s, e).0.phase == StreamPhase::Listening,
{
}

/// A request that names no version, or the zeroth, is one for the first. Different versions
/// have different paths.
pub proof fn law_versions_have_their_own_paths(a: i32, b: i32)
    ensures
        versioned_path(None) == normalized_path::PathView::V1DownloadConfigSpecs,
        versioned_path(Some(0)) == versioned_path(None),
        versioned_path(Some(1)) == versioned_path(None),
        versioned_path(Some(2)) == normalized_path::PathView::V2DownloadConfigSpecs,
        a != 0 && b != 0 && versioned_path(Some(a)) == versioned_path(Some(b)) ==> a == b,
{
    if a != 0 && b != 0 && versioned_path(Some(a)) == versioned_path(Some(b)) && (a > 2 || a < 0) {
        let x = text::signed_decimal(a as int);
        let y = text::signed_decimal(b as int);
        let end = "/download_config_specs/"@;
        let p = "/v"@ + x + end;
        let q = "/v"@ + y + end;
        reveal_strlit("/v");
        assert(p == q);
        assert(p.len() == 2 + x.len() + end.len() && q.len() == 2 + y.len() + end.len());
        assert(x =~= p.subrange(2, 2 + x.len() as int));
        assert(y =~= q.subrange(2, 2 + y.len() as int));
        text::law_signed_numbers_are_told_apart(a as int, b as int);
    }
}

/// The proxy is ready for more streams while they are few, and stays ready where they
/// become fewer. It is ready exactly while the whole percents in use are not above the
/// threshold.
pub proof fn law_fewer_streams_are_as_ready(active: int, fewer: int, max: int, threshold: int)
    requires
        max > 0,
        0 <= fewer <= active,
        0 <= threshold,
    ensures
        is_ready(0, max, threshold),
        is_ready(active, max, threshold) ==> is_ready(fewer, max, threshold),
        is_ready(active, max, threshold) <==> active * 100 < (threshold + 1) * max,
{
    let q = (active * 100) / max;
    vstd::arithmetic::div_mod::lemma_fundamental_div_mod(active * 100, max);
    assert(is_ready(active, max, threshold) <==> active * 100 < (threshold + 1) * max) by (
    nonlinear_arith)
        requires
            max > 0,
            q == (active * 100) / max,
            active * 100 == max * q + (active * 100) % max,
            0 <= (active * 100) % max < max,
            is_ready(active, max, threshold) == (q <= threshold),
    ;
    vstd::arithmetic::div_mod::lemma_div_is_ordered(fewer * 100, active * 100, max);
    vstd::arithmetic::div_mod::lemma_div_basics(max);
}

/// Whether the share of streams in use, in whole percents, is within the threshold.
pub open spec fn is_ready(active: int, max: int, threshold: int) -> bool {
    (active * 100) / max <= threshold
}

/// A stream is for the version that it names, takes plain text and neither protobuf nor
/// deltas.
pub proof fn law_streams_take_plain_text(sdk_key: Seq<char>, version: Option<i32>)
    ensures
        ({
            let c = grpc_context(sdk_key, version);
            &&& c.sdk_key == sdk_key
            &&& c.path == versioned_path(version)
            &&& c.encodings == seq![CompressionEncoder::PlainText]
            &&& !c.supports_proto
            &&& !c.accept_deltas
            &&& c.file_id is None
        }),
{
    let s = seq![CompressionEncoder::PlainText];
    authorized_request_context::law_canonical_encodings_keep_what_counts(s);
    let c = authorized_request_context::canonical(s);
    assert(!s.contains(CompressionEncoder::StatsigBrotli));
    assert(!s.contains(CompressionEncoder::Gzip));
    if c.len() == 2 {
        assert(c.contains(c[1]));
        assert(c.contains(c[0]));
    }
    assert(c.contains(c[0]));
    assert(c =~= s);
}

} // verus!
