use statsig_forward_proxy::datastore::config_spec_store::{
    ConfigSpecForCompany, ServedConfigSpec,
};
use statsig_forward_proxy::datastore::data_providers::http_data_provider::{
    AttemptOutcome, AttemptStep, BodyStep, HttpDataProvider, ResponseHead, ResponsePayload,
};
use statsig_forward_proxy::datastore::data_providers::{
    DataProviderRequestResult, FullRequestContext, ResponseContext,
};
use statsig_forward_proxy::datastore::envelope_frames::{split_frames, write_frame, write_varint};
use statsig_forward_proxy::observers::ProxyEventType;
use statsig_forward_proxy::servers::authorized_request_context::{
    AuthorizedRequestContext, AuthorizedRequestContextCache,
};
use statsig_forward_proxy::servers::grpc_server::{
    active_streams_event, get_config_spec, get_normalized_path_from_request, request_context,
    GrpcRefusal, GrpcServer, HealthService, Listeners, StreamAction, StreamEvent, StreamOpening,
    StreamSession,
};
use statsig_forward_proxy::servers::normalized_path::NormalizedPath;
use statsig_forward_proxy::servers::streaming_channel::StreamingChannel;
use statsig_forward_proxy::utils::compress_encoder::CompressionEncoder;
use std::io::Write;
use std::sync::Arc;

fn context() -> Arc<AuthorizedRequestContext> {
    Arc::new(AuthorizedRequestContext::new(
        "secret-key".to_string(),
        NormalizedPath::V1DownloadConfigSpecs,
        vec![],
    ))
}

fn payload(data: &[u8]) -> Arc<ResponsePayload> {
    Arc::new(ResponsePayload {
        encoding: CompressionEncoder::PlainText,
        use_proto: false,
        data: data.to_vec(),
    })
}

fn served(lcut: u64, data: &[u8]) -> Option<ServedConfigSpec> {
    Some(ServedConfigSpec {
        spec: Arc::new(ConfigSpecForCompany {
            lcut,
            config: payload(data),
        }),
        has_updates: true,
    })
}

#[test]
fn frames_are_read_as_they_were_written() {
    let mut out = Vec::new();
    write_frame(&mut out, &b"abc".to_vec());
    write_frame(&mut out, &vec![7; 300]);
    let (frames, clean) = split_frames(&out);
    assert!(clean);
    assert_eq!(frames, vec![b"abc".to_vec(), vec![7; 300]]);
    let (_, clean) = split_frames(&out[..5]);
    assert!(!clean);
    let mut varint = Vec::new();
    write_varint(&mut varint, 300);
    assert_eq!(varint, vec![0xac, 0x02]);
}

#[test]
fn specs_are_served_as_they_came_or_refused() {
    let reply = get_config_spec(&served(5, b"{}")).expect("specs");
    assert_eq!((reply.spec.as_slice(), reply.last_updated), (&b"{}"[..], 5));
    assert_eq!(
        get_config_spec(&None).err(),
        Some(GrpcRefusal::PermissionDenied)
    );
    let reply = get_config_spec(&served(5, &[0xff])).expect("specs");
    assert_eq!(reply.spec, vec![0xff]);
    assert_eq!(
        get_normalized_path_from_request(Some(2)),
        NormalizedPath::V2DownloadConfigSpecs
    );
    assert_eq!(
        get_normalized_path_from_request(None),
        NormalizedPath::V1DownloadConfigSpecs
    );
    let mut cache = AuthorizedRequestContextCache::new();
    let rc = request_context(&mut cache, "secret-key", Some(2));
    assert_eq!(rc.sdk_key, "secret-key");
}

#[test]
fn streams_go_from_message_to_message() {
    let (mut session, first) = match StreamSession::open(&context(), 0, 10, &served(5, b"one")) {
        StreamOpening::Opened(session, reply) => (session, reply),
        StreamOpening::Refused(refusal, _) => panic!("{refusal:?}"),
    };
    assert_eq!(first.spec, b"one".to_vec());
    let step = session.step(StreamEvent::Sent { delivered: true });
    assert!(matches!(step.action, StreamAction::Listen));
    let step = session.step(StreamEvent::Update {
        payload: payload(b"two"),
        lcut: 7,
    });
    match step.action {
        StreamAction::Send(reply) => {
            assert_eq!((reply.spec.as_slice(), reply.last_updated), (&b"two"[..], 7))
        }
        other => panic!("{other:?}"),
    }
    let step = session.step(StreamEvent::Sent { delivered: false });
    assert!(matches!(step.action, StreamAction::Close));
}

#[test]
fn streams_are_refused_without_specs_or_room() {
    match StreamSession::open(&context(), 0, 10, &None) {
        StreamOpening::Refused(refusal, event) => {
            assert_eq!(refusal, GrpcRefusal::PermissionDenied);
            assert!(event.is_some());
        }
        StreamOpening::Opened(..) => panic!("expected a refusal"),
    }
    match StreamSession::open(&context(), 10, 10, &served(5, b"one")) {
        StreamOpening::Refused(refusal, event) => {
            assert_eq!(refusal, GrpcRefusal::ResourceExhausted);
            assert!(event.is_none());
        }
        StreamOpening::Opened(..) => panic!("expected a refusal"),
    }
    assert!(StreamSession::admits(9, 10));
    assert!(!StreamSession::admits(10, 10));
}

#[test]
fn the_service_is_ready_below_its_threshold() {
    let health = HealthService::new(100, 90);
    assert!(health.check(0));
    assert!(health.check(89));
    assert!(!health.check(91));
    assert_eq!(
        active_streams_event(3).event_type,
        ProxyEventType::GrpcEstimatedActiveStreams
    );
    assert_eq!(GrpcServer::listeners(true, false, true), Listeners::Http);
    assert_eq!(GrpcServer::listeners(true, true, true), Listeners::Https);
    assert_eq!(GrpcServer::listeners(true, true, false), Listeners::Both);
}

#[test]
fn channels_take_newer_data_of_their_own_context() {
    let mut channel = StreamingChannel::new(context());
    let full = FullRequestContext {
        authorized_request_context: context(),
    };
    let response = |lcut| ResponseContext {
        result_type: DataProviderRequestResult::DataAvailable,
        lcut,
        request_since_time: 0,
        body: payload(b"{}"),
    };
    let event = channel.update(&full, &response(5)).expect("an event");
    assert_eq!(event.event_type, ProxyEventType::StreamingChannelGotNewData);
    channel.after_send(5, true);
    assert!(channel.update(&full, &response(5)).is_none());
    assert!(channel.update(&full, &response(6)).is_some());
}

fn head(status: u16) -> ResponseHead {
    ResponseHead {
        status,
        content_encoding: None,
        content_type: None,
        x_since_time: Some("9".to_string()),
        x_ms_meta_lcut: None,
    }
}

#[test]
fn responses_of_the_upstream_are_reported() {
    let rc = context();
    assert!(matches!(
        HttpDataProvider::after_attempt(AttemptOutcome::Response, false),
        AttemptStep::ReadHead
    ));
    assert!(matches!(
        HttpDataProvider::after_attempt(
            AttemptOutcome::NotConnected {
                message: "x".to_string()
            },
            false
        ),
        AttemptStep::TryAgain
    ));
    let data = match HttpDataProvider::after_body(&head(200), Ok(b"{}".to_vec()), 3, &rc, 5) {
        BodyStep::CheckUpdate(data) => data,
        BodyStep::Failed(report) => panic!("{:?}", report.log),
    };
    let report = HttpDataProvider::after_update_check(&head(200), data, true, 3, &rc, 5);
    assert_eq!(
        report.result.result,
        DataProviderRequestResult::DataAvailable
    );
    assert_eq!(report.result.lcut, 9);
    assert_eq!(report.events[0].event_type, ProxyEventType::HttpDataProviderGotData);
    let same = HttpDataProvider::after_update_check(&head(200), b"{}".to_vec(), false, 3, &rc, 5);
    assert_eq!(
        same.result.result,
        DataProviderRequestResult::NoDataAvailable
    );
    match HttpDataProvider::after_body(&head(401), Ok(b"denied".to_vec()), 3, &rc, 5) {
        BodyStep::Failed(report) => assert_eq!(
            report.result.result,
            DataProviderRequestResult::Unauthorized
        ),
        BodyStep::CheckUpdate(_) => panic!("expected a failure"),
    }
}

#[test]
fn previews_of_failures_are_readable() {
    let mut encoder = flate2::write::GzEncoder::new(Vec::new(), flate2::Compression::default());
    encoder.write_all(b"denied").expect("gzip write");
    let compressed = encoder.finish().expect("gzip finish");
    let gzip = Some("gzip".to_string());
    assert_eq!(
        HttpDataProvider::decompress_error_body(&compressed, &gzip),
        Some(b"denied".to_vec())
    );
    assert!(HttpDataProvider::format_error_body_preview(&compressed, &gzip).contains("denied"));
    assert!(HttpDataProvider::make_useful_error_message(&vec![
        "outer".to_string(),
        "inner".to_string()
    ])
    .contains("inner"));
}
