use repan_stream::dispatcher::{
    answer_poll, change_jam, error_code, post_client_offer, post_ice_candidate, set_track_param, ErrorCode, PollStep,
    TrackParam, POLL_INTERVAL_MS,
};
use repan_stream::envelope::{decode, encode, ClientMessage, Envelope, SdpKind};
use repan_stream::hub::{Hub, Relay, DEFAULT_RETRY_LIMIT};
use repan_stream::pipeline::PipelineError;
use repan_stream::session::{IceCandidate, RegistryError, SessionState};

fn names(v: &[&str]) -> Vec<String> {
    v.iter().map(|s| s.to_string()).collect()
}

#[test]
fn offer_without_upstream_fails_and_answer_times_out() {
    let mut hub = Hub::new(DEFAULT_RETRY_LIMIT);
    let sent = decode(br#"{"id":"u1","sdp":{"type":"offer","sdp":"v=0..."}}"#).unwrap();
    let sdp = match &sent.message {
        ClientMessage::Sdp { sdp, .. } => sdp.clone(),
        _ => unreachable!(),
    };
    let refused = post_client_offer(&mut hub, &sent.id, &sdp, 0).unwrap_err();
    assert_eq!(refused.code, ErrorCode::NoUpstream);
    assert!(refused.log);
    assert_eq!(answer_poll(&hub, "u1", 0, 250), Ok(PollStep::Wait(POLL_INTERVAL_MS)));
    assert_eq!(answer_poll(&hub, "u1", 200, 250), Ok(PollStep::Wait(50)));
    assert_eq!(answer_poll(&hub, "u1", 250, 250), Err(ErrorCode::Timeout));
    let mut waited = 0;
    let outcome = loop {
        match answer_poll(&hub, "u1", waited, 250) {
            Ok(PollStep::Wait(ms)) => waited += ms,
            other => break other,
        }
    };
    assert_eq!(outcome, Err(ErrorCode::Timeout));
    assert_eq!(waited, 250);
}

#[test]
fn missing_upstream_is_logged_once_then_the_session_closes() {
    let mut hub = Hub::new(DEFAULT_RETRY_LIMIT);
    let first = post_client_offer(&mut hub, "u1", "v=0", 0).unwrap_err();
    assert!(first.log);
    assert_eq!(hub.registry.session_state("u1"), Some(SessionState::NegotiatingAnswer));
    match hub.relay("u1", 1) {
        Relay::GaveUp { log, retired } => {
            assert!(!log);
            assert!(retired.is_none());
        }
        other => panic!("expected to give up, got {:?}", other),
    }
    assert_eq!(hub.registry.session_state("u1"), Some(SessionState::Closed));
}

#[test]
fn offer_is_relayed_to_the_bound_upstream() {
    let mut hub = Hub::new(DEFAULT_RETRY_LIMIT);
    hub.bind_upstream(42);
    let fwd = post_client_offer(&mut hub, "u1", "v=0", 0).unwrap();
    assert_eq!(fwd.conn, 42);
    let want = Envelope { id: "u1".to_string(), message: ClientMessage::Sdp { kind: SdpKind::Offer, sdp: "v=0".to_string() } };
    assert_eq!(fwd.bytes, encode(&want));
    assert_eq!(decode(&fwd.bytes), Ok(want));
    let again = post_client_offer(&mut hub, "u1", "v=0", 1).unwrap_err();
    assert_eq!(again.code, ErrorCode::OutOfOrder);
    hub.upstream_lost(7);
    assert_eq!(hub.upstream, Some(42));
    hub.upstream_lost(42);
    assert_eq!(hub.upstream, None);
}

#[test]
fn upstream_answer_is_cached_and_forwarded() {
    let mut hub = Hub::new(DEFAULT_RETRY_LIMIT);
    hub.bind_upstream(1);
    hub.connect_listener("u1", 9);
    post_client_offer(&mut hub, "u1", "offer-sdp", 0).unwrap();
    let answer = Envelope { id: "u1".to_string(), message: ClientMessage::Sdp { kind: SdpKind::Answer, sdp: "answer-sdp".to_string() } };
    assert_eq!(hub.from_upstream(&answer, 1), Some(9));
    assert_eq!(hub.registry.session_state("u1"), Some(SessionState::AwaitingClientAck));
    assert_eq!(answer_poll(&hub, "u1", 0, 1000), Ok(PollStep::Ready("answer-sdp".to_string())));
    assert_eq!(answer_poll(&hub, "u1", 5000, 1000), Ok(PollStep::Ready("answer-sdp".to_string())));
    hub.disconnect_listener("u1");
    assert_eq!(hub.from_upstream(&answer, 2), None);
}

#[test]
fn track_param_on_session_pipeline() {
    let mut hub = Hub::new(DEFAULT_RETRY_LIMIT);
    change_jam(&mut hub, "u1", "/jams/a/", "240101_1200", &names(&["kick", "snare"]), 0).unwrap();
    assert_eq!(set_track_param(&mut hub, "u1", "kick", TrackParam::Volume, 2000, 1), Ok(2000));
    assert_eq!(hub.registry.track_levels("u1", "kick"), Some((2000, 0, false)));
    assert_eq!(set_track_param(&mut hub, "u1", "hat", TrackParam::Volume, 1000, 2), Err(ErrorCode::UnknownTrack));
    assert_eq!(set_track_param(&mut hub, "u1", "snare", TrackParam::Pan, -3000, 3), Ok(-1000));
    assert_eq!(set_track_param(&mut hub, "zz", "snare", TrackParam::Pan, 0, 3), Err(ErrorCode::UnknownSession));
}

#[test]
fn change_jam_resolves_sources_and_replaces() {
    let mut hub = Hub::new(DEFAULT_RETRY_LIMIT);
    let first = change_jam(&mut hub, "u1", "/jams/a/", "d", &names(&["kick", "snare"]), 0).unwrap();
    assert_eq!(first.sources, vec!["/jams/a/kick".to_string(), "/jams/a/snare".to_string()]);
    assert!(first.retired.is_none());
    let second = change_jam(&mut hub, "u1", "/jams/b/", "d", &names(&["bass"]), 1).unwrap();
    assert_eq!(second.retired.unwrap().handle.serial(), first.serial);
    let bad = change_jam(&mut hub, "u1", "/jams/c/", "d", &names(&["x", "x"]), 2).unwrap_err();
    assert_eq!(bad.code, ErrorCode::PipelineBuild);
    assert_eq!(hub.registry.session_state("u1"), Some(SessionState::Closed));
}

#[test]
fn ice_is_buffered_and_relayed() {
    let mut hub = Hub::new(DEFAULT_RETRY_LIMIT);
    hub.bind_upstream(5);
    let routed = post_ice_candidate(&mut hub, "u1", 0, "candidate:1", 0);
    assert!(routed.apply.is_none());
    let fwd = routed.relay.unwrap();
    assert_eq!(fwd.conn, 5);
    let sent = decode(&fwd.bytes).unwrap();
    assert_eq!(sent.message, ClientMessage::Ice { candidate: "candidate:1".to_string(), mline: 0 });
    assert_eq!(hub.registry.buffered_ice("u1"), 1);
    let serial = change_jam(&mut hub, "u1", "/j/", "d", &names(&["kick"]), 1).unwrap().serial;
    hub.registry.begin_remote("u1", SdpKind::Offer, 2).unwrap();
    let (_, flushed) = hub.registry.remote_done("u1", serial, SdpKind::Offer, Ok(()), 3);
    assert_eq!(flushed, vec![IceCandidate { mline: 0, candidate: "candidate:1".to_string() }]);
    let routed = post_ice_candidate(&mut hub, "u1", 1, "candidate:2", 4);
    assert_eq!(routed.apply, Some(IceCandidate { mline: 1, candidate: "candidate:2".to_string() }));
}

#[test]
fn error_codes_are_stable() {
    assert_eq!(error_code(RegistryError::UnknownSession), ErrorCode::UnknownSession);
    assert_eq!(error_code(RegistryError::OutOfOrderMessage), ErrorCode::OutOfOrder);
    assert_eq!(error_code(RegistryError::NoPipeline), ErrorCode::NoPipeline);
    assert_eq!(error_code(RegistryError::Pipeline(PipelineError::UnknownTrack)), ErrorCode::UnknownTrack);
    assert_eq!(error_code(RegistryError::Pipeline(PipelineError::DuplicateTrack)), ErrorCode::PipelineBuild);
    assert_eq!(error_code(RegistryError::Pipeline(PipelineError::NegotiationInProgress)), ErrorCode::NegotiationInProgress);
    assert_eq!(error_code(RegistryError::Pipeline(PipelineError::MalformedSdp)), ErrorCode::MalformedSdp);
    assert_eq!(error_code(RegistryError::Pipeline(PipelineError::Cancelled)), ErrorCode::Cancelled);
}
