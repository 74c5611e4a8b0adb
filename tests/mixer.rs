use repan_stream::envelope::SdpKind;
use repan_stream::pipeline::{PendingStep, PipelineError, PipelineHandle, TransportState};

fn handle(names: &[&str]) -> PipelineHandle {
    let names: Vec<String> = names.iter().map(|s| s.to_string()).collect();
    PipelineHandle::build(7, &names).unwrap()
}

#[test]
fn fresh_tracks_are_unity_and_centred() {
    let h = handle(&["kick", "snare"]);
    assert_eq!(h.serial(), 7);
    assert_eq!(h.transport(), TransportState::Null);
    assert_eq!(h.track("kick"), Some((1000, 0, false)));
    assert_eq!(h.track("snare"), Some((1000, 0, false)));
    assert_eq!(h.track("hat"), None);
    assert!(!h.has_remote_description());
}

#[test]
fn duplicate_track_names_fail_the_build() {
    let names = vec!["kick".to_string(), "snare".to_string(), "kick".to_string()];
    assert_eq!(PipelineHandle::build(1, &names).unwrap_err(), PipelineError::DuplicateTrack);
}

#[test]
fn volume_is_set_and_clamped() {
    let mut h = handle(&["kick", "snare"]);
    assert_eq!(h.set_volume("kick", 2000), Ok(2000));
    assert_eq!(h.track("kick"), Some((2000, 0, false)));
    assert_eq!(h.track("snare"), Some((1000, 0, false)));
    assert_eq!(h.set_volume("kick", 9000), Ok(4000));
    assert_eq!(h.set_volume("kick", -5), Ok(0));
    assert_eq!(h.track("kick"), Some((0, 0, false)));
}

#[test]
fn pan_is_set_and_clamped() {
    let mut h = handle(&["kick"]);
    assert_eq!(h.set_pan("kick", -250), Ok(-250));
    assert_eq!(h.set_pan("kick", -1001), Ok(-1000));
    assert_eq!(h.set_pan("kick", 5000), Ok(1000));
    assert_eq!(h.track("kick"), Some((1000, 1000, false)));
}

#[test]
fn unknown_track_is_rejected_without_change() {
    let mut h = handle(&["kick"]);
    assert_eq!(h.set_volume("hat", 1), Err(PipelineError::UnknownTrack));
    assert_eq!(h.set_pan("hat", 1), Err(PipelineError::UnknownTrack));
    assert_eq!(h.track("kick"), Some((1000, 0, false)));
}

#[test]
fn setting_twice_equals_setting_once() {
    let mut once = handle(&["kick", "snare"]);
    let mut twice = handle(&["kick", "snare"]);
    once.set_volume("snare", 3100).unwrap();
    twice.set_volume("snare", 3100).unwrap();
    twice.set_volume("snare", 3100).unwrap();
    once.set_pan("kick", 400).unwrap();
    twice.set_pan("kick", 400).unwrap();
    twice.set_pan("kick", 400).unwrap();
    for name in ["kick", "snare"] {
        assert_eq!(once.track(name), twice.track(name));
    }
}

#[test]
fn second_offer_fails_fast() {
    let mut h = handle(&["kick"]);
    assert_eq!(h.create_local_offer(), Ok(()));
    assert_eq!(h.create_local_offer(), Err(PipelineError::NegotiationInProgress));
    assert_eq!(h.create_local_answer(), Err(PipelineError::NegotiationInProgress));
    assert_eq!(h.local_description_done(SdpKind::Offer, Ok("v=0".to_string())), Ok("v=0".to_string()));
    assert_eq!(h.create_local_answer(), Ok(()));
}

#[test]
fn completion_without_outstanding_step_is_cancelled() {
    let mut h = handle(&["kick"]);
    assert_eq!(h.local_description_done(SdpKind::Answer, Ok("x".to_string())), Err(PipelineError::Cancelled));
    assert_eq!(h.remote_description_done(SdpKind::Offer, Ok(())), Err(PipelineError::Cancelled));
}

#[test]
fn malformed_remote_description_changes_nothing() {
    let mut h = handle(&["kick"]);
    h.apply_remote_description(SdpKind::Offer).unwrap();
    assert_eq!(h.apply_remote_description(SdpKind::Offer), Err(PipelineError::NegotiationInProgress));
    assert_eq!(h.remote_description_done(SdpKind::Offer, Err(PipelineError::MalformedSdp)), Err(PipelineError::MalformedSdp));
    assert!(!h.has_remote_description());
    h.apply_remote_description(SdpKind::Offer).unwrap();
    assert_eq!(h.remote_description_done(SdpKind::Offer, Ok(())), Ok(()));
    assert!(h.has_remote_description());
}

#[test]
fn stopping_cancels_outstanding_steps() {
    let mut h = handle(&["kick"]);
    h.set_transport_state(TransportState::Playing).unwrap();
    h.create_local_answer().unwrap();
    h.apply_remote_description(SdpKind::Offer).unwrap();
    let cancelled = h.set_transport_state(TransportState::Null).unwrap();
    assert_eq!(cancelled, vec![PendingStep::Local(SdpKind::Answer), PendingStep::Remote(SdpKind::Offer)]);
    assert_eq!(h.transport(), TransportState::Null);
    assert_eq!(h.local_description_done(SdpKind::Answer, Ok("x".to_string())), Err(PipelineError::Cancelled));
}

#[test]
fn transport_transitions() {
    let mut h = handle(&["kick"]);
    assert_eq!(h.set_transport_state(TransportState::Paused), Ok(vec![]));
    assert_eq!(h.set_transport_state(TransportState::Playing), Ok(vec![]));
    assert_eq!(h.transport(), TransportState::Playing);
    assert_eq!(h.set_transport_state(TransportState::Error), Err(PipelineError::InvalidTransition));
    h.engine_failed();
    assert_eq!(h.set_transport_state(TransportState::Playing), Err(PipelineError::InvalidTransition));
    assert_eq!(h.transport(), TransportState::Error);
    assert_eq!(h.shutdown(), vec![]);
    assert_eq!(h.transport(), TransportState::Null);
}
