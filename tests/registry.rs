use repan_stream::envelope::SdpKind;
use repan_stream::pipeline::{PendingStep, PipelineError, TransportState};
use repan_stream::session::{IceCandidate, RegistryError, SessionRegistry, SessionState};

fn names(v: &[&str]) -> Vec<String> {
    v.iter().map(|s| s.to_string()).collect()
}

fn cand(mline: u32, c: &str) -> IceCandidate {
    IceCandidate { mline, candidate: c.to_string() }
}

#[test]
fn buffered_candidates_flush_in_arrival_order() {
    let mut reg = SessionRegistry::new();
    let (built, _) = reg.create_or_replace("u1", &names(&["kick"]), 0);
    let serial = built.unwrap();
    assert_eq!(reg.add_ice("u1", cand(0, "a"), 1), Ok(None));
    assert_eq!(reg.add_ice("u1", cand(1, "b"), 2), Ok(None));
    assert_eq!(reg.add_ice("u1", cand(0, "c"), 3), Ok(None));
    assert_eq!(reg.buffered_ice("u1"), 3);
    assert_eq!(reg.begin_remote("u1", SdpKind::Offer, 4), Ok(serial));
    let (res, flushed) = reg.remote_done("u1", serial, SdpKind::Offer, Ok(()), 5);
    assert_eq!(res, Ok(()));
    assert_eq!(flushed, vec![cand(0, "a"), cand(1, "b"), cand(0, "c")]);
    assert_eq!(reg.buffered_ice("u1"), 0);
    assert_eq!(reg.add_ice("u1", cand(2, "d"), 6), Ok(Some(cand(2, "d"))));
    assert_eq!(reg.buffered_ice("u1"), 0);
}

#[test]
fn failed_remote_description_keeps_the_buffer() {
    let mut reg = SessionRegistry::new();
    let serial = reg.create_or_replace("u1", &names(&["kick"]), 0).0.unwrap();
    reg.add_ice("u1", cand(0, "a"), 1).unwrap();
    reg.begin_remote("u1", SdpKind::Offer, 2).unwrap();
    let (res, flushed) = reg.remote_done("u1", serial, SdpKind::Offer, Err(PipelineError::MalformedSdp), 3);
    assert_eq!(res, Err(PipelineError::MalformedSdp));
    assert!(flushed.is_empty());
    assert_eq!(reg.buffered_ice("u1"), 1);
}

#[test]
fn ice_for_unknown_session_is_refused() {
    let mut reg = SessionRegistry::new();
    assert_eq!(reg.add_ice("nobody", cand(0, "a"), 0), Err(RegistryError::UnknownSession));
}

#[test]
fn replacing_twice_leaves_one_pipeline() {
    let mut reg = SessionRegistry::new();
    let (first, none) = reg.create_or_replace("u1", &names(&["kick", "snare"]), 0);
    assert!(none.is_none());
    let first = first.unwrap();
    reg.begin_local("u1", SdpKind::Answer, 1).unwrap();
    let (second, retired) = reg.create_or_replace("u1", &names(&["hat"]), 2);
    let second = second.unwrap();
    assert_ne!(first, second);
    let retired = retired.unwrap();
    assert_eq!(retired.handle.serial(), first);
    assert_eq!(retired.handle.transport(), TransportState::Null);
    assert_eq!(retired.cancelled, vec![PendingStep::Local(SdpKind::Answer)]);
    assert_eq!(reg.pipeline_serial("u1"), Some(second));
    assert_eq!(reg.track_levels("u1", "hat"), Some((1000, 0, false)));
    assert_eq!(reg.track_levels("u1", "kick"), None);
    assert_eq!(reg.local_done("u1", first, SdpKind::Answer, Ok("late".to_string()), 3), Err(PipelineError::Cancelled));
}

#[test]
fn failed_build_closes_the_session() {
    let mut reg = SessionRegistry::new();
    reg.create_or_replace("u1", &names(&["kick"]), 0).0.unwrap();
    let (built, retired) = reg.create_or_replace("u1", &names(&["a", "a"]), 1);
    assert_eq!(built, Err(PipelineError::DuplicateTrack));
    assert!(retired.is_some());
    assert_eq!(reg.session_state("u1"), Some(SessionState::Closed));
    assert_eq!(reg.pipeline_serial("u1"), None);
    let (again, _) = reg.create_or_replace("u1", &names(&["kick"]), 2);
    assert!(again.is_ok());
    assert_eq!(reg.session_state("u1"), Some(SessionState::AwaitingOffer));
}

#[test]
fn dropping_a_session_cancels_its_remote_description() {
    let mut reg = SessionRegistry::new();
    let serial = reg.create_or_replace("u1", &names(&["kick"]), 0).0.unwrap();
    reg.begin_remote("u1", SdpKind::Answer, 1).unwrap();
    let retired = reg.evict("u1").unwrap();
    assert_eq!(retired.cancelled, vec![PendingStep::Remote(SdpKind::Answer)]);
    assert_eq!(retired.handle.transport(), TransportState::Null);
    let (res, flushed) = reg.remote_done("u1", serial, SdpKind::Answer, Ok(()), 2);
    assert_eq!(res, Err(PipelineError::Cancelled));
    assert!(flushed.is_empty());
    assert_eq!(reg.session_state("u1"), None);
    assert!(reg.evict("u1").is_none());
}

#[test]
fn negotiation_states_follow_the_protocol() {
    let mut reg = SessionRegistry::new();
    assert!(reg.ensure_session("u1", 0));
    assert!(!reg.ensure_session("u1", 1));
    assert_eq!(reg.session_state("u1"), Some(SessionState::AwaitingOffer));
    assert_eq!(reg.answer_ready("u1", 1), Err(RegistryError::OutOfOrderMessage));
    assert_eq!(reg.apply_remote_offer("u1", 2), Ok(()));
    assert_eq!(reg.apply_remote_offer("u1", 3), Err(RegistryError::OutOfOrderMessage));
    assert_eq!(reg.answer_ready("u1", 4), Ok(()));
    assert_eq!(reg.transport_connected("u1", 5), Ok(()));
    assert_eq!(reg.session_state("u1"), Some(SessionState::Active));
    assert_eq!(reg.apply_remote_offer("u1", 6), Ok(()));
    assert_eq!(reg.session_state("u1"), Some(SessionState::NegotiatingAnswer));
    assert_eq!(reg.apply_remote_offer("ghost", 7), Err(RegistryError::UnknownSession));
    assert!(reg.close("u1", 8).is_none());
    assert_eq!(reg.session_state("u1"), Some(SessionState::Closed));
}

#[test]
fn mixer_commands_reach_the_session_pipeline() {
    let mut reg = SessionRegistry::new();
    assert_eq!(reg.set_track_volume("u1", "kick", 1, 0), Err(RegistryError::UnknownSession));
    reg.ensure_session("u1", 0);
    assert_eq!(reg.set_track_pan("u1", "kick", 1, 0), Err(RegistryError::NoPipeline));
    reg.create_or_replace("u1", &names(&["kick"]), 0).0.unwrap();
    assert_eq!(reg.set_track_pan("u1", "kick", 300, 1), Ok(300));
    assert_eq!(reg.set_track_volume("u1", "kick", 4001, 1), Ok(4000));
    assert_eq!(reg.track_levels("u1", "kick"), Some((4000, 300, false)));
    assert_eq!(reg.set_track_volume("u1", "hat", 1, 1), Err(RegistryError::Pipeline(PipelineError::UnknownTrack)));
}

#[test]
fn idle_sessions_are_listed_for_eviction() {
    let mut reg = SessionRegistry::new();
    reg.ensure_session("old", 100);
    reg.ensure_session("new", 900);
    reg.create_or_replace("busy", &names(&["kick"]), 100).0.unwrap();
    reg.set_track_volume("busy", "kick", 10, 950).unwrap();
    assert_eq!(reg.idle_sessions(1000, 500), vec!["old".to_string()]);
    let mut all = reg.idle_sessions(2000, 500);
    all.sort();
    assert_eq!(all, vec!["busy".to_string(), "new".to_string(), "old".to_string()]);
    assert!(reg.idle_sessions(50, 0).is_empty());
}

#[test]
fn transport_commands_reach_the_session_pipeline() {
    let mut reg = SessionRegistry::new();
    assert_eq!(reg.set_transport_state("u1", TransportState::Playing, 0), Err(RegistryError::UnknownSession));
    reg.ensure_session("u1", 0);
    assert_eq!(reg.set_transport_state("u1", TransportState::Playing, 0), Err(RegistryError::NoPipeline));
    reg.create_or_replace("u1", &names(&["kick"]), 0).0.unwrap();
    assert_eq!(reg.set_transport_state("u1", TransportState::Playing, 1), Ok(vec![]));
    reg.begin_remote("u1", SdpKind::Offer, 2).unwrap();
    assert_eq!(reg.set_transport_state("u1", TransportState::Error, 3), Err(RegistryError::Pipeline(PipelineError::InvalidTransition)));
    assert_eq!(reg.set_transport_state("u1", TransportState::Null, 4), Ok(vec![PendingStep::Remote(SdpKind::Offer)]));
}
