//! The command surface used by the UI boundary. Each call maps onto one registry or pipeline
//! operation, relays what the upstream streamer must see, and reports failures as a small set
//! of stable error codes.

use vstd::prelude::*;
use crate::envelope::{ClientMessage, Envelope, EnvelopeView, MessageView, SdpKind, encode, encodes, texts_view};
use crate::hub::{Hub, Relay, failures_of, one_more};
use crate::pipeline::{PipelineError, clamp_pan, clamp_volume, has_track, names_unique, pan_set, volume_set};
use crate::session::{
    IceCandidate, IceEvent, IceGate, IceView, RegistryError, RegistryView, Retired, SessionState,
    SessionView, after_close, fresh_session, gate_step, has_remote, moved, pipeline_of, replaced,
    retired_opt, with_session,
};

verus! {

/// How long the caller waits between two polls of the answer cache, in milliseconds.
pub const POLL_INTERVAL_MS: u64 = 100;

/// The error codes that callers of the command surface see.
#[derive(Clone, Copy, Debug, PartialEq, Eq, Structural)]
pub enum ErrorCode {
    /// The message could not be decoded.
    BadMessage,
    /// The message does not fit the session's negotiation state.
    OutOfOrder,
    /// No upstream streamer is bound.
    NoUpstream,
    UnknownSession,
    /// The session holds no pipeline.
    NoPipeline,
    UnknownTrack,
    /// The pipeline could not be built.
    PipelineBuild,
    NegotiationInProgress,
    MalformedSdp,
    Cancelled,
    /// No answer arrived in time.
    Timeout,
}

pub open spec fn pipeline_code(e: PipelineError) -> ErrorCode {
    match e {
        PipelineError::UnknownTrack => ErrorCode::UnknownTrack,
        PipelineError::DuplicateTrack => ErrorCode::PipelineBuild,
        PipelineError::NegotiationInProgress => ErrorCode::NegotiationInProgress,
        PipelineError::MalformedSdp => ErrorCode::MalformedSdp,
        PipelineError::Cancelled => ErrorCode::Cancelled,
        PipelineError::InvalidTransition => ErrorCode::OutOfOrder,
        PipelineError::EngineFailed => ErrorCode::PipelineBuild,
    }
}

pub open spec fn registry_code(e: RegistryError) -> ErrorCode {
    match e {
        RegistryError::UnknownSession => ErrorCode::UnknownSession,
        RegistryError::OutOfOrderMessage => ErrorCode::OutOfOrder,
        RegistryError::NoPipeline => ErrorCode::NoPipeline,
        RegistryError::Pipeline(p) => pipeline_code(p),
    }
}

/// The code a caller sees for a pipeline error.
pub fn pipeline_error_code(e: PipelineError) -> (r: ErrorCode)
    ensures
        r == pipeline_code(e),
{
    match e {
        PipelineError::UnknownTrack => ErrorCode::UnknownTrack,
        PipelineError::DuplicateTrack => ErrorCode::PipelineBuild,
        PipelineError::NegotiationInProgress => ErrorCode::NegotiationInProgress,
        PipelineError::MalformedSdp => ErrorCode::MalformedSdp,
        PipelineError::Cancelled => ErrorCode::Cancelled,
        PipelineError::InvalidTransition => ErrorCode::OutOfOrder,
        PipelineError::EngineFailed => ErrorCode::PipelineBuild,
    }
}

/// The code a caller sees for a registry error.
pub fn error_code(e: RegistryError) -> (r: ErrorCode)
    ensures
        r == registry_code(e),
{
    match e {
        RegistryError::UnknownSession => ErrorCode::UnknownSession,
        RegistryError::OutOfOrderMessage => ErrorCode::OutOfOrder,
        RegistryError::NoPipeline => ErrorCode::NoPipeline,
        RegistryError::Pipeline(p) => pipeline_error_code(p),
    }
}

/// An encoded envelope to send on the upstream connection `conn`.
#[derive(Debug)]
pub struct Forward {
    pub conn: u64,
    pub bytes: Vec<u8>,
}

/// Why a command was refused. `log` says whether to log it (a run of missing-upstream failures
/// is logged once); `retired` is a pipeline taken out of a session that was closed on the way.
#[derive(Debug)]
pub struct Refusal {
    pub code: ErrorCode,
    pub log: bool,
    pub retired: Option<Retired>,
}

/// Which mixer parameter a command sets.
#[derive(Clone, Copy, Debug, PartialEq, Eq, Structural)]
pub enum TrackParam {
    Volume,
    Pan,
}

/// One step of waiting for an answer.
#[derive(Clone, Debug, PartialEq, Eq)]
pub enum PollStep {
    Ready(String),
    /// Poll again after this many milliseconds.
    Wait(u64),
}

/// A rebuilt pipeline: its serial, where each track's source is, and the pipeline it replaced.
#[derive(Debug)]
pub struct Rebuild {
    pub serial: u64,
    pub sources: Vec<String>,
    pub retired: Option<Retired>,
}

/// The registry once `id` is known: unchanged if it was, with a fresh session otherwise.
pub open spec fn registered(reg: RegistryView, id: Seq<char>, now: u64) -> RegistryView {
    if reg.sessions.contains_key(id) {
        reg
    } else {
        with_session(reg, id, fresh_session(id, now))
    }
}

/// What one relay of `env` upstream yields, from a hub whose upstream is `upstream`, whose
/// failure counts are `failures` and whose registry is `reg`, to the result `r` and the failure
/// counts and registry after it.
pub open spec fn relay_result(
    upstream: Option<u64>,
    failures: Map<Seq<char>, u32>,
    limit: u32,
    reg: RegistryView,
    env: EnvelopeView,
    now: u64,
    r: Result<Forward, Refusal>,
    failures_after: Map<Seq<char>, u32>,
    reg_after: RegistryView,
) -> bool {
    match upstream {
        Some(conn) => {
            &&& r is Ok
            &&& r->Ok_0.conn == conn
            &&& encodes(r->Ok_0.bytes@, env)
            &&& failures_after == failures.remove(env.id)
            &&& reg_after == reg
        },
        None => {
            let n = one_more(failures_of(failures, env.id));
            &&& r is Err
            &&& r->Err_0.code == ErrorCode::NoUpstream
            &&& r->Err_0.log == (n == 1)
            &&& failures_after == failures.insert(env.id, n)
            &&& if n > limit {
                &&& retired_opt(
                    r->Err_0.retired,
                    pipeline_of(reg, env.id),
                )
                &&& reg_after == after_close(reg, env.id, now)
            } else {
                &&& r->Err_0.retired is None
                &&& reg_after == reg
            }
        },
    }
}

/// The offer envelope a client posts.
pub open spec fn offer_envelope(id: Seq<char>, sdp: Seq<char>) -> EnvelopeView {
    EnvelopeView { id, message: MessageView::Sdp { kind: SdpKind::Offer, sdp } }
}

/// Relays the envelope `env` of session `env.id` upstream.
fn relay_envelope(hub: &mut Hub, env: &Envelope, now: u64) -> (r: Result<Forward, Refusal>)
    requires
        old(hub).wf(),
    ensures
        final(hub).wf(),
        final(hub).upstream == old(hub).upstream,
        final(hub).listeners == old(hub).listeners,
        final(hub).answers == old(hub).answers,
        final(hub).retry_limit == old(hub).retry_limit,
        relay_result(
            old(hub).upstream,
            old(hub).relay_failures@,
            old(hub).retry_limit,
            old(hub).registry@,
            env@,
            now,
            r,
            final(hub).relay_failures@,
            final(hub).registry@,
        ),
{
    match hub.relay(env.id.as_str(), now) {
        Relay::Sent(conn) => Ok(Forward { conn, bytes: encode(env) }),
        Relay::Retry { log } => Err(Refusal { code: ErrorCode::NoUpstream, log, retired: None }),
        Relay::GaveUp { log, retired } => Err(Refusal { code: ErrorCode::NoUpstream, log, retired }),
    }
}

/// The ICE envelope a client posts.
pub open spec fn ice_envelope(id: Seq<char>, mline: u32, candidate: Seq<char>) -> EnvelopeView {
    EnvelopeView { id, message: MessageView::Ice { candidate, mline } }
}

/// The code a mixer command on `track` of session `id` fails with, where it fails.
pub open spec fn track_param_code(reg: RegistryView, id: Seq<char>) -> ErrorCode {
    if !reg.sessions.contains_key(id) {
        ErrorCode::UnknownSession
    } else if reg.sessions[id].pipeline is None {
        ErrorCode::NoPipeline
    } else {
        ErrorCode::UnknownTrack
    }
}

/// Where each track of a jam stored under `path` is read from.
pub open spec fn sources_of(path: Seq<char>, tracks: Seq<Seq<char>>) -> Seq<Seq<char>> {
    tracks.map_values(|t: Seq<char>| path + t)
}

/// A client posts its SDP offer for session `id`. The session is recorded if new; the offer is
/// accepted while it awaits an offer or is active (a rebuild), and is then relayed upstream,
/// encoded, for the streamer to answer. Refused with `OutOfOrder` in any other state, and with
/// `NoUpstream` where no streamer is bound.
pub fn post_client_offer(hub: &mut Hub, id: &str, sdp: &str, now: u64) -> (r: Result<
    Forward,
    Refusal,
>)
    requires
        old(hub).wf(),
    ensures
        final(hub).wf(),
        final(hub).upstream == old(hub).upstream,
        final(hub).listeners == old(hub).listeners,
        final(hub).answers == old(hub).answers,
        final(hub).retry_limit == old(hub).retry_limit,
        ({
            let reg1 = registered(old(hub).registry@, id@, now);
            let s = reg1.sessions[id@];
            if s.state == SessionState::AwaitingOffer || s.state == SessionState::Active {
                relay_result(
                    old(hub).upstream,
                    old(hub).relay_failures@,
                    old(hub).retry_limit,
                    with_session(reg1, id@, moved(s, SessionState::NegotiatingAnswer, now)),
                    offer_envelope(id@, sdp@),
                    now,
                    r,
                    final(hub).relay_failures@,
                    final(hub).registry@,
                )
            } else {
                &&& r is Err
                &&& r->Err_0.code == ErrorCode::OutOfOrder
                &&& r->Err_0.log
                &&& r->Err_0.retired is None
                &&& final(hub).registry@ == reg1
                &&& final(hub).relay_failures == old(hub).relay_failures
            }
        }),
{
    let _ = hub.registry.ensure_session(id, now);
    if let Err(e) = hub.registry.apply_remote_offer(id, now) {
        return Err(Refusal { code: error_code(e), log: true, retired: None });
    }
    let env = Envelope {
        id: String::from_str(id),
        message: ClientMessage::Sdp { kind: SdpKind::Offer, sdp: String::from_str(sdp) },
    };
    relay_envelope(hub, &env, now)
}

/// What became of a posted ICE candidate: whether to apply it to the pipeline now (otherwise it
/// is buffered until a remote description is applied), and how relaying it upstream went.
#[derive(Debug)]
pub struct IceRouting {
    pub apply: Option<IceCandidate>,
    pub relay: Result<Forward, Refusal>,
}

/// A client posts an ICE candidate for session `id`. The session is recorded if new; the
/// candidate is applied at once where the session's pipeline has a remote description and
/// buffered otherwise, never dropped; a copy is relayed upstream.
pub fn post_ice_candidate(hub: &mut Hub, id: &str, mline: u32, candidate: &str, now: u64) -> (r:
    IceRouting)
    requires
        old(hub).wf(),
    ensures
        final(hub).wf(),
        final(hub).upstream == old(hub).upstream,
        final(hub).listeners == old(hub).listeners,
        final(hub).answers == old(hub).answers,
        final(hub).retry_limit == old(hub).retry_limit,
        ({
            let reg1 = registered(old(hub).registry@, id@, now);
            let s = reg1.sessions[id@];
            let c = IceView { mline, candidate: candidate@ };
            let g = gate_step(
                IceGate { has_remote: has_remote(s), pending: s.pending_ice, applied: Seq::empty() },
                IceEvent::Candidate(c),
            );
            &&& match r.apply {
                Some(a) => has_remote(s) && g.applied == seq![a@],
                None => !has_remote(s) && g.applied.len() == 0,
            }
            &&& relay_result(
                old(hub).upstream,
                old(hub).relay_failures@,
                old(hub).retry_limit,
                with_session(reg1, id@, SessionView { pending_ice: g.pending, last_activity: now, ..s }),
                ice_envelope(id@, mline, candidate@),
                now,
                r.relay,
                final(hub).relay_failures@,
                final(hub).registry@,
            )
        }),
{
    let _ = hub.registry.ensure_session(id, now);
    let c = IceCandidate { mline, candidate: String::from_str(candidate) };
    let apply = hub.registry.add_ice(id, c, now).unwrap();
    let env = Envelope {
        id: String::from_str(id),
        message: ClientMessage::Ice { candidate: String::from_str(candidate), mline },
    };
    let relay = relay_envelope(hub, &env, now);
    IceRouting { apply, relay }
}

/// Sets a mixer parameter of track `track` in the pipeline of session `id`; returns the value
/// applied, clamped.
pub fn set_track_param(
    hub: &mut Hub,
    id: &str,
    track: &str,
    param: TrackParam,
    value: i64,
    now: u64,
) -> (r: Result<i64, ErrorCode>)
    requires
        old(hub).wf(),
    ensures
        final(hub).wf(),
        final(hub).upstream == old(hub).upstream,
        final(hub).listeners == old(hub).listeners,
        final(hub).answers == old(hub).answers,
        final(hub).relay_failures == old(hub).relay_failures,
        final(hub).retry_limit == old(hub).retry_limit,
        match r {
            Ok(v) => {
                let s = old(hub).registry@.sessions[id@];
                &&& pipeline_of(old(hub).registry@, id@) is Some
                &&& has_track(s.pipeline->0.tracks, track@)
                &&& final(hub).registry@ == with_session(
                    old(hub).registry@,
                    id@,
                    SessionView {
                        pipeline: Some(
                            match param {
                                TrackParam::Volume => volume_set(s.pipeline->0, track@, value as int),
                                TrackParam::Pan => pan_set(s.pipeline->0, track@, value as int),
                            },
                        ),
                        last_activity: now,
                        ..s
                    },
                )
                &&& v == match param {
                    TrackParam::Volume => clamp_volume(value as int) as int,
                    TrackParam::Pan => clamp_pan(value as int) as int,
                }
            },
            Err(c) => {
                &&& c == track_param_code(old(hub).registry@, id@)
                &&& final(hub).registry@ == old(hub).registry@
                &&& pipeline_of(old(hub).registry@, id@) is Some ==> !has_track(
                    old(hub).registry@.sessions[id@].pipeline->0.tracks,
                    track@,
                )
            },
        },
{
    match param {
        TrackParam::Volume => match hub.registry.set_track_volume(id, track, value, now) {
            Ok(v) => Ok(v as i64),
            Err(e) => Err(error_code(e)),
        },
        TrackParam::Pan => match hub.registry.set_track_pan(id, track, value, now) {
            Ok(p) => Ok(p as i64),
            Err(e) => Err(error_code(e)),
        },
    }
}

/// Where each track is read from: the jam's directory `path` followed by the track's name.
fn sources(path: &str, tracks: &Vec<String>) -> (r: Vec<String>)
    ensures
        texts_view(r@) == sources_of(path@, texts_view(tracks@)),
{
    let mut out: Vec<String> = Vec::new();
    let mut i: usize = 0;
    while i < tracks.len()
        invariant
            i <= tracks@.len(),
            out@.len() == i,
            forall|k: int| 0 <= k < i ==> #[trigger] out@[k]@ == path@ + tracks@[k]@,
        decreases tracks.len() - i,
    {
        out.push(String::from_str(path).concat(tracks[i].as_str()));
        i += 1;
    }
    assert(texts_view(out@) =~= sources_of(path@, texts_view(tracks@)));
    out
}

/// Switches session `id` to the jam stored under `path` with the tracks `tracks`: the
/// session's pipeline, if any, is stopped and handed back before a new one is built over the
/// tracks. Where the track list names a track twice the build fails and the session is closed.
/// `date` names the jam for the caller's records; the build reads only `path` and `tracks`.
pub fn change_jam(
    hub: &mut Hub,
    id: &str,
    path: &str,
    date: &str,
    tracks: &Vec<String>,
    now: u64,
) -> (r: Result<Rebuild, Refusal>)
    requires
        old(hub).wf(),
    ensures
        final(hub).wf(),
        final(hub).upstream == old(hub).upstream,
        final(hub).listeners == old(hub).listeners,
        final(hub).answers == old(hub).answers,
        final(hub).relay_failures == old(hub).relay_failures,
        final(hub).retry_limit == old(hub).retry_limit,
        final(hub).registry@ == replaced(old(hub).registry@, id@, texts_view(tracks@), now),
        match r {
            Ok(b) => {
                &&& names_unique(texts_view(tracks@))
                &&& b.serial == old(hub).registry@.next_serial
                &&& texts_view(b.sources@) == sources_of(path@, texts_view(tracks@))
                &&& retired_opt(b.retired, pipeline_of(old(hub).registry@, id@))
            },
            Err(f) => {
                &&& !names_unique(texts_view(tracks@))
                &&& f.code == ErrorCode::PipelineBuild
                &&& f.log
                &&& retired_opt(f.retired, pipeline_of(old(hub).registry@, id@))
            },
        },
{
    let (built, retired) = hub.registry.create_or_replace(id, tracks, now);
    match built {
        Ok(serial) => Ok(Rebuild { serial, sources: sources(path, tracks), retired }),
        Err(e) => Err(Refusal { code: pipeline_error_code(e), log: true, retired }),
    }
}

/// One step of waiting for the answer to session `id`, `waited_ms` into a wait of at most
/// `timeout_ms`: the cached answer where one has arrived, `Timeout` once the wait is used up,
/// and otherwise a pause of at most `POLL_INTERVAL_MS` that stays within the wait, so that a
/// caller polling in a loop stops after at most `timeout_ms`.
pub fn answer_poll(hub: &Hub, id: &str, waited_ms: u64, timeout_ms: u64) -> (r: Result<
    PollStep,
    ErrorCode,
>)
    requires
        hub.wf(),
    ensures
        if hub.answers@.contains_key(id@) {
            r is Ok && r->Ok_0 is Ready && r->Ok_0->Ready_0@ == hub.answers@[id@]@
        } else if waited_ms >= timeout_ms {
            r == Err::<PollStep, ErrorCode>(ErrorCode::Timeout)
        } else {
            &&& r is Ok && r->Ok_0 is Wait
            &&& r->Ok_0->Wait_0 == if timeout_ms - waited_ms < POLL_INTERVAL_MS {
                (timeout_ms - waited_ms) as u64
            } else {
                POLL_INTERVAL_MS
            }
            &&& 0 < r->Ok_0->Wait_0 <= POLL_INTERVAL_MS
            &&& waited_ms + r->Ok_0->Wait_0 <= timeout_ms
        },
{
    match hub.answer_for(id) {
        Some(a) => Ok(PollStep::Ready(a)),
        None => {
            if waited_ms >= timeout_ms {
                Err(ErrorCode::Timeout)
            } else if timeout_ms - waited_ms < POLL_INTERVAL_MS {
                Ok(PollStep::Wait(timeout_ms - waited_ms))
            } else {
                Ok(PollStep::Wait(POLL_INTERVAL_MS))
            }
        },
    }
}

} // verus!
