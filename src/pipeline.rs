//! The control surface over one per-listener audio graph: mixer parameters per track,
//! transport state, and the negotiation steps that may be outstanding on it.
//!
//! Levels are fixed point in thousandths: a volume of 1000 is unity gain, a pan of -1000 is
//! hard left and 1000 hard right.

use vstd::prelude::*;
use crate::envelope::{SdpKind, texts_view};

verus! {

/// The largest volume, in thousandths (four times unity gain).
pub const VOLUME_MAX: u32 = 4000;

/// Unity gain, in thousandths.
pub const VOLUME_UNITY: u32 = 1000;

/// The largest pan magnitude, in thousandths.
pub const PAN_LIMIT: i32 = 1000;

#[derive(Clone, Copy, Debug, PartialEq, Eq, Structural)]
pub enum TransportState {
    Null,
    Paused,
    Playing,
    Error,
}

#[derive(Clone, Copy, Debug, PartialEq, Eq, Structural)]
pub enum PipelineError {
    /// No track of that name in the graph.
    UnknownTrack,
    /// The track list names one track twice.
    DuplicateTrack,
    /// A negotiation step of the same kind is still outstanding.
    NegotiationInProgress,
    /// The engine could not parse an SDP text.
    MalformedSdp,
    /// The step was abandoned because its graph was torn down or replaced.
    Cancelled,
    /// The transport cannot go to the requested state from the current one.
    InvalidTransition,
    /// The engine reported a failure for the step.
    EngineFailed,
}

/// A negotiation step whose completion the engine has not reported yet.
#[derive(Clone, Copy, Debug, PartialEq, Eq, Structural)]
pub enum PendingStep {
    /// Creating the local offer or answer.
    Local(SdpKind),
    /// Applying a remote offer or answer.
    Remote(SdpKind),
}

/// One mixable source in the graph.
#[derive(Clone, Debug, PartialEq, Eq)]
pub struct TrackNode {
    pub name: String,
    pub volume: u32,
    pub pan: i32,
    pub muted: bool,
}

/// A track as values.
pub struct TrackView {
    pub name: Seq<char>,
    pub volume: u32,
    pub pan: i32,
    pub muted: bool,
}

impl View for TrackNode {
    type V = TrackView;

    open spec fn view(&self) -> TrackView {
        TrackView { name: self.name@, volume: self.volume, pan: self.pan, muted: self.muted }
    }
}

/// The live control surface over one graph.
#[derive(Debug)]
pub struct PipelineHandle {
    serial: u64,
    tracks: Vec<TrackNode>,
    transport: TransportState,
    local: Option<SdpKind>,
    remote: Option<SdpKind>,
    has_remote: bool,
}

/// A pipeline handle as values: its serial, tracks in build order, transport state, the steps
/// outstanding on it, and whether a remote description has been applied.
pub struct PipelineView {
    pub serial: u64,
    pub tracks: Seq<TrackView>,
    pub transport: TransportState,
    pub local: Option<SdpKind>,
    pub remote: Option<SdpKind>,
    pub has_remote: bool,
}

impl View for PipelineHandle {
    type V = PipelineView;

    closed spec fn view(&self) -> PipelineView {
        PipelineView {
            serial: self.serial,
            tracks: self.tracks@.map_values(|t: TrackNode| t@),
            transport: self.transport,
            local: self.local,
            remote: self.remote,
            has_remote: self.has_remote,
        }
    }
}

pub open spec fn names_unique(names: Seq<Seq<char>>) -> bool {
    forall|i: int, k: int| 0 <= i < k < names.len() ==> names[i] != names[k]
}

pub open spec fn track_names(tracks: Seq<TrackView>) -> Seq<Seq<char>> {
    tracks.map_values(|t: TrackView| t.name)
}

pub open spec fn has_track(tracks: Seq<TrackView>, name: Seq<char>) -> bool {
    exists|i: int| 0 <= i < tracks.len() && #[trigger] tracks[i].name == name
}

pub open spec fn clamp_volume(v: int) -> u32 {
    if v < 0 {
        0
    } else if v > VOLUME_MAX {
        VOLUME_MAX
    } else {
        v as u32
    }
}

pub open spec fn clamp_pan(v: int) -> i32 {
    if v < -PAN_LIMIT {
        -PAN_LIMIT as i32
    } else if v > PAN_LIMIT {
        PAN_LIMIT
    } else {
        v as i32
    }
}

/// The graph after the track `name` is set to volume `value`, clamped.
pub open spec fn volume_set(h: PipelineView, name: Seq<char>, value: int) -> PipelineView {
    PipelineView {
        tracks: h.tracks.map_values(
            |t: TrackView|
                if t.name == name {
                    TrackView { volume: clamp_volume(value), ..t }
                } else {
                    t
                },
        ),
        ..h
    }
}

/// The graph after the track `name` is set to pan `value`, clamped.
pub open spec fn pan_set(h: PipelineView, name: Seq<char>, value: int) -> PipelineView {
    PipelineView {
        tracks: h.tracks.map_values(
            |t: TrackView|
                if t.name == name {
                    TrackView { pan: clamp_pan(value), ..t }
                } else {
                    t
                },
        ),
        ..h
    }
}

/// The fresh tracks for a list of names: unity gain, centred, not muted.
pub open spec fn fresh_tracks(names: Seq<Seq<char>>) -> Seq<TrackView> {
    names.map_values(
        |n: Seq<char>| TrackView { name: n, volume: VOLUME_UNITY, pan: 0, muted: false },
    )
}

/// The transport states that a request for `target` may leave `from`: stopping is always
/// allowed, pausing or playing from any state but `Error`, and `Error` is never requested.
pub open spec fn transition_allowed(from: TransportState, target: TransportState) -> bool {
    match target {
        TransportState::Null => true,
        TransportState::Error => false,
        _ => from != TransportState::Error,
    }
}

/// The steps that are outstanding on a graph, local step first.
pub open spec fn pending_steps(h: PipelineView) -> Seq<PendingStep> {
    let l = match h.local {
        Some(k) => seq![PendingStep::Local(k)],
        None => Seq::empty(),
    };
    let r = match h.remote {
        Some(k) => seq![PendingStep::Remote(k)],
        None => Seq::empty(),
    };
    l + r
}

/// The graph once stopped: transport `Null`, nothing outstanding.
pub open spec fn stopped(h: PipelineView) -> PipelineView {
    PipelineView { transport: TransportState::Null, local: None, remote: None, ..h }
}


/// The first track named `name`.
fn position_of(tracks: &Vec<TrackNode>, name: &str) -> (r: Option<usize>)
    ensures
        match r {
            Some(i) => i < tracks@.len() && tracks@[i as int].name@ == name@,
            None => !has_track(tracks@.map_values(|t: TrackNode| t@), name@),
        },
{
    let ghost view = tracks@.map_values(|t: TrackNode| t@);
    let mut i: usize = 0;
    while i < tracks.len()
        invariant
            i <= tracks@.len(),
            view == tracks@.map_values(|t: TrackNode| t@),
            forall|k: int| 0 <= k < i ==> #[trigger] view[k].name != name@,
        decreases tracks.len() - i,
    {
        if tracks[i].name == String::from_str(name) {
            return Some(i);
        }
        i += 1;
    }
    None
}

fn track_with(t: &TrackNode, volume: u32, pan: i32) -> (r: TrackNode)
    ensures
        r@ == (TrackView { volume, pan, ..t@ }),
{
    TrackNode { name: t.name.clone(), volume, pan, muted: t.muted }
}

impl PipelineHandle {
    /// No two tracks share a name.
    pub open spec fn wf(&self) -> bool {
        names_unique(track_names(self@.tracks))
    }

    /// A handle over fresh tracks named `names`: unity gain, centred, transport `Null`,
    /// nothing negotiated. Fails where a name repeats.
    pub fn build(serial: u64, names: &Vec<String>) -> (r: Result<PipelineHandle, PipelineError>)
        ensures
            match r {
                Ok(h) => {
                    &&& names_unique(texts_view(names@))
                    &&& h.wf()
                    &&& h@ == PipelineView {
                        serial,
                        tracks: fresh_tracks(texts_view(names@)),
                        transport: TransportState::Null,
                        local: None,
                        remote: None,
                        has_remote: false,
                    }
                },
                Err(e) => e == PipelineError::DuplicateTrack && !names_unique(texts_view(names@)),
            },
    {
        let ghost want = fresh_tracks(texts_view(names@));
        let mut tracks: Vec<TrackNode> = Vec::new();
        let mut i: usize = 0;
        while i < names.len()
            invariant
                i <= names@.len(),
                want == fresh_tracks(texts_view(names@)),
                tracks@.map_values(|t: TrackNode| t@) =~= want.subrange(0, i as int),
                names_unique(texts_view(names@).subrange(0, i as int)),
            decreases names.len() - i,
        {
            let ghost before = tracks@.map_values(|t: TrackNode| t@);
            if let Some(j) = position_of(&tracks, names[i].as_str()) {
                proof {
                    assert(before == want.subrange(0, i as int));
                    assert(before.len() == tracks@.len());
                    assert((j as int) < (i as int));
                    assert(want.len() == names@.len());
                    assert(before[j as int] == tracks@[j as int]@);
                    assert(want[j as int].name == texts_view(names@)[j as int]);
                    assert(texts_view(names@)[i as int] == names@[i as int]@);
                    assert(texts_view(names@)[j as int] == texts_view(names@)[i as int]);
                }
                return Err(PipelineError::DuplicateTrack);
            }
            let fresh = TrackNode {
                name: names[i].clone(),
                volume: VOLUME_UNITY,
                pan: 0,
                muted: false,
            };
            tracks.push(fresh);
            proof {
                assert(texts_view(names@)[i as int] == names@[i as int]@);
                assert(want[i as int] == fresh@);
                assert(tracks@.map_values(|t: TrackNode| t@) =~= before.push(fresh@));
                assert(want.subrange(0, i + 1) =~= want.subrange(0, i as int).push(want[i as int]));
                let done = texts_view(names@).subrange(0, i + 1);
                assert forall|a: int, b: int| 0 <= a < b < done.len() implies done[a] != done[b] by {
                    if b == i {
                        assert(before[a].name == done[a]);
                    } else {
                        assert(texts_view(names@).subrange(0, i as int)[a] == done[a]);
                        assert(texts_view(names@).subrange(0, i as int)[b] == done[b]);
                    }
                }
            }
            i += 1;
        }
        let h = PipelineHandle {
            serial,
            tracks,
            transport: TransportState::Null,
            local: None,
            remote: None,
            has_remote: false,
        };
        proof {
            assert(want.subrange(0, names@.len() as int) =~= want);
            assert(texts_view(names@).subrange(0, names@.len() as int) =~= texts_view(names@));
            assert(track_names(h@.tracks) =~= texts_view(names@));
        }
        Ok(h)
    }

    pub fn serial(&self) -> (r: u64)
        ensures
            r == self@.serial,
    {
        self.serial
    }

    pub fn transport(&self) -> (r: TransportState)
        ensures
            r == self@.transport,
    {
        self.transport
    }

    /// The local description being created, if any.
    pub fn local_pending(&self) -> (r: Option<SdpKind>)
        ensures
            r == self@.local,
    {
        self.local
    }

    /// Whether a remote description has been applied to the graph.
    pub fn has_remote_description(&self) -> (r: bool)
        ensures
            r == self@.has_remote,
    {
        self.has_remote
    }

    /// The track named `name`, as (volume, pan, muted).
    pub fn track(&self, name: &str) -> (r: Option<(u32, i32, bool)>)
        requires
            self.wf(),
        ensures
            match r {
                Some((v, p, m)) => exists|i: int|
                    0 <= i < self@.tracks.len() && #[trigger] self@.tracks[i].name == name@
                        && self@.tracks[i].volume == v && self@.tracks[i].pan == p
                        && self@.tracks[i].muted == m,
                None => !has_track(self@.tracks, name@),
            },
    {
        match position_of(&self.tracks, name) {
            Some(i) => {
                let t = &self.tracks[i];
                assert(self@.tracks[i as int] == t@);
                assert(self@.tracks[i as int].name == name@);
                Some((t.volume, t.pan, t.muted))
            },
            None => None,
        }
    }

    /// Sets the volume of the track `name`, clamped to `0..=VOLUME_MAX`; returns the value
    /// applied. Fails, changing nothing, where no track has that name.
    pub fn set_volume(&mut self, name: &str, value: i64) -> (r: Result<u32, PipelineError>)
        requires
            old(self).wf(),
        ensures
            final(self).wf(),
            match r {
                Ok(v) => {
                    &&& has_track(old(self)@.tracks, name@)
                    &&& v == clamp_volume(value as int)
                    &&& final(self)@ == volume_set(old(self)@, name@, value as int)
                },
                Err(e) => {
                    &&& e == PipelineError::UnknownTrack
                    &&& !has_track(old(self)@.tracks, name@)
                    &&& final(self)@ == old(self)@
                },
            },
    {
        let i = match position_of(&self.tracks, name) {
            Some(i) => i,
            None => return Err(PipelineError::UnknownTrack),
        };
        let v: u32 = if value < 0 {
            0
        } else if value > VOLUME_MAX as i64 {
            VOLUME_MAX
        } else {
            value as u32
        };
        let t = track_with(&self.tracks[i], v, self.tracks[i].pan);
        let ghost before = self@;
        self.tracks.set(i, t);
        proof {
            let want = volume_set(before, name@, value as int);
            assert(before.tracks[i as int].name == name@);
            assert forall|k: int| 0 <= k < self@.tracks.len() implies self@.tracks[k]
                == want.tracks[k] by {
                if k != i {
                    assert(track_names(before.tracks)[k] != track_names(before.tracks)[i as int]);
                }
            }
            assert(self@.tracks =~= want.tracks);
            assert(track_names(self@.tracks) =~= track_names(before.tracks));
        }
        Ok(v)
    }

    /// Sets the pan of the track `name`, clamped to `-PAN_LIMIT..=PAN_LIMIT`; returns the
    /// value applied. Fails, changing nothing, where no track has that name.
    pub fn set_pan(&mut self, name: &str, value: i64) -> (r: Result<i32, PipelineError>)
        requires
            old(self).wf(),
        ensures
            final(self).wf(),
            match r {
                Ok(p) => {
                    &&& has_track(old(self)@.tracks, name@)
                    &&& p == clamp_pan(value as int)
                    &&& final(self)@ == pan_set(old(self)@, name@, value as int)
                },
                Err(e) => {
                    &&& e == PipelineError::UnknownTrack
                    &&& !has_track(old(self)@.tracks, name@)
                    &&& final(self)@ == old(self)@
                },
            },
    {
        let i = match position_of(&self.tracks, name) {
            Some(i) => i,
            None => return Err(PipelineError::UnknownTrack),
        };
        let p: i32 = if value < -(PAN_LIMIT as i64) {
            -PAN_LIMIT
        } else if value > PAN_LIMIT as i64 {
            PAN_LIMIT
        } else {
            value as i32
        };
        let t = track_with(&self.tracks[i], self.tracks[i].volume, p);
        let ghost before = self@;
        self.tracks.set(i, t);
        proof {
            let want = pan_set(before, name@, value as int);
            assert(before.tracks[i as int].name == name@);
            assert forall|k: int| 0 <= k < self@.tracks.len() implies self@.tracks[k]
                == want.tracks[k] by {
                if k != i {
                    assert(track_names(before.tracks)[k] != track_names(before.tracks)[i as int]);
                }
            }
            assert(self@.tracks =~= want.tracks);
            assert(track_names(self@.tracks) =~= track_names(before.tracks));
        }
        Ok(p)
    }

    /// Requests transport state `target`. Stopping is always allowed: it releases the graph and
    /// abandons every outstanding step, which is returned so that its waiter is told
    /// `Cancelled`. Pausing or playing is refused from `Error`, and `Error` cannot be requested.
    pub fn set_transport_state(&mut self, target: TransportState) -> (r: Result<
        Vec<PendingStep>,
        PipelineError,
    >)
        requires
            old(self).wf(),
        ensures
            final(self).wf(),
            match r {
                Ok(cancelled) => {
                    &&& transition_allowed(old(self)@.transport, target)
                    &&& if target == TransportState::Null {
                        &&& cancelled@ == pending_steps(old(self)@)
                        &&& final(self)@ == stopped(old(self)@)
                    } else {
                        &&& cancelled@.len() == 0
                        &&& final(self)@ == (PipelineView { transport: target, ..old(self)@ })
                    }
                },
                Err(e) => {
                    &&& e == PipelineError::InvalidTransition
                    &&& !transition_allowed(old(self)@.transport, target)
                    &&& final(self)@ == old(self)@
                },
            },
    {
        match target {
            TransportState::Null => Ok(self.shutdown()),
            TransportState::Error => Err(PipelineError::InvalidTransition),
            _ => {
                if self.transport == TransportState::Error {
                    Err(PipelineError::InvalidTransition)
                } else {
                    self.transport = target;
                    Ok(Vec::new())
                }
            },
        }
    }

    /// Stops the graph: transport `Null`, nothing outstanding. Returns the steps that were
    /// outstanding, local step first, so that each waiter is told `Cancelled`.
    pub fn shutdown(&mut self) -> (r: Vec<PendingStep>)
        requires
            old(self).wf(),
        ensures
            final(self).wf(),
            r@ == pending_steps(old(self)@),
            final(self)@ == stopped(old(self)@),
    {
        let mut cancelled: Vec<PendingStep> = Vec::new();
        if let Some(k) = self.local {
            cancelled.push(PendingStep::Local(k));
        }
        if let Some(k) = self.remote {
            cancelled.push(PendingStep::Remote(k));
        }
        self.transport = TransportState::Null;
        self.local = None;
        self.remote = None;
        assert(cancelled@ =~= pending_steps(old(self)@));
        cancelled
    }

    /// Records that the engine reported an error on the graph.
    pub fn engine_failed(&mut self)
        requires
            old(self).wf(),
        ensures
            final(self).wf(),
            final(self)@ == (PipelineView { transport: TransportState::Error, ..old(self)@ }),
    {
        self.transport = TransportState::Error;
    }

    /// Starts creating the local description of `kind`. Only one such step may be outstanding:
    /// a second one fails at once, changing nothing.
    fn begin_local(&mut self, kind: SdpKind) -> (r: Result<(), PipelineError>)
        requires
            old(self).wf(),
        ensures
            final(self).wf(),
            match r {
                Ok(_) => {
                    &&& old(self)@.local is None
                    &&& final(self)@ == (PipelineView { local: Some(kind), ..old(self)@ })
                },
                Err(e) => {
                    &&& e == PipelineError::NegotiationInProgress
                    &&& old(self)@.local is Some
                    &&& final(self)@ == old(self)@
                },
            },
    {
        if self.local.is_some() {
            Err(PipelineError::NegotiationInProgress)
        } else {
            self.local = Some(kind);
            Ok(())
        }
    }

    /// Starts creating a local offer; fails at once while a local description is being
    /// created.
    pub fn create_local_offer(&mut self) -> (r: Result<(), PipelineError>)
        requires
            old(self).wf(),
        ensures
            final(self).wf(),
            match r {
                Ok(_) => {
                    &&& old(self)@.local is None
                    &&& final(self)@ == (PipelineView { local: Some(SdpKind::Offer), ..old(self)@ })
                },
                Err(e) => {
                    &&& e == PipelineError::NegotiationInProgress
                    &&& old(self)@.local is Some
                    &&& final(self)@ == old(self)@
                },
            },
    {
        self.begin_local(SdpKind::Offer)
    }

    /// Starts creating a local answer; fails at once while a local description is being
    /// created.
    pub fn create_local_answer(&mut self) -> (r: Result<(), PipelineError>)
        requires
            old(self).wf(),
        ensures
            final(self).wf(),
            match r {
                Ok(_) => {
                    &&& old(self)@.local is None
                    &&& final(self)@ == (PipelineView { local: Some(SdpKind::Answer), ..old(self)@ })
                },
                Err(e) => {
                    &&& e == PipelineError::NegotiationInProgress
                    &&& old(self)@.local is Some
                    &&& final(self)@ == old(self)@
                },
            },
    {
        self.begin_local(SdpKind::Answer)
    }

    /// The engine finished creating the local description of `kind` with `outcome`. The waiter
    /// gets `outcome` where that step is outstanding, and `Cancelled` otherwise.
    pub fn local_description_done(
        &mut self,
        kind: SdpKind,
        outcome: Result<String, PipelineError>,
    ) -> (r: Result<String, PipelineError>)
        requires
            old(self).wf(),
        ensures
            final(self).wf(),
            if old(self)@.local == Some(kind) {
                &&& r == outcome
                &&& final(self)@ == (PipelineView { local: None, ..old(self)@ })
            } else {
                &&& r == Err::<String, PipelineError>(PipelineError::Cancelled)
                &&& final(self)@ == old(self)@
            },
    {
        if self.local == Some(kind) {
            self.local = None;
            outcome
        } else {
            Err(PipelineError::Cancelled)
        }
    }

    /// Starts applying a remote description of `kind`. Only one may be outstanding: a second
    /// one fails at once, changing nothing.
    pub fn apply_remote_description(&mut self, kind: SdpKind) -> (r: Result<(), PipelineError>)
        requires
            old(self).wf(),
        ensures
            final(self).wf(),
            match r {
                Ok(_) => {
                    &&& old(self)@.remote is None
                    &&& final(self)@ == (PipelineView { remote: Some(kind), ..old(self)@ })
                },
                Err(e) => {
                    &&& e == PipelineError::NegotiationInProgress
                    &&& old(self)@.remote is Some
                    &&& final(self)@ == old(self)@
                },
            },
    {
        if self.remote.is_some() {
            Err(PipelineError::NegotiationInProgress)
        } else {
            self.remote = Some(kind);
            Ok(())
        }
    }

    /// The engine finished applying the remote description of `kind` with `outcome`. Where that
    /// step is outstanding the waiter gets `outcome`, and the graph has a remote description
    /// from then on if it succeeded; a failed one (`MalformedSdp`) changes nothing else.
    /// Otherwise the waiter gets `Cancelled`.
    pub fn remote_description_done(
        &mut self,
        kind: SdpKind,
        outcome: Result<(), PipelineError>,
    ) -> (r: Result<(), PipelineError>)
        requires
            old(self).wf(),
        ensures
            final(self).wf(),
            if old(self)@.remote == Some(kind) {
                &&& r == outcome
                &&& final(self)@ == (PipelineView {
                    remote: None,
                    has_remote: old(self)@.has_remote || outcome is Ok,
                    ..old(self)@
                })
            } else {
                &&& r == Err::<(), PipelineError>(PipelineError::Cancelled)
                &&& final(self)@ == old(self)@
            },
    {
        if self.remote == Some(kind) {
            self.remote = None;
            if outcome.is_ok() {
                self.has_remote = true;
            }
            outcome
        } else {
            Err(PipelineError::Cancelled)
        }
    }
}

/// Setting a track's volume to the same value twice leaves the graph as setting it once, and
/// the track is still there to be set.
pub proof fn lemma_set_volume_idempotent(h: PipelineView, name: Seq<char>, value: int)
    ensures
        volume_set(volume_set(h, name, value), name, value) == volume_set(h, name, value),
        has_track(volume_set(h, name, value).tracks, name) == has_track(h.tracks, name),
{
    let once = volume_set(h, name, value);
    assert(volume_set(once, name, value).tracks =~= once.tracks);
    if has_track(h.tracks, name) {
        let i = choose|i: int| 0 <= i < h.tracks.len() && #[trigger] h.tracks[i].name == name;
        assert(once.tracks[i].name == name);
    }
    if has_track(once.tracks, name) {
        let i = choose|i: int| 0 <= i < once.tracks.len() && #[trigger] once.tracks[i].name == name;
        assert(h.tracks[i].name == name);
    }
}

/// Setting a track's pan to the same value twice leaves the graph as setting it once, and the
/// track is still there to be set.
pub proof fn lemma_set_pan_idempotent(h: PipelineView, name: Seq<char>, value: int)
    ensures
        pan_set(pan_set(h, name, value), name, value) == pan_set(h, name, value),
        has_track(pan_set(h, name, value).tracks, name) == has_track(h.tracks, name),
{
    let once = pan_set(h, name, value);
    assert(pan_set(once, name, value).tracks =~= once.tracks);
    if has_track(h.tracks, name) {
        let i = choose|i: int| 0 <= i < h.tracks.len() && #[trigger] h.tracks[i].name == name;
        assert(once.tracks[i].name == name);
    }
    if has_track(once.tracks, name) {
        let i = choose|i: int| 0 <= i < once.tracks.len() && #[trigger] once.tracks[i].name == name;
        assert(h.tracks[i].name == name);
    }
}

} // verus!
