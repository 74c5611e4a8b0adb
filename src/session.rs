//! The session registry: one record per listener session id, owning at most one pipeline
//! handle, buffering ICE candidates that arrive before a remote description, and walking the
//! negotiation states.

use vstd::prelude::*;
use crate::envelope::{SdpKind, texts_view};
use crate::pipeline::{
    transition_allowed, PendingStep, PipelineError, PipelineHandle, PipelineView, TransportState, clamp_pan,
    clamp_volume, fresh_tracks, has_track, names_unique, pan_set, pending_steps, stopped,
    volume_set,
};

verus! {

/// Where a session is in its negotiation. A session starts awaiting an offer; `Closed` is
/// terminal for its pipeline.
#[derive(Clone, Copy, Debug, PartialEq, Eq, Structural)]
pub enum SessionState {
    AwaitingOffer,
    NegotiatingAnswer,
    AwaitingClientAck,
    Active,
    Closed,
}

#[derive(Clone, Copy, Debug, PartialEq, Eq, Structural)]
pub enum RegistryError {
    /// No session has that id.
    UnknownSession,
    /// The message does not fit the session's negotiation state.
    OutOfOrderMessage,
    /// The session has no pipeline.
    NoPipeline,
    /// The pipeline refused the operation.
    Pipeline(PipelineError),
}

/// A remote ICE candidate.
#[derive(Clone, Debug, PartialEq, Eq)]
pub struct IceCandidate {
    pub mline: u32,
    pub candidate: String,
}

pub struct IceView {
    pub mline: u32,
    pub candidate: Seq<char>,
}

impl View for IceCandidate {
    type V = IceView;

    open spec fn view(&self) -> IceView {
        IceView { mline: self.mline, candidate: self.candidate@ }
    }
}

pub open spec fn ice_view(v: Seq<IceCandidate>) -> Seq<IceView> {
    v.map_values(|c: IceCandidate| c@)
}

/// A pipeline handle taken out of a session: stopped, with the steps that were outstanding on
/// it, whose waiters are to be told `Cancelled`.
#[derive(Debug)]
pub struct Retired {
    pub handle: PipelineHandle,
    pub cancelled: Vec<PendingStep>,
}

pub open spec fn retired_from(r: Retired, h: PipelineView) -> bool {
    &&& r.handle@ == stopped(h)
    &&& r.cancelled@ == pending_steps(h)
    &&& r.handle.wf()
}

pub open spec fn retired_opt(r: Option<Retired>, h: Option<PipelineView>) -> bool {
    match h {
        Some(h) => r is Some && retired_from(r->0, h),
        None => r is None,
    }
}

#[derive(Debug)]
pub struct Session {
    id: String,
    state: SessionState,
    pipeline: Option<PipelineHandle>,
    pending_ice: Vec<IceCandidate>,
    created_at: u64,
    last_activity: u64,
}

/// A session as values.
pub struct SessionView {
    pub id: Seq<char>,
    pub state: SessionState,
    pub pipeline: Option<PipelineView>,
    pub pending_ice: Seq<IceView>,
    pub created_at: u64,
    pub last_activity: u64,
}

impl View for Session {
    type V = SessionView;

    closed spec fn view(&self) -> SessionView {
        SessionView {
            id: self.id@,
            state: self.state,
            pipeline: match self.pipeline {
                Some(p) => Some(p@),
                None => None,
            },
            pending_ice: ice_view(self.pending_ice@),
            created_at: self.created_at,
            last_activity: self.last_activity,
        }
    }
}

impl Session {
    pub closed spec fn wf(&self) -> bool {
        match self.pipeline {
            Some(p) => p.wf(),
            None => true,
        }
    }
}

/// Whether a remote description has been applied to the session's current pipeline.
pub open spec fn has_remote(s: SessionView) -> bool {
    s.pipeline is Some && s.pipeline->0.has_remote
}

/// A fresh session: awaiting an offer, no pipeline, nothing buffered.
pub open spec fn fresh_session(id: Seq<char>, now: u64) -> SessionView {
    SessionView {
        id,
        state: SessionState::AwaitingOffer,
        pipeline: None,
        pending_ice: Seq::empty(),
        created_at: now,
        last_activity: now,
    }
}

/// What reaches a session's ICE buffer, in arrival order.
pub enum IceEvent {
    /// A remote candidate arrived.
    Candidate(IceView),
    /// A remote description was applied.
    RemoteApplied,
}

/// A session's ICE buffer: whether a remote description exists, the candidates held back, and
/// the candidates handed to the pipeline so far.
pub struct IceGate {
    pub has_remote: bool,
    pub pending: Seq<IceView>,
    pub applied: Seq<IceView>,
}

/// One event on the buffer: a candidate is applied at once where a remote description exists
/// and held back otherwise; a remote description releases everything held back, in order.
pub open spec fn gate_step(g: IceGate, e: IceEvent) -> IceGate {
    match e {
        IceEvent::Candidate(c) => if g.has_remote {
            IceGate { applied: g.applied.push(c), ..g }
        } else {
            IceGate { pending: g.pending.push(c), ..g }
        },
        IceEvent::RemoteApplied => IceGate {
            has_remote: true,
            pending: Seq::empty(),
            applied: g.applied + g.pending,
        },
    }
}

/// The buffer after `events`, starting empty with no remote description.
pub open spec fn gate_run(events: Seq<IceEvent>) -> IceGate
    decreases events.len(),
{
    if events.len() == 0 {
        IceGate { has_remote: false, pending: Seq::empty(), applied: Seq::empty() }
    } else {
        gate_step(gate_run(events.drop_last()), events.last())
    }
}

/// The candidates among `events`, in arrival order.
pub open spec fn candidates_in(events: Seq<IceEvent>) -> Seq<IceView>
    decreases events.len(),
{
    if events.len() == 0 {
        Seq::empty()
    } else {
        let rest = candidates_in(events.drop_last());
        match events.last() {
            IceEvent::Candidate(c) => rest.push(c),
            IceEvent::RemoteApplied => rest,
        }
    }
}

pub open spec fn remote_in(events: Seq<IceEvent>) -> bool {
    exists|i: int| 0 <= i < events.len() && #[trigger] events[i] is RemoteApplied
}

/// Once a remote description has been applied, every candidate that arrived, before or after
/// it, has been applied exactly once and in arrival order, and nothing is held back. Before
/// that, every candidate is held back, in arrival order.
pub proof fn lemma_ice_applied_once_in_order(events: Seq<IceEvent>)
    ensures
        gate_run(events).applied + gate_run(events).pending == candidates_in(events),
        gate_run(events).has_remote == remote_in(events),
        remote_in(events) ==> gate_run(events).pending.len() == 0
            && gate_run(events).applied == candidates_in(events),
        !remote_in(events) ==> gate_run(events).applied.len() == 0
            && gate_run(events).pending == candidates_in(events),
    decreases events.len(),
{
    if events.len() > 0 {
        let rest = events.drop_last();
        lemma_ice_applied_once_in_order(rest);
        let g = gate_run(rest);
        assert(remote_in(events) == (remote_in(rest) || events.last() is RemoteApplied)) by {
            if remote_in(rest) {
                let i = choose|i: int| 0 <= i < rest.len() && #[trigger] rest[i] is RemoteApplied;
                assert(events[i] == rest[i]);
            }
            if events.last() is RemoteApplied {
                assert(events[events.len() - 1] is RemoteApplied);
            }
            if remote_in(events) && !(events.last() is RemoteApplied) {
                let i = choose|i: int| 0 <= i < events.len() && #[trigger] events[i] is RemoteApplied;
                assert(rest[i] == events[i]);
            }
        }
        match events.last() {
            IceEvent::Candidate(c) => {
                if g.has_remote {
                    assert(g.pending.len() == 0);
                    assert(g.applied.push(c) + g.pending =~= (g.applied + g.pending).push(c));
                } else {
                    assert(g.applied + g.pending.push(c) =~= (g.applied + g.pending).push(c));
                }
            },
            IceEvent::RemoteApplied => {
                assert(g.applied + g.pending + Seq::<IceView>::empty() =~= g.applied + g.pending);
            },
        }
    } else {
        assert(Seq::<IceView>::empty() + Seq::<IceView>::empty() =~= Seq::<IceView>::empty());
    }
}

/// The registry of live sessions, keyed by id.
#[derive(Debug)]
pub struct SessionRegistry {
    sessions: Vec<Session>,
    next_serial: u64,
}

/// The registry as values: sessions by id, and the serial the next pipeline gets.
pub struct RegistryView {
    pub sessions: Map<Seq<char>, SessionView>,
    pub next_serial: u64,
}

pub open spec fn ids_unique(s: Seq<Session>) -> bool {
    forall|i: int, k: int| 0 <= i < k < s.len() ==> s[i]@.id != s[k]@.id
}

pub open spec fn has_id(s: Seq<Session>, id: Seq<char>) -> bool {
    exists|i: int| 0 <= i < s.len() && #[trigger] s[i]@.id == id
}

pub open spec fn sessions_map(s: Seq<Session>) -> Map<Seq<char>, SessionView> {
    Map::new(
        |k: Seq<char>| has_id(s, k),
        |k: Seq<char>| s[choose|i: int| 0 <= i < s.len() && #[trigger] s[i]@.id == k]@,
    )
}

proof fn lemma_lookup(s: Seq<Session>, i: int)
    requires
        ids_unique(s),
        0 <= i < s.len(),
    ensures
        sessions_map(s).contains_key(s[i]@.id),
        sessions_map(s)[s[i]@.id] == s[i]@,
{
    let k = s[i]@.id;
    assert(has_id(s, k));
    let j = choose|j: int| 0 <= j < s.len() && #[trigger] s[j]@.id == k;
    assert(j == i);
}

proof fn lemma_push(s: Seq<Session>, x: Session)
    requires
        ids_unique(s),
        !has_id(s, x@.id),
    ensures
        ids_unique(s.push(x)),
        sessions_map(s.push(x)) == sessions_map(s).insert(x@.id, x@),
{
    let t = s.push(x);
    assert forall|i: int, k: int| 0 <= i < k < t.len() implies t[i]@.id != t[k]@.id by {
        if k == s.len() {
            assert(s[i]@.id != x@.id);
        } else {
            assert(s[i] == t[i] && s[k] == t[k]);
        }
    }
    assert forall|k: Seq<char>| #[trigger] has_id(t, k) == (has_id(s, k) || k == x@.id) by {
        if has_id(s, k) {
            let i = choose|i: int| 0 <= i < s.len() && #[trigger] s[i]@.id == k;
            assert(t[i] == s[i]);
        }
        if k == x@.id {
            assert(t[s.len() as int] == x);
        }
        if has_id(t, k) && k != x@.id {
            let i = choose|i: int| 0 <= i < t.len() && #[trigger] t[i]@.id == k;
            assert(s[i] == t[i]);
        }
    }
    assert forall|k: Seq<char>| #[trigger] sessions_map(t).contains_key(k) implies sessions_map(
        t,
    )[k] == sessions_map(s).insert(x@.id, x@)[k] by {
        let i = choose|i: int| 0 <= i < t.len() && #[trigger] t[i]@.id == k;
        lemma_lookup(t, i);
        if k != x@.id {
            assert(i < s.len());
            assert(s[i] == t[i]);
            lemma_lookup(s, i);
        }
    }
    assert(sessions_map(t) =~= sessions_map(s).insert(x@.id, x@));
}

proof fn lemma_remove(s: Seq<Session>, i: int)
    requires
        ids_unique(s),
        0 <= i < s.len(),
    ensures
        ids_unique(s.remove(i)),
        !has_id(s.remove(i), s[i]@.id),
        sessions_map(s.remove(i)) == sessions_map(s).remove(s[i]@.id),
{
    let t = s.remove(i);
    let gone = s[i]@.id;
    assert forall|a: int| 0 <= a < t.len() implies #[trigger] t[a] == s[if a < i { a } else { a + 1 }] by {}
    assert forall|a: int, b: int| 0 <= a < b < t.len() implies t[a]@.id != t[b]@.id by {
        assert(t[a] == s[if a < i { a } else { a + 1 }]);
        assert(t[b] == s[if b < i { b } else { b + 1 }]);
    }
    assert forall|k: Seq<char>| #[trigger] has_id(t, k) == (has_id(s, k) && k != gone) by {
        if has_id(t, k) {
            let a = choose|a: int| 0 <= a < t.len() && #[trigger] t[a]@.id == k;
            assert(t[a] == s[if a < i { a } else { a + 1 }]);
        }
        if has_id(s, k) && k != gone {
            let a = choose|a: int| 0 <= a < s.len() && #[trigger] s[a]@.id == k;
            let b = if a < i { a } else { a - 1 };
            assert(t[b] == s[a]);
        }
    }
    assert forall|k: Seq<char>| #[trigger] sessions_map(t).contains_key(k) implies sessions_map(
        t,
    )[k] == sessions_map(s)[k] by {
        let a = choose|a: int| 0 <= a < t.len() && #[trigger] t[a]@.id == k;
        lemma_lookup(t, a);
        assert(t[a] == s[if a < i { a } else { a + 1 }]);
        lemma_lookup(s, if a < i { a } else { a + 1 });
    }
    assert(sessions_map(t) =~= sessions_map(s).remove(gone));
}


/// The serial that follows `n`, wrapping.
pub open spec fn serial_after(n: u64) -> u64 {
    if n == u64::MAX {
        0
    } else {
        (n + 1) as u64
    }
}

/// The pipeline that a build over `names` yields: fresh tracks, stopped, nothing negotiated.
pub open spec fn built_pipeline(serial: u64, names: Seq<Seq<char>>) -> PipelineView {
    PipelineView {
        serial,
        tracks: fresh_tracks(names),
        transport: TransportState::Null,
        local: None,
        remote: None,
        has_remote: false,
    }
}

/// The session that a (re)build for `id` starts from: the live one, or a fresh one where
/// there is none or it is closed.
pub open spec fn rebuild_base(reg: RegistryView, id: Seq<char>, now: u64) -> SessionView {
    if reg.sessions.contains_key(id) && reg.sessions[id].state != SessionState::Closed {
        reg.sessions[id]
    } else {
        fresh_session(id, now)
    }
}

/// The pipeline currently held for `id`, if any.
pub open spec fn pipeline_of(reg: RegistryView, id: Seq<char>) -> Option<PipelineView> {
    if reg.sessions.contains_key(id) {
        reg.sessions[id].pipeline
    } else {
        None
    }
}

/// The registry after `create_or_replace(id, names)` at time `now`.
pub open spec fn replaced(reg: RegistryView, id: Seq<char>, names: Seq<Seq<char>>, now: u64) -> RegistryView {
    let base = rebuild_base(reg, id, now);
    if names_unique(names) {
        RegistryView {
            sessions: reg.sessions.insert(
                id,
                SessionView {
                    pipeline: Some(built_pipeline(reg.next_serial, names)),
                    last_activity: now,
                    ..base
                },
            ),
            next_serial: serial_after(reg.next_serial),
        }
    } else {
        RegistryView {
            sessions: reg.sessions.insert(
                id,
                SessionView {
                    state: SessionState::Closed,
                    pipeline: None,
                    last_activity: now,
                    ..base
                },
            ),
            ..reg
        }
    }
}

/// The number of sessions of `reg` whose id is `id` and that hold a pipeline.
pub open spec fn live_pipelines(reg: RegistryView, id: Seq<char>) -> nat {
    if pipeline_of(reg, id) is Some {
        1
    } else {
        0
    }
}

/// Two rebuilds in a row leave the session with exactly one live pipeline, the one the second
/// call built. The pipeline that the second call finds is the first one built, which
/// `create_or_replace` hands back stopped (transport `Null`, nothing outstanding) before it
/// builds the new one.
pub proof fn lemma_replace_twice(
    reg: RegistryView,
    id: Seq<char>,
    first: Seq<Seq<char>>,
    second: Seq<Seq<char>>,
    now: u64,
)
    requires
        names_unique(first),
        names_unique(second),
    ensures
        ({
            let once = replaced(reg, id, first, now);
            let twice = replaced(once, id, second, now);
            &&& pipeline_of(once, id) == Some(built_pipeline(reg.next_serial, first))
            &&& pipeline_of(twice, id) == Some(built_pipeline(once.next_serial, second))
            &&& live_pipelines(twice, id) == 1
        }),
{
}

/// The session `s` moved to state `st` at time `now`.
pub open spec fn moved(s: SessionView, st: SessionState, now: u64) -> SessionView {
    SessionView { state: st, last_activity: now, ..s }
}

/// The registry after `close(id)` at time `now`.
pub open spec fn after_close(reg: RegistryView, id: Seq<char>, now: u64) -> RegistryView {
    if reg.sessions.contains_key(id) {
        with_session(
            reg,
            id,
            SessionView {
                state: SessionState::Closed,
                pipeline: None,
                last_activity: now,
                ..reg.sessions[id]
            },
        )
    } else {
        reg
    }
}

/// Whether `s` has seen no activity for `idle_after` or longer at time `now`.
pub open spec fn is_idle(s: SessionView, now: u64, idle_after: u64) -> bool {
    s.last_activity as int + idle_after as int <= now as int
}

/// The registry with the session `id` set to `s`.
pub open spec fn with_session(reg: RegistryView, id: Seq<char>, s: SessionView) -> RegistryView {
    RegistryView { sessions: reg.sessions.insert(id, s), ..reg }
}


/// The pipeline `p` after the engine reported on applying a remote description of `kind`.
pub open spec fn remote_reported(p: PipelineView, kind: SdpKind, ok: bool) -> PipelineView {
    if p.remote == Some(kind) {
        PipelineView { remote: None, has_remote: p.has_remote || ok, ..p }
    } else {
        p
    }
}

/// Whether the session `id` holds the pipeline numbered `serial`.
pub open spec fn holds_pipeline(reg: RegistryView, id: Seq<char>, serial: u64) -> bool {
    &&& reg.sessions.contains_key(id)
    &&& reg.sessions[id].pipeline is Some
    &&& reg.sessions[id].pipeline->0.serial == serial
}

proof fn lemma_remove_insert(m: Map<Seq<char>, SessionView>, k: Seq<char>, v: SessionView)
    ensures
        m.remove(k).insert(k, v) == m.insert(k, v),
{
    assert(m.remove(k).insert(k, v) =~= m.insert(k, v));
}

impl View for SessionRegistry {
    type V = RegistryView;

    closed spec fn view(&self) -> RegistryView {
        RegistryView { sessions: sessions_map(self.sessions@), next_serial: self.next_serial }
    }
}

impl SessionRegistry {
    pub closed spec fn wf(&self) -> bool {
        &&& ids_unique(self.sessions@)
        &&& forall|i: int| 0 <= i < self.sessions@.len() ==> #[trigger] self.sessions@[i].wf()
    }

    pub fn new() -> (r: SessionRegistry)
        ensures
            r.wf(),
            r@.sessions == Map::<Seq<char>, SessionView>::empty(),
            r@.next_serial == 0,
    {
        let r = SessionRegistry { sessions: Vec::new(), next_serial: 0 };
        assert(sessions_map(r.sessions@) =~= Map::<Seq<char>, SessionView>::empty());
        r
    }

    fn index_of(&self, id: &str) -> (r: Option<usize>)
        requires
            self.wf(),
        ensures
            match r {
                Some(i) => i < self.sessions@.len() && self.sessions@[i as int]@.id == id@
                    && self@.sessions.contains_key(id@) && self@.sessions[id@]
                    == self.sessions@[i as int]@,
                None => !self@.sessions.contains_key(id@),
            },
    {
        let mut i: usize = 0;
        while i < self.sessions.len()
            invariant
                self.wf(),
                i <= self.sessions@.len(),
                forall|k: int| 0 <= k < i ==> #[trigger] self.sessions@[k]@.id != id@,
            decreases self.sessions.len() - i,
        {
            if self.sessions[i].id == String::from_str(id) {
                proof {
                    lemma_lookup(self.sessions@, i as int);
                }
                return Some(i);
            }
            i += 1;
        }
        None
    }

    /// Takes the session at `i` out of the list.
    fn take(&mut self, i: usize) -> (r: Session)
        requires
            old(self).wf(),
            i < old(self).sessions@.len(),
        ensures
            r == old(self).sessions@[i as int],
            r.wf(),
            final(self).wf(),
            !final(self)@.sessions.contains_key(r@.id),
            final(self)@ == (RegistryView {
                sessions: old(self)@.sessions.remove(r@.id),
                ..old(self)@
            }),
    {
        proof {
            lemma_remove(self.sessions@, i as int);
        }
        let r = self.sessions.remove(i);
        proof {
            assert forall|k: int| 0 <= k < self.sessions@.len() implies #[trigger] self.sessions@[k].wf() by {
                assert(self.sessions@[k] == old(self).sessions@[if k < i { k } else { k + 1 }]);
            }
        }
        r
    }

    /// Puts a session whose id is not in the registry into it.
    fn put(&mut self, s: Session)
        requires
            old(self).wf(),
            s.wf(),
            !old(self)@.sessions.contains_key(s@.id),
        ensures
            final(self).wf(),
            final(self)@ == (RegistryView {
                sessions: old(self)@.sessions.insert(s@.id, s@),
                ..old(self)@
            }),
    {
        proof {
            lemma_push(self.sessions@, s);
        }
        self.sessions.push(s);
        proof {
            assert forall|k: int| 0 <= k < self.sessions@.len() implies #[trigger] self.sessions@[k].wf() by {
                if k < old(self).sessions@.len() {
                    assert(self.sessions@[k] == old(self).sessions@[k]);
                }
            }
        }
    }

    /// Records a session for `id`, awaiting an offer, where there is none; returns whether it
    /// was created.
    pub fn ensure_session(&mut self, id: &str, now: u64) -> (r: bool)
        requires
            old(self).wf(),
        ensures
            final(self).wf(),
            r == !old(self)@.sessions.contains_key(id@),
            final(self)@ == if r {
                with_session(old(self)@, id@, fresh_session(id@, now))
            } else {
                old(self)@
            },
    {
        if self.index_of(id).is_some() {
            return false;
        }
        let s = Session {
            id: String::from_str(id),
            state: SessionState::AwaitingOffer,
            pipeline: None,
            pending_ice: Vec::new(),
            created_at: now,
            last_activity: now,
        };
        assert(s@.pending_ice =~= Seq::<IceView>::empty());
        self.put(s);
        true
    }

    /// Builds a new pipeline for `id` over the track list `names`. A pipeline that the session
    /// already holds is stopped and taken out before the new one is built, and is handed back
    /// with its abandoned steps. A closed or missing session starts afresh. Where a name repeats
    /// the build fails and the session is closed, holding no pipeline. Returns the new
    /// pipeline's serial.
    pub fn create_or_replace(&mut self, id: &str, names: &Vec<String>, now: u64) -> (r: (
        Result<u64, PipelineError>,
        Option<Retired>,
    ))
        requires
            old(self).wf(),
        ensures
            final(self).wf(),
            final(self)@ == replaced(old(self)@, id@, texts_view(names@), now),
            retired_opt(r.1, pipeline_of(old(self)@, id@)),
            match r.0 {
                Ok(serial) => serial == old(self)@.next_serial && names_unique(texts_view(names@)),
                Err(e) => e == PipelineError::DuplicateTrack && !names_unique(texts_view(names@)),
            },
    {
        let ghost base = rebuild_base(self@, id@, now);
        let (session, retired) = match self.index_of(id) {
            Some(i) => {
                let Session { id: sid, state, pipeline, pending_ice, created_at, last_activity } =
                    self.take(i);
                let retired = match pipeline {
                    Some(mut h) => {
                        let cancelled = h.shutdown();
                        Some(Retired { handle: h, cancelled })
                    },
                    None => None,
                };
                let session = if state == SessionState::Closed {
                    Session {
                        id: sid,
                        state: SessionState::AwaitingOffer,
                        pipeline: None,
                        pending_ice: Vec::new(),
                        created_at: now,
                        last_activity: now,
                    }
                } else {
                    assert(state != SessionState::Closed);
                    Session { id: sid, state, pipeline: None, pending_ice, created_at, last_activity }
                };
                proof {
                    if state == SessionState::Closed {
                        assert(session@.pending_ice =~= Seq::<IceView>::empty());
                    }
                }
                (session, retired)
            },
            None => {
                let session = Session {
                    id: String::from_str(id),
                    state: SessionState::AwaitingOffer,
                    pipeline: None,
                    pending_ice: Vec::new(),
                    created_at: now,
                    last_activity: now,
                };
                assert(session@.pending_ice =~= Seq::<IceView>::empty());
                (session, None)
            },
        };
        assert(session@ == (SessionView { pipeline: None, ..base }));
        assert(self@.sessions =~= old(self)@.sessions.remove(id@));
        assert(self@.next_serial == old(self)@.next_serial);
        let serial = self.next_serial;
        match PipelineHandle::build(serial, names) {
            Ok(h) => {
                let Session { id: sid, state, pipeline: _, pending_ice, created_at, last_activity: _ } =
                    session;
                let s = Session {
                    id: sid,
                    state,
                    pipeline: Some(h),
                    pending_ice,
                    created_at,
                    last_activity: now,
                };
                self.next_serial = serial.wrapping_add(1);
                self.put(s);
                assert(old(self)@.sessions.remove(id@).insert(id@, s@) =~= old(self)@.sessions.insert(id@, s@));
                (Ok(serial), retired)
            },
            Err(e) => {
                let Session { id: sid, state: _, pipeline: _, pending_ice, created_at, last_activity: _ } =
                    session;
                let s = Session {
                    id: sid,
                    state: SessionState::Closed,
                    pipeline: None,
                    pending_ice,
                    created_at,
                    last_activity: now,
                };
                self.put(s);
                assert(old(self)@.sessions.remove(id@).insert(id@, s@) =~= old(self)@.sessions.insert(id@, s@));
                (Err(e), retired)
            },
        }
    }

    /// Moves the session `id` to `to` where its state is `from_a` or `from_b`.
    fn advance(
        &mut self,
        id: &str,
        from_a: SessionState,
        from_b: SessionState,
        to: SessionState,
        now: u64,
    ) -> (r: Result<(), RegistryError>)
        requires
            old(self).wf(),
        ensures
            final(self).wf(),
            match r {
                Ok(_) => {
                    &&& old(self)@.sessions.contains_key(id@)
                    &&& (old(self)@.sessions[id@].state == from_a || old(self)@.sessions[id@].state
                        == from_b)
                    &&& final(self)@ == with_session(
                        old(self)@,
                        id@,
                        moved(old(self)@.sessions[id@], to, now),
                    )
                },
                Err(e) => {
                    &&& final(self)@ == old(self)@
                    &&& if old(self)@.sessions.contains_key(id@) {
                        &&& e == RegistryError::OutOfOrderMessage
                        &&& old(self)@.sessions[id@].state != from_a
                        &&& old(self)@.sessions[id@].state != from_b
                    } else {
                        e == RegistryError::UnknownSession
                    }
                },
            },
    {
        let i = match self.index_of(id) {
            Some(i) => i,
            None => return Err(RegistryError::UnknownSession),
        };
        let st = self.sessions[i].state;
        if st != from_a && st != from_b {
            return Err(RegistryError::OutOfOrderMessage);
        }
        let Session { id: sid, state: _, pipeline, pending_ice, created_at, last_activity: _ } =
            self.take(i);
        let s = Session { id: sid, state: to, pipeline, pending_ice, created_at, last_activity: now };
        self.put(s);
        proof {
            lemma_remove_insert(old(self)@.sessions, id@, s@);
        }
        Ok(())
    }

    /// A client offer arrived for `id`: allowed while awaiting an offer, or when active (a
    /// rebuild); the session then negotiates an answer.
    pub fn apply_remote_offer(&mut self, id: &str, now: u64) -> (r: Result<(), RegistryError>)
        requires
            old(self).wf(),
        ensures
            final(self).wf(),
            match r {
                Ok(_) => {
                    &&& old(self)@.sessions.contains_key(id@)
                    &&& (old(self)@.sessions[id@].state == SessionState::AwaitingOffer
                        || old(self)@.sessions[id@].state == SessionState::Active)
                    &&& final(self)@ == with_session(
                        old(self)@,
                        id@,
                        moved(old(self)@.sessions[id@], SessionState::NegotiatingAnswer, now),
                    )
                },
                Err(e) => {
                    &&& final(self)@ == old(self)@
                    &&& if old(self)@.sessions.contains_key(id@) {
                        &&& e == RegistryError::OutOfOrderMessage
                        &&& old(self)@.sessions[id@].state != SessionState::AwaitingOffer
                        &&& old(self)@.sessions[id@].state != SessionState::Active
                    } else {
                        e == RegistryError::UnknownSession
                    }
                },
            },
    {
        self.advance(
            id,
            SessionState::AwaitingOffer,
            SessionState::Active,
            SessionState::NegotiatingAnswer,
            now,
        )
    }

    /// The answer for `id` was produced and sent to the client.
    pub fn answer_ready(&mut self, id: &str, now: u64) -> (r: Result<(), RegistryError>)
        requires
            old(self).wf(),
        ensures
            final(self).wf(),
            match r {
                Ok(_) => {
                    &&& old(self)@.sessions.contains_key(id@)
                    &&& old(self)@.sessions[id@].state == SessionState::NegotiatingAnswer
                    &&& final(self)@ == with_session(
                        old(self)@,
                        id@,
                        moved(old(self)@.sessions[id@], SessionState::AwaitingClientAck, now),
                    )
                },
                Err(e) => {
                    &&& final(self)@ == old(self)@
                    &&& if old(self)@.sessions.contains_key(id@) {
                        &&& e == RegistryError::OutOfOrderMessage
                        &&& old(self)@.sessions[id@].state != SessionState::NegotiatingAnswer
                    } else {
                        e == RegistryError::UnknownSession
                    }
                },
            },
    {
        self.advance(
            id,
            SessionState::NegotiatingAnswer,
            SessionState::NegotiatingAnswer,
            SessionState::AwaitingClientAck,
            now,
        )
    }

    /// The transport of `id` connected.
    pub fn transport_connected(&mut self, id: &str, now: u64) -> (r: Result<(), RegistryError>)
        requires
            old(self).wf(),
        ensures
            final(self).wf(),
            match r {
                Ok(_) => {
                    &&& old(self)@.sessions.contains_key(id@)
                    &&& old(self)@.sessions[id@].state == SessionState::AwaitingClientAck
                    &&& final(self)@ == with_session(
                        old(self)@,
                        id@,
                        moved(old(self)@.sessions[id@], SessionState::Active, now),
                    )
                },
                Err(e) => {
                    &&& final(self)@ == old(self)@
                    &&& if old(self)@.sessions.contains_key(id@) {
                        &&& e == RegistryError::OutOfOrderMessage
                        &&& old(self)@.sessions[id@].state != SessionState::AwaitingClientAck
                    } else {
                        e == RegistryError::UnknownSession
                    }
                },
            },
    {
        self.advance(
            id,
            SessionState::AwaitingClientAck,
            SessionState::AwaitingClientAck,
            SessionState::Active,
            now,
        )
    }

    /// Closes the session `id`: its pipeline is stopped and handed back, and the record stays,
    /// closed. Nothing happens where there is no such session.
    pub fn close(&mut self, id: &str, now: u64) -> (r: Option<Retired>)
        requires
            old(self).wf(),
        ensures
            final(self).wf(),
            retired_opt(r, pipeline_of(old(self)@, id@)),
            final(self)@ == after_close(old(self)@, id@, now),
    {
        let i = match self.index_of(id) {
            Some(i) => i,
            None => return None,
        };
        let Session { id: sid, state: _, pipeline, pending_ice, created_at, last_activity: _ } =
            self.take(i);
        let retired = match pipeline {
            Some(mut h) => {
                let cancelled = h.shutdown();
                Some(Retired { handle: h, cancelled })
            },
            None => None,
        };
        let s = Session {
            id: sid,
            state: SessionState::Closed,
            pipeline: None,
            pending_ice,
            created_at,
            last_activity: now,
        };
        self.put(s);
        proof {
            lemma_remove_insert(old(self)@.sessions, id@, s@);
        }
        retired
    }

    /// Removes the session `id`, handing back its pipeline stopped. Removing an absent session
    /// changes nothing.
    pub fn evict(&mut self, id: &str) -> (r: Option<Retired>)
        requires
            old(self).wf(),
        ensures
            final(self).wf(),
            retired_opt(r, pipeline_of(old(self)@, id@)),
            final(self)@ == (RegistryView {
                sessions: old(self)@.sessions.remove(id@),
                ..old(self)@
            }),
    {
        let i = match self.index_of(id) {
            Some(i) => i,
            None => {
                assert(self@.sessions.remove(id@) =~= self@.sessions);
                return None;
            },
        };
        let Session { id: _, state: _, pipeline, pending_ice: _, created_at: _, last_activity: _ } =
            self.take(i);
        match pipeline {
            Some(mut h) => {
                let cancelled = h.shutdown();
                Some(Retired { handle: h, cancelled })
            },
            None => None,
        }
    }

    /// A remote ICE candidate for `id`: handed back to be applied at once where the session's
    /// pipeline has a remote description, buffered after the ones before it otherwise.
    pub fn add_ice(&mut self, id: &str, c: IceCandidate, now: u64) -> (r: Result<
        Option<IceCandidate>,
        RegistryError,
    >)
        requires
            old(self).wf(),
        ensures
            final(self).wf(),
            match r {
                Ok(apply) => {
                    let s = old(self)@.sessions[id@];
                    let g = gate_step(
                        IceGate {
                            has_remote: has_remote(s),
                            pending: s.pending_ice,
                            applied: Seq::empty(),
                        },
                        IceEvent::Candidate(c@),
                    );
                    &&& old(self)@.sessions.contains_key(id@)
                    &&& final(self)@ == with_session(
                        old(self)@,
                        id@,
                        SessionView { pending_ice: g.pending, last_activity: now, ..s },
                    )
                    &&& match apply {
                        Some(a) => has_remote(s) && g.applied == seq![a@],
                        None => !has_remote(s) && g.applied.len() == 0,
                    }
                },
                Err(e) => {
                    &&& e == RegistryError::UnknownSession
                    &&& !old(self)@.sessions.contains_key(id@)
                    &&& final(self)@ == old(self)@
                },
            },
    {
        let i = match self.index_of(id) {
            Some(i) => i,
            None => return Err(RegistryError::UnknownSession),
        };
        let Session { id: sid, state, pipeline, mut pending_ice, created_at, last_activity: _ } =
            self.take(i);
        let remote = match &pipeline {
            Some(h) => h.has_remote_description(),
            None => false,
        };
        let apply = if remote {
            Some(c)
        } else {
            pending_ice.push(c);
            None
        };
        let s = Session { id: sid, state, pipeline, pending_ice, created_at, last_activity: now };
        self.put(s);
        proof {
            lemma_remove_insert(old(self)@.sessions, id@, s@);
            assert(ice_view(s.pending_ice@) =~= gate_step(
                IceGate {
                    has_remote: has_remote(old(self)@.sessions[id@]),
                    pending: old(self)@.sessions[id@].pending_ice,
                    applied: Seq::empty(),
                },
                IceEvent::Candidate(c@),
            ).pending);
            if remote {
                assert(seq![c@] =~= Seq::<IceView>::empty().push(c@));
            }
        }
        Ok(apply)
    }

    /// Starts applying a remote description of `kind` on the pipeline of `id`; returns the
    /// pipeline's serial.
    pub fn begin_remote(&mut self, id: &str, kind: SdpKind, now: u64) -> (r: Result<u64, RegistryError>)
        requires
            old(self).wf(),
        ensures
            final(self).wf(),
            match r {
                Ok(serial) => {
                    let s = old(self)@.sessions[id@];
                    let p = s.pipeline->0;
                    &&& holds_pipeline(old(self)@, id@, serial)
                    &&& p.remote is None
                    &&& final(self)@ == with_session(
                        old(self)@,
                        id@,
                        SessionView {
                            pipeline: Some(PipelineView { remote: Some(kind), ..p }),
                            last_activity: now,
                            ..s
                        },
                    )
                },
                Err(e) => {
                    &&& final(self)@ == old(self)@
                    &&& if !old(self)@.sessions.contains_key(id@) {
                        e == RegistryError::UnknownSession
                    } else if old(self)@.sessions[id@].pipeline is None {
                        e == RegistryError::NoPipeline
                    } else {
                        &&& e == RegistryError::Pipeline(PipelineError::NegotiationInProgress)
                        &&& old(self)@.sessions[id@].pipeline->0.remote is Some
                    }
                },
            },
    {
        let i = match self.index_of(id) {
            Some(i) => i,
            None => return Err(RegistryError::UnknownSession),
        };
        if self.sessions[i].pipeline.is_none() {
            return Err(RegistryError::NoPipeline);
        }
        let Session { id: sid, state, pipeline, pending_ice, created_at, last_activity } =
            self.take(i);
        let mut h = pipeline.unwrap();
        match h.apply_remote_description(kind) {
            Ok(_) => {
                let serial = h.serial();
                let s = Session {
                    id: sid,
                    state,
                    pipeline: Some(h),
                    pending_ice,
                    created_at,
                    last_activity: now,
                };
                self.put(s);
                proof {
                    lemma_remove_insert(old(self)@.sessions, id@, s@);
                }
                Ok(serial)
            },
            Err(e) => {
                let s = Session { id: sid, state, pipeline: Some(h), pending_ice, created_at, last_activity };
                self.put(s);
                proof {
                    lemma_remove_insert(old(self)@.sessions, id@, s@);
                    assert(old(self)@.sessions.insert(id@, s@) =~= old(self)@.sessions);
                }
                Err(RegistryError::Pipeline(e))
            },
        }
    }

    /// The engine reported `outcome` for applying a remote description of `kind` on pipeline
    /// `serial` of `id`. Where that pipeline is still the session's and the step is outstanding,
    /// the waiter gets `outcome`; otherwise it gets `Cancelled` and nothing changes. Once the
    /// pipeline has a remote description, every buffered candidate is handed back, in arrival
    /// order, to be applied, and the buffer is emptied.
    pub fn remote_done(
        &mut self,
        id: &str,
        serial: u64,
        kind: SdpKind,
        outcome: Result<(), PipelineError>,
        now: u64,
    ) -> (r: (Result<(), PipelineError>, Vec<IceCandidate>))
        requires
            old(self).wf(),
        ensures
            final(self).wf(),
            if holds_pipeline(old(self)@, id@, serial) {
                let s = old(self)@.sessions[id@];
                let p = s.pipeline->0;
                let p2 = remote_reported(p, kind, outcome is Ok);
                &&& r.0 == if p.remote == Some(kind) {
                    outcome
                } else {
                    Err(PipelineError::Cancelled)
                }
                &&& if p2.has_remote {
                    &&& ice_view(r.1@) == s.pending_ice
                    &&& final(self)@ == with_session(
                        old(self)@,
                        id@,
                        SessionView {
                            pipeline: Some(p2),
                            pending_ice: Seq::empty(),
                            last_activity: now,
                            ..s
                        },
                    )
                } else {
                    &&& r.1@.len() == 0
                    &&& final(self)@ == with_session(
                        old(self)@,
                        id@,
                        SessionView { pipeline: Some(p2), last_activity: now, ..s },
                    )
                }
            } else {
                &&& r.0 == Err::<(), PipelineError>(PipelineError::Cancelled)
                &&& r.1@.len() == 0
                &&& final(self)@ == old(self)@
            },
    {
        let i = match self.index_of(id) {
            Some(i) => i,
            None => return (Err(PipelineError::Cancelled), Vec::new()),
        };
        let current = match &self.sessions[i].pipeline {
            Some(h) => h.serial() == serial,
            None => false,
        };
        if !current {
            return (Err(PipelineError::Cancelled), Vec::new());
        }
        let Session { id: sid, state, pipeline, pending_ice, created_at, last_activity: _ } =
            self.take(i);
        let mut h = pipeline.unwrap();
        let res = h.remote_description_done(kind, outcome);
        let (flushed, kept) = if h.has_remote_description() {
            (pending_ice, Vec::new())
        } else {
            (Vec::new(), pending_ice)
        };
        let s = Session { id: sid, state, pipeline: Some(h), pending_ice: kept, created_at, last_activity: now };
        self.put(s);
        proof {
            lemma_remove_insert(old(self)@.sessions, id@, s@);
            assert(ice_view(Seq::<IceCandidate>::empty()) =~= Seq::<IceView>::empty());
        }
        (res, flushed)
    }

    /// Starts creating the local description of `kind` on the pipeline of `id`; returns the
    /// pipeline's serial. A second one while one is outstanding fails at once.
    pub fn begin_local(&mut self, id: &str, kind: SdpKind, now: u64) -> (r: Result<u64, RegistryError>)
        requires
            old(self).wf(),
        ensures
            final(self).wf(),
            match r {
                Ok(serial) => {
                    let s = old(self)@.sessions[id@];
                    let p = s.pipeline->0;
                    &&& holds_pipeline(old(self)@, id@, serial)
                    &&& p.local is None
                    &&& final(self)@ == with_session(
                        old(self)@,
                        id@,
                        SessionView {
                            pipeline: Some(PipelineView { local: Some(kind), ..p }),
                            last_activity: now,
                            ..s
                        },
                    )
                },
                Err(e) => {
                    &&& final(self)@ == old(self)@
                    &&& if !old(self)@.sessions.contains_key(id@) {
                        e == RegistryError::UnknownSession
                    } else if old(self)@.sessions[id@].pipeline is None {
                        e == RegistryError::NoPipeline
                    } else {
                        &&& e == RegistryError::Pipeline(PipelineError::NegotiationInProgress)
                        &&& old(self)@.sessions[id@].pipeline->0.local is Some
                    }
                },
            },
    {
        let i = match self.index_of(id) {
            Some(i) => i,
            None => return Err(RegistryError::UnknownSession),
        };
        if self.sessions[i].pipeline.is_none() {
            return Err(RegistryError::NoPipeline);
        }
        let Session { id: sid, state, pipeline, pending_ice, created_at, last_activity } =
            self.take(i);
        let mut h = pipeline.unwrap();
        let started = match kind {
            SdpKind::Offer => h.create_local_offer(),
            SdpKind::Answer => h.create_local_answer(),
        };
        match started {
            Ok(_) => {
                let serial = h.serial();
                let s = Session {
                    id: sid,
                    state,
                    pipeline: Some(h),
                    pending_ice,
                    created_at,
                    last_activity: now,
                };
                self.put(s);
                proof {
                    lemma_remove_insert(old(self)@.sessions, id@, s@);
                }
                Ok(serial)
            },
            Err(e) => {
                let s = Session { id: sid, state, pipeline: Some(h), pending_ice, created_at, last_activity };
                self.put(s);
                proof {
                    lemma_remove_insert(old(self)@.sessions, id@, s@);
                    assert(old(self)@.sessions.insert(id@, s@) =~= old(self)@.sessions);
                }
                Err(RegistryError::Pipeline(e))
            },
        }
    }

    /// The engine reported `outcome` for creating the local description of `kind` on pipeline
    /// `serial` of `id`. Where that pipeline is still the session's and the step is outstanding,
    /// the waiter gets `outcome`; otherwise it gets `Cancelled` and nothing changes.
    pub fn local_done(
        &mut self,
        id: &str,
        serial: u64,
        kind: SdpKind,
        outcome: Result<String, PipelineError>,
        now: u64,
    ) -> (r: Result<String, PipelineError>)
        requires
            old(self).wf(),
        ensures
            final(self).wf(),
            if holds_pipeline(old(self)@, id@, serial) && old(self)@.sessions[id@].pipeline->0.local
                == Some(kind) {
                let s = old(self)@.sessions[id@];
                &&& r == outcome
                &&& final(self)@ == with_session(
                    old(self)@,
                    id@,
                    SessionView {
                        pipeline: Some(PipelineView { local: None, ..s.pipeline->0 }),
                        last_activity: now,
                        ..s
                    },
                )
            } else {
                &&& r == Err::<String, PipelineError>(PipelineError::Cancelled)
                &&& final(self)@ == old(self)@
            },
    {
        let i = match self.index_of(id) {
            Some(i) => i,
            None => return Err(PipelineError::Cancelled),
        };
        let current = match &self.sessions[i].pipeline {
            Some(h) => h.serial() == serial && h.local_pending() == Some(kind),
            None => false,
        };
        if !current {
            return Err(PipelineError::Cancelled);
        }
        let Session { id: sid, state, pipeline, pending_ice, created_at, last_activity } =
            self.take(i);
        let mut h = pipeline.unwrap();
        let res = h.local_description_done(kind, outcome);
        let s = Session { id: sid, state, pipeline: Some(h), pending_ice, created_at, last_activity: now };
        self.put(s);
        proof {
            lemma_remove_insert(old(self)@.sessions, id@, s@);
        }
        res
    }

    /// Sets the volume of track `track` in the pipeline of `id` (see `PipelineHandle::set_volume`).
    pub fn set_track_volume(&mut self, id: &str, track: &str, value: i64, now: u64) -> (r: Result<
        u32,
        RegistryError,
    >)
        requires
            old(self).wf(),
        ensures
            final(self).wf(),
            match r {
                Ok(v) => {
                    let s = old(self)@.sessions[id@];
                    &&& pipeline_of(old(self)@, id@) is Some
                    &&& has_track(s.pipeline->0.tracks, track@)
                    &&& v == clamp_volume(value as int)
                    &&& final(self)@ == with_session(
                        old(self)@,
                        id@,
                        SessionView {
                            pipeline: Some(volume_set(s.pipeline->0, track@, value as int)),
                            last_activity: now,
                            ..s
                        },
                    )
                },
                Err(e) => {
                    &&& final(self)@ == old(self)@
                    &&& e == if !old(self)@.sessions.contains_key(id@) {
                        RegistryError::UnknownSession
                    } else if old(self)@.sessions[id@].pipeline is None {
                        RegistryError::NoPipeline
                    } else {
                        RegistryError::Pipeline(PipelineError::UnknownTrack)
                    }
                    &&& (old(self)@.sessions.contains_key(id@) && old(self)@.sessions[id@].pipeline is Some)
                        ==> !has_track(old(self)@.sessions[id@].pipeline->0.tracks, track@)
                },
            },
    {
        let i = match self.index_of(id) {
            Some(i) => i,
            None => return Err(RegistryError::UnknownSession),
        };
        if self.sessions[i].pipeline.is_none() {
            return Err(RegistryError::NoPipeline);
        }
        let Session { id: sid, state, pipeline, pending_ice, created_at, last_activity } =
            self.take(i);
        let mut h = pipeline.unwrap();
        let res = h.set_volume(track, value);
        let stamp = if res.is_ok() { now } else { last_activity };
        let s = Session { id: sid, state, pipeline: Some(h), pending_ice, created_at, last_activity: stamp };
        self.put(s);
        proof {
            lemma_remove_insert(old(self)@.sessions, id@, s@);
            if res.is_err() {
                assert(old(self)@.sessions.insert(id@, s@) =~= old(self)@.sessions);
            }
        }
        match res {
            Ok(v) => Ok(v),
            Err(e) => Err(RegistryError::Pipeline(e)),
        }
    }

    /// Sets the pan of track `track` in the pipeline of `id` (see `PipelineHandle::set_pan`).
    pub fn set_track_pan(&mut self, id: &str, track: &str, value: i64, now: u64) -> (r: Result<
        i32,
        RegistryError,
    >)
        requires
            old(self).wf(),
        ensures
            final(self).wf(),
            match r {
                Ok(v) => {
                    let s = old(self)@.sessions[id@];
                    &&& pipeline_of(old(self)@, id@) is Some
                    &&& has_track(s.pipeline->0.tracks, track@)
                    &&& v == clamp_pan(value as int)
                    &&& final(self)@ == with_session(
                        old(self)@,
                        id@,
                        SessionView {
                            pipeline: Some(pan_set(s.pipeline->0, track@, value as int)),
                            last_activity: now,
                            ..s
                        },
                    )
                },
                Err(e) => {
                    &&& final(self)@ == old(self)@
                    &&& e == if !old(self)@.sessions.contains_key(id@) {
                        RegistryError::UnknownSession
                    } else if old(self)@.sessions[id@].pipeline is None {
                        RegistryError::NoPipeline
                    } else {
                        RegistryError::Pipeline(PipelineError::UnknownTrack)
                    }
                    &&& (old(self)@.sessions.contains_key(id@) && old(self)@.sessions[id@].pipeline is Some)
                        ==> !has_track(old(self)@.sessions[id@].pipeline->0.tracks, track@)
                },
            },
    {
        let i = match self.index_of(id) {
            Some(i) => i,
            None => return Err(RegistryError::UnknownSession),
        };
        if self.sessions[i].pipeline.is_none() {
            return Err(RegistryError::NoPipeline);
        }
        let Session { id: sid, state, pipeline, pending_ice, created_at, last_activity } =
            self.take(i);
        let mut h = pipeline.unwrap();
        let res = h.set_pan(track, value);
        let stamp = if res.is_ok() { now } else { last_activity };
        let s = Session { id: sid, state, pipeline: Some(h), pending_ice, created_at, last_activity: stamp };
        self.put(s);
        proof {
            lemma_remove_insert(old(self)@.sessions, id@, s@);
            if res.is_err() {
                assert(old(self)@.sessions.insert(id@, s@) =~= old(self)@.sessions);
            }
        }
        match res {
            Ok(v) => Ok(v),
            Err(e) => Err(RegistryError::Pipeline(e)),
        }
    }

    /// Requests transport state `target` on the pipeline of `id` (see
    /// `PipelineHandle::set_transport_state`); returns the steps that stopping abandoned.
    pub fn set_transport_state(
        &mut self,
        id: &str,
        target: TransportState,
        now: u64,
    ) -> (r: Result<Vec<PendingStep>, RegistryError>)
        requires
            old(self).wf(),
        ensures
            final(self).wf(),
            match r {
                Ok(cancelled) => {
                    let s = old(self)@.sessions[id@];
                    let p = s.pipeline->0;
                    &&& pipeline_of(old(self)@, id@) is Some
                    &&& transition_allowed(p.transport, target)
                    &&& final(self)@ == with_session(
                        old(self)@,
                        id@,
                        SessionView {
                            pipeline: Some(
                                if target == TransportState::Null {
                                    stopped(p)
                                } else {
                                    PipelineView { transport: target, ..p }
                                },
                            ),
                            last_activity: now,
                            ..s
                        },
                    )
                    &&& cancelled@ == if target == TransportState::Null {
                        pending_steps(p)
                    } else {
                        Seq::empty()
                    }
                },
                Err(e) => {
                    &&& final(self)@ == old(self)@
                    &&& e == if !old(self)@.sessions.contains_key(id@) {
                        RegistryError::UnknownSession
                    } else if old(self)@.sessions[id@].pipeline is None {
                        RegistryError::NoPipeline
                    } else {
                        RegistryError::Pipeline(PipelineError::InvalidTransition)
                    }
                    &&& pipeline_of(old(self)@, id@) is Some ==> !transition_allowed(
                        old(self)@.sessions[id@].pipeline->0.transport,
                        target,
                    )
                },
            },
    {
        let i = match self.index_of(id) {
            Some(i) => i,
            None => return Err(RegistryError::UnknownSession),
        };
        if self.sessions[i].pipeline.is_none() {
            return Err(RegistryError::NoPipeline);
        }
        let Session { id: sid, state, pipeline, pending_ice, created_at, last_activity } =
            self.take(i);
        let mut h = pipeline.unwrap();
        let res = h.set_transport_state(target);
        let stamp = if res.is_ok() { now } else { last_activity };
        let s = Session { id: sid, state, pipeline: Some(h), pending_ice, created_at, last_activity: stamp };
        self.put(s);
        proof {
            lemma_remove_insert(old(self)@.sessions, id@, s@);
            if res.is_err() {
                assert(old(self)@.sessions.insert(id@, s@) =~= old(self)@.sessions);
            }
        }
        match res {
            Ok(cancelled) => {
                assert(cancelled@.len() == 0 ==> cancelled@ =~= Seq::<PendingStep>::empty());
                Ok(cancelled)
            },
            Err(e) => Err(RegistryError::Pipeline(e)),
        }
    }

    /// The levels of track `track` in the pipeline of `id`, as (volume, pan, muted).
    pub fn track_levels(&self, id: &str, track: &str) -> (r: Option<(u32, i32, bool)>)
        requires
            self.wf(),
        ensures
            match r {
                Some((v, p, m)) => {
                    let tracks = self@.sessions[id@].pipeline->0.tracks;
                    &&& pipeline_of(self@, id@) is Some
                    &&& exists|i: int|
                        0 <= i < tracks.len() && #[trigger] tracks[i].name == track@
                            && tracks[i].volume == v && tracks[i].pan == p && tracks[i].muted == m
                },
                None => pipeline_of(self@, id@) is None || !has_track(
                    self@.sessions[id@].pipeline->0.tracks,
                    track@,
                ),
            },
    {
        let i = match self.index_of(id) {
            Some(i) => i,
            None => return None,
        };
        assert(self.sessions@[i as int].wf());
        match &self.sessions[i].pipeline {
            Some(h) => h.track(track),
            None => None,
        }
    }

    /// The serial of the pipeline that `id` holds, if any.
    pub fn pipeline_serial(&self, id: &str) -> (r: Option<u64>)
        requires
            self.wf(),
        ensures
            match r {
                Some(n) => pipeline_of(self@, id@) is Some && pipeline_of(self@, id@)->0.serial == n,
                None => pipeline_of(self@, id@) is None,
            },
    {
        let i = match self.index_of(id) {
            Some(i) => i,
            None => return None,
        };
        match &self.sessions[i].pipeline {
            Some(h) => Some(h.serial()),
            None => None,
        }
    }

    /// How many candidates are held back for `id`.
    pub fn buffered_ice(&self, id: &str) -> (r: usize)
        requires
            self.wf(),
        ensures
            r == if self@.sessions.contains_key(id@) {
                self@.sessions[id@].pending_ice.len()
            } else {
                0
            },
    {
        match self.index_of(id) {
            Some(i) => self.sessions[i].pending_ice.len(),
            None => 0,
        }
    }

    /// The ids of the sessions idle for `idle_after` or longer at time `now`, for eviction.
    pub fn idle_sessions(&self, now: u64, idle_after: u64) -> (r: Vec<String>)
        requires
            self.wf(),
        ensures
            forall|k: Seq<char>|
                texts_view(r@).contains(k) <==> (self@.sessions.contains_key(k) && is_idle(
                    self@.sessions[k],
                    now,
                    idle_after,
                )),
    {
        let mut out: Vec<String> = Vec::new();
        let mut i: usize = 0;
        while i < self.sessions.len()
            invariant
                self.wf(),
                i <= self.sessions@.len(),
                forall|k: Seq<char>|
                    texts_view(out@).contains(k) <==> exists|j: int|
                        0 <= j < i && #[trigger] self.sessions@[j]@.id == k && is_idle(
                            self.sessions@[j]@,
                            now,
                            idle_after,
                        ),
            decreases self.sessions.len() - i,
        {
            let s = &self.sessions[i];
            let ghost before = texts_view(out@);
            if s.last_activity as u128 + idle_after as u128 <= now as u128 {
                out.push(s.id.clone());
                proof {
                    assert(texts_view(out@) =~= before.push(s@.id));
                    assert forall|k: Seq<char>| texts_view(out@).contains(k) <==> exists|j: int|
                        0 <= j < i + 1 && #[trigger] self.sessions@[j]@.id == k && is_idle(
                            self.sessions@[j]@,
                            now,
                            idle_after,
                        ) by {
                        if k == s@.id {
                            assert(texts_view(out@)[before.len() as int] == k);
                            assert(self.sessions@[i as int]@.id == k);
                        }
                        if texts_view(out@).contains(k) && k != s@.id {
                            let a = choose|a: int| 0 <= a < texts_view(out@).len() && texts_view(out@)[a] == k;
                            assert(before[a] == k);
                            assert(before.contains(k));
                        }
                        if exists|j: int|
                            0 <= j < i + 1 && #[trigger] self.sessions@[j]@.id == k && is_idle(
                                self.sessions@[j]@,
                                now,
                                idle_after,
                            ) {
                            if k != s@.id {
                                let j = choose|j: int|
                                    0 <= j < i + 1 && #[trigger] self.sessions@[j]@.id == k && is_idle(
                                        self.sessions@[j]@,
                                        now,
                                        idle_after,
                                    );
                                assert(j < i);
                                assert(before.contains(k));
                                let a = choose|a: int| 0 <= a < before.len() && before[a] == k;
                                assert(texts_view(out@)[a] == k);
                            }
                        }
                    }
                }
            } else {
                proof {
                    assert forall|k: Seq<char>| texts_view(out@).contains(k) <==> exists|j: int|
                        0 <= j < i + 1 && #[trigger] self.sessions@[j]@.id == k && is_idle(
                            self.sessions@[j]@,
                            now,
                            idle_after,
                        ) by {
                        if exists|j: int|
                            0 <= j < i + 1 && #[trigger] self.sessions@[j]@.id == k && is_idle(
                                self.sessions@[j]@,
                                now,
                                idle_after,
                            ) {
                            let j = choose|j: int|
                                0 <= j < i + 1 && #[trigger] self.sessions@[j]@.id == k && is_idle(
                                    self.sessions@[j]@,
                                    now,
                                    idle_after,
                                );
                            assert(j != i);
                        }
                    }
                }
            }
            i += 1;
        }
        proof {
            assert forall|k: Seq<char>| texts_view(out@).contains(k) <==> (
            self@.sessions.contains_key(k) && is_idle(self@.sessions[k], now, idle_after)) by {
                if texts_view(out@).contains(k) {
                    let j = choose|j: int|
                        0 <= j < self.sessions@.len() && #[trigger] self.sessions@[j]@.id == k
                            && is_idle(self.sessions@[j]@, now, idle_after);
                    lemma_lookup(self.sessions@, j);
                }
                if self@.sessions.contains_key(k) {
                    let j = choose|j: int| 0 <= j < self.sessions@.len() && #[trigger] self.sessions@[j]@.id == k;
                    lemma_lookup(self.sessions@, j);
                }
            }
        }
        out
    }

    /// The session `id`, if any.
    pub fn session_state(&self, id: &str) -> (r: Option<SessionState>)
        requires
            self.wf(),
        ensures
            match r {
                Some(st) => self@.sessions.contains_key(id@) && self@.sessions[id@].state == st,
                None => !self@.sessions.contains_key(id@),
            },
    {
        match self.index_of(id) {
            Some(i) => Some(self.sessions[i].state),
            None => None,
        }
    }
}

} // verus!
