//! The signaling hub: one upstream streamer connection, listener connections reached by
//! session id, a cache of the answers relayed back from upstream, and the relay policy when no
//! upstream is bound.

use vstd::prelude::*;
use crate::envelope::{ClientMessage, Envelope, SdpKind};
use crate::keyed::Keyed;
use crate::session::{
    Retired, SessionRegistry, SessionState, after_close, moved, pipeline_of, retired_opt,
    with_session,
};

verus! {

/// How many failed relays in a row a session survives by default: one immediate retry, then
/// the session is closed.
pub const DEFAULT_RETRY_LIMIT: u32 = 1;

/// What became of one attempt to relay a session's message upstream.
#[derive(Debug)]
pub enum Relay {
    /// Send it on the upstream connection `conn`.
    Sent(u64),
    /// No upstream is bound; the message may be tried again. `log` is set on the first failure
    /// of a run, so that a run is logged once.
    Retry { log: bool },
    /// No upstream is bound and the session has failed more times in a row than allowed: it is
    /// closed, and its pipeline, if any, is handed back stopped.
    GaveUp { log: bool, retired: Option<Retired> },
}

/// The relay state shared by every session. Each part keeps its own invariant.
#[derive(Debug)]
pub struct Hub {
    pub registry: SessionRegistry,
    /// The upstream streamer connection, if one is bound.
    pub upstream: Option<u64>,
    /// The connection that reaches each listener session; the hub does not own them.
    pub listeners: Keyed<u64>,
    /// The latest answer relayed back from upstream for each session.
    pub answers: Keyed<String>,
    /// Failed relays in a row, per session.
    pub relay_failures: Keyed<u32>,
    pub retry_limit: u32,
}

/// Failed relays in a row for `id`.
pub open spec fn failures_of(m: Map<Seq<char>, u32>, id: Seq<char>) -> u32 {
    if m.contains_key(id) {
        m[id]
    } else {
        0
    }
}

/// The count after one more failure, saturating.
pub open spec fn one_more(n: u32) -> u32 {
    if n == u32::MAX {
        n
    } else {
        (n + 1) as u32
    }
}

impl Hub {
    pub open spec fn wf(&self) -> bool {
        &&& self.registry.wf()
        &&& self.listeners.wf()
        &&& self.answers.wf()
        &&& self.relay_failures.wf()
    }

    /// A hub with no upstream, no sessions and no listeners.
    pub fn new(retry_limit: u32) -> (r: Hub)
        ensures
            r.wf(),
            r.upstream is None,
            r.registry@.sessions.is_empty(),
            r.listeners@.is_empty(),
            r.answers@.is_empty(),
            r.relay_failures@.is_empty(),
            r.retry_limit == retry_limit,
    {
        Hub {
            registry: SessionRegistry::new(),
            upstream: None,
            listeners: Keyed::new(),
            answers: Keyed::new(),
            relay_failures: Keyed::new(),
            retry_limit,
        }
    }

    /// Binds `conn` as the upstream, replacing any other. Sessions in flight are left alone.
    pub fn bind_upstream(&mut self, conn: u64)
        ensures
            *final(self) == (Hub { upstream: Some(conn), ..*old(self) }),
    {
        self.upstream = Some(conn);
    }

    /// The upstream connection `conn` went away; unbinds it if it is the bound one.
    pub fn upstream_lost(&mut self, conn: u64)
        ensures
            *final(self) == if old(self).upstream == Some(conn) {
                Hub { upstream: None, ..*old(self) }
            } else {
                *old(self)
            },
    {
        if self.upstream == Some(conn) {
            self.upstream = None;
        }
    }

    /// Records that listener session `id` is reached on connection `conn`.
    pub fn connect_listener(&mut self, id: &str, conn: u64)
        requires
            old(self).wf(),
        ensures
            final(self).wf(),
            *final(self) == (Hub { listeners: final(self).listeners, ..*old(self) }),
            final(self).listeners@ == old(self).listeners@.insert(id@, conn),
    {
        self.listeners.insert(id, conn);
    }

    /// Forgets how to reach listener session `id`.
    pub fn disconnect_listener(&mut self, id: &str)
        requires
            old(self).wf(),
        ensures
            final(self).wf(),
            *final(self) == (Hub { listeners: final(self).listeners, ..*old(self) }),
            final(self).listeners@ == old(self).listeners@.remove(id@),
    {
        let _ = self.listeners.remove(id);
    }

    /// One attempt to relay a message of session `id` upstream.
    pub fn relay(&mut self, id: &str, now: u64) -> (r: Relay)
        requires
            old(self).wf(),
        ensures
            final(self).wf(),
            final(self).upstream == old(self).upstream,
            final(self).listeners == old(self).listeners,
            final(self).answers == old(self).answers,
            final(self).retry_limit == old(self).retry_limit,
            match old(self).upstream {
                Some(conn) => {
                    &&& r is Sent && r->Sent_0 == conn
                    &&& final(self).relay_failures@ == old(self).relay_failures@.remove(id@)
                    &&& final(self).registry == old(self).registry
                },
                None => {
                    let n = one_more(failures_of(old(self).relay_failures@, id@));
                    &&& final(self).relay_failures@ == old(self).relay_failures@.insert(id@, n)
                    &&& if n > old(self).retry_limit {
                        &&& r is GaveUp
                        &&& r->GaveUp_log == (n == 1)
                        &&& retired_opt(r->GaveUp_retired, pipeline_of(old(self).registry@, id@))
                        &&& final(self).registry@ == after_close(old(self).registry@, id@, now)
                    } else {
                        &&& r is Retry
                        &&& r->Retry_log == (n == 1)
                        &&& final(self).registry == old(self).registry
                    }
                },
            },
    {
        match self.upstream {
            Some(conn) => {
                let _ = self.relay_failures.remove(id);
                Relay::Sent(conn)
            },
            None => {
                let before: u32 = match self.relay_failures.get(id) {
                    Some(n) => *n,
                    None => 0,
                };
                let n = if before == u32::MAX {
                    before
                } else {
                    before + 1
                };
                self.relay_failures.insert(id, n);
                if n > self.retry_limit {
                    let retired = self.registry.close(id, now);
                    Relay::GaveUp { log: n == 1, retired }
                } else {
                    Relay::Retry { log: n == 1 }
                }
            },
        }
    }

    /// A message from upstream for session `env.id`: an answer is cached for the session and
    /// moves it on to awaiting the client's acknowledgement. Returns the listener connection to
    /// forward the message to, if the session has one.
    pub fn from_upstream(&mut self, env: &Envelope, now: u64) -> (r: Option<u64>)
        requires
            old(self).wf(),
        ensures
            final(self).wf(),
            final(self).upstream == old(self).upstream,
            final(self).listeners == old(self).listeners,
            final(self).relay_failures == old(self).relay_failures,
            match r {
                Some(conn) => old(self).listeners@.contains_key(env.id@)
                    && old(self).listeners@[env.id@] == conn,
                None => !old(self).listeners@.contains_key(env.id@),
            },
            match env.message {
                ClientMessage::Sdp { kind: SdpKind::Answer, sdp } => {
                    &&& final(self).answers@ == old(self).answers@.insert(env.id@, sdp)
                    &&& final(self).registry@ == if old(self).registry@.sessions.contains_key(
                        env.id@,
                    ) && old(self).registry@.sessions[env.id@].state
                        == SessionState::NegotiatingAnswer {
                        with_session(
                            old(self).registry@,
                            env.id@,
                            moved(
                                old(self).registry@.sessions[env.id@],
                                SessionState::AwaitingClientAck,
                                now,
                            ),
                        )
                    } else {
                        old(self).registry@
                    }
                },
                _ => {
                    &&& final(self).answers == old(self).answers
                    &&& final(self).registry == old(self).registry
                },
            },
    {
        if let ClientMessage::Sdp { kind: SdpKind::Answer, sdp } = &env.message {
            self.answers.insert(env.id.as_str(), sdp.clone());
            let _ = self.registry.answer_ready(env.id.as_str(), now);
        }
        match self.listeners.get(env.id.as_str()) {
            Some(conn) => Some(*conn),
            None => None,
        }
    }

    /// The answer cached for `id`, if one has arrived.
    pub fn answer_for(&self, id: &str) -> (r: Option<String>)
        requires
            self.wf(),
        ensures
            match r {
                Some(a) => self.answers@.contains_key(id@) && self.answers@[id@]@ == a@,
                None => !self.answers@.contains_key(id@),
            },
    {
        match self.answers.get(id) {
            Some(a) => Some(a.clone()),
            None => None,
        }
    }
}

} // verus!
