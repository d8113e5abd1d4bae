//! The decisions around one beat: what to report given the local health
//! check, what a delivered beat changes, what happens when the token is
//! missing, and which agents a shutdown reports offline. The caller performs
//! the network work between these steps.
use vstd::prelude::*;

use crate::api::BeatSuccess;
use crate::config::AgentConfig;
use crate::engine::{name_of, runtime_or_fresh, AgentRuntime, Core};
use crate::history::{BeatKind, BeatRecord};

verus! {

/// What a beat reports: online, or (when the agent's own server failed its
/// local check) an honest offline, with the reason as the beat's note.
pub open spec fn plan_of(check: Option<Result<u16, String>>) -> (BeatKind, Option<Seq<char>>) {
    match check {
        Some(Err(reason)) => (BeatKind::LocalFailOffline, Some("local check failed: "@ + reason@)),
        _ => (BeatKind::OnlineOk, None),
    }
}

/// The beat to send, given the local health check's outcome (`None` when the
/// agent has no local check).
pub fn beat_plan(check: Option<Result<u16, String>>) -> (r: (BeatKind, Option<String>))
    ensures
        r.0 == plan_of(check).0,
        match r.1 {
            Some(n) => plan_of(check).1 == Some(n@),
            None => plan_of(check).1 is None,
        },
{
    match check {
        Some(Err(reason)) => {
            let mut note = String::from_str("local check failed: ");
            note.append(reason.as_str());
            (BeatKind::LocalFailOffline, Some(note))
        },
        _ => (BeatKind::OnlineOk, None),
    }
}

/// The status a beat of `kind` reports to the platform.
pub open spec fn desired_of(kind: BeatKind) -> Seq<char> {
    if kind == BeatKind::OnlineOk {
        "online"@
    } else {
        "offline"@
    }
}

pub fn desired_status(kind: BeatKind) -> (r: &'static str)
    ensures
        r@ == desired_of(kind),
{
    if kind == BeatKind::OnlineOk {
        "online"
    } else {
        "offline"
    }
}

/// The ids of the in-service agents, in configuration order.
pub open spec fn in_service_ids_of(agents: Seq<AgentConfig>) -> Seq<Seq<char>>
    decreases agents.len(),
{
    if agents.len() == 0 {
        Seq::empty()
    } else {
        let rest = in_service_ids_of(agents.drop_last());
        if agents.last().in_service {
            rest.push(agents.last().id@)
        } else {
            rest
        }
    }
}

impl Core {
    /// The agents a shutdown reports offline: every in-service agent.
    pub fn in_service_ids(&self) -> (r: Vec<String>)
        ensures
            r@.map_values(|s: String| s@) == in_service_ids_of(self.config.agents@),
    {
        let agents = &self.config.agents;
        let mut out: Vec<String> = Vec::new();
        let mut i: usize = 0;
        while i < agents.len()
            invariant
                i <= agents.len(),
                out@.map_values(|s: String| s@) == in_service_ids_of(agents@.take(i as int)),
            decreases agents.len() - i,
        {
            proof {
                assert(agents@.take(i + 1).drop_last() =~= agents@.take(i as int));
            }
            if agents[i].in_service {
                let id = agents[i].id.clone();
                proof {
                    assert(out@.push(id).map_values(|s: String| s@) =~= out@.map_values(|s: String| s@).push(id@));
                }
                out.push(id);
            }
            i = i + 1;
        }
        proof {
            assert(agents@.take(i as int) =~= agents@);
        }
        out
    }

    /// The token was missing when a beat was due (vault locked, or the token
    /// gone): the agent's slot is released and its beat retried in 60 seconds.
    pub fn release_without_token(&mut self, agent_id: &str, now: u64)
        requires
            now + 60 <= u64::MAX,
        ensures
            old(self).runtime.view().dom().contains(agent_id@) ==> final(self).runtime.view() == old(
                self,
            ).runtime.view().insert(
                agent_id@,
                AgentRuntime {
                    in_flight: false,
                    next_beat_at: (now + 60) as u64,
                    ..old(self).runtime.view()[agent_id@]
                },
            ),
            !old(self).runtime.view().dom().contains(agent_id@) ==> final(self).runtime.view() == old(self).runtime.view(),
            crate::engine::logged_for(
                old(self).config,
                old(self).history.activity@,
                final(self).history.activity@,
                now,
                "warn"@,
                Some(agent_id@),
                name_of(old(self).config, agent_id@) + ": token unavailable (vault locked?) — retrying in 60s"@,
            ),
            final(self).history.beats == old(self).history.beats,
            final(self).config == old(self).config,
            final(self).paused == old(self).paused,
            final(self).dirty_config == old(self).dirty_config,
    {
        match self.runtime.get_mut(agent_id) {
            Some(rt) => {
                rt.in_flight = false;
                rt.next_beat_at = now + 60;
            },
            None => {},
        }
        let mut text = self.agent_name(agent_id);
        text.append(": token unavailable (vault locked?) — retrying in 60s");
        self.push_activity(now, "warn", Some(agent_id), text);
    }

    /// A beat of `kind` was delivered: the engine records it (see
    /// `apply_success`), and when it is the first honest offline after a
    /// local check failure, logs that and returns the notification to show.
    pub fn finish_delivered_beat(
        &mut self,
        agent_id: &str,
        kind: BeatKind,
        success: BeatSuccess,
        note: Option<String>,
        now: u64,
        next_in_secs: u64,
    ) -> (r: Option<String>)
        requires
            now + next_in_secs <= u64::MAX,
            crate::engine::jitter_window(crate::engine::interval_of(old(self).config, agent_id@), next_in_secs),
        ensures
            ({
                let old_rt = runtime_or_fresh(old(self).runtime.view(), agent_id@);
                let name = name_of(old(self).config, agent_id@);
                let first_local_fail = kind == BeatKind::LocalFailOffline && !old_rt.local_check_failing;
                &&& final(self).runtime.view() == old(self).runtime.view().insert(
                    agent_id@,
                    AgentRuntime {
                        in_flight: false,
                        consecutive_failures: 0,
                        last_success_at: Some(now),
                        last_kind: Some(kind),
                        last_note: note,
                        last_latency_ms: Some(success.latency_ms),
                        platform_status: Some(success.platform_status),
                        platform_last_heartbeat: success.platform_last_heartbeat,
                        local_check_failing: kind == BeatKind::LocalFailOffline,
                        next_beat_at: (now + next_in_secs) as u64,
                        ..old_rt
                    },
                )
                &&& final(self).history.ring(agent_id@) == crate::history::capped_push(
                    old(self).history.ring(agent_id@),
                    BeatRecord {
                        ts: now,
                        kind,
                        http_status: Some(200),
                        latency_ms: Some(success.latency_ms),
                        note,
                    },
                    crate::history::RING_CAP as nat,
                )
                &&& first_local_fail ==> {
                    &&& r matches Some(t) && t@ == name + " failed its local health check — reported offline"@
                    &&& final(self).history.activity@.len() > 0
                    &&& crate::engine::event_is(
                        final(self).history.activity@.last(),
                        now,
                        "warn"@,
                        Some(agent_id@),
                        Some(name),
                        name + ": "@ + crate::text::opt_view(note).unwrap_or(Seq::empty())
                            + " — reported offline to Tragentics"@,
                    )
                }
                &&& !first_local_fail ==> r is None
            }),
            final(self).config == old(self).config,
            final(self).paused == old(self).paused,
            final(self).dirty_history,
    {
        let was_failing_locally = match self.runtime.get(agent_id) {
            Some(rt) => rt.local_check_failing,
            None => false,
        };
        let note_copy = note.clone();
        self.apply_success(
            agent_id,
            kind,
            success.platform_status,
            success.platform_last_heartbeat,
            success.latency_ms,
            note,
            now,
            next_in_secs,
        );
        if kind == BeatKind::LocalFailOffline && !was_failing_locally {
            let name = self.agent_name(agent_id);
            let mut text = name.clone();
            text.append(": ");
            match &note_copy {
                Some(n) => text.append(n.as_str()),
                None => {},
            }
            text.append(" — reported offline to Tragentics");
            self.push_activity(now, "warn", Some(agent_id), text);
            let mut message = name;
            message.append(" failed its local health check — reported offline");
            Some(message)
        } else {
            None
        }
    }
}

} // verus!
