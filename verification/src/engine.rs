//! The heartbeat engine: a pure state machine over the configuration, the
//! per-agent runtime records and the history.
//!
//! Cadence model:
//!   - beat every `interval_secs` (clamped 300–840) with ±10% jitter (the
//!     jittered delay is handed in by the caller);
//!   - network/5xx: exponential backoff 30s·2^(n-1), capped at the interval;
//!   - 429: wait Retry-After + 5s, at least 70s;
//!   - 401/403/404/409: halt until the user intervenes.
use vstd::prelude::*;

use crate::api::{BeatSuccess, MeAgent};
use crate::config::{
    agent_pos, clamp_interval, clamped, duplicate_check, has_agent, lemma_agent_pos, lookup_agent,
    AppConfig, LocalCheck, DEFAULT_INTERVAL_SECS, MAX_INTERVAL_SECS,
};
use crate::errors::ApiError;
use crate::history::{beat_logged, capped_push, ActivityEvent, BeatKind, BeatRecord, HistoryStore, ACTIVITY_CAP, RING_CAP};
use crate::table::{Flagged, KeyedTable};
use crate::text::{ascii_lower, chars_of, contains, decimal, lower_all, opt_view, push_decimal, seq_contains};

verus! {

pub const MAX_CONCURRENT_BEATS: usize = 4;

pub const MAX_LAUNCH_PER_TICK: usize = 2;

// ── Halt taxonomy ──────────────────────────────────────────────────────────

#[derive(Debug, Clone, Copy, PartialEq, Eq, Structural)]
pub enum HaltKind {
    TokenInvalid,
    TokenMismatch,
    Revoked,
    Archived,
    AutoDisabled,
    NotFound,
    Unavailable,
}

#[derive(Debug, Clone)]
pub struct Halt {
    pub kind: HaltKind,
    pub message: String,
}

/// The reason a halting error stops an agent; the platform's own wording
/// carries the distinction.
pub open spec fn halt_of(err: ApiError) -> Option<Halt> {
    match err {
        ApiError::Unauthorized { message } => {
            let lower = ascii_lower(message@);
            Some(
                Halt {
                    kind: if seq_contains(lower, "revoked"@) {
                        HaltKind::Revoked
                    } else if seq_contains(lower, "archived"@) {
                        HaltKind::Archived
                    } else if seq_contains(lower, "auto-disabled"@) {
                        HaltKind::AutoDisabled
                    } else {
                        HaltKind::TokenInvalid
                    },
                    message,
                },
            )
        },
        ApiError::Forbidden { message } => {
            let lower = ascii_lower(message@);
            Some(
                Halt {
                    kind: if seq_contains(lower, "auto-disabled"@) {
                        HaltKind::AutoDisabled
                    } else {
                        HaltKind::TokenMismatch
                    },
                    message,
                },
            )
        },
        ApiError::NotFound { message } => Some(Halt { kind: HaltKind::NotFound, message }),
        ApiError::Conflict { message } => Some(Halt { kind: HaltKind::Unavailable, message }),
        _ => None,
    }
}

/// Maps a halting API error to its reason; other errors give `None`.
pub fn halt_for(err: &ApiError) -> (r: Option<Halt>)
    ensures
        r == halt_of(*err),
{
    match err {
        ApiError::Unauthorized { message } => {
            let lower = lower_all(&chars_of(message.as_str()));
            let kind = if contains(&lower, &chars_of("revoked")) {
                HaltKind::Revoked
            } else if contains(&lower, &chars_of("archived")) {
                HaltKind::Archived
            } else if contains(&lower, &chars_of("auto-disabled")) {
                HaltKind::AutoDisabled
            } else {
                HaltKind::TokenInvalid
            };
            Some(Halt { kind, message: message.clone() })
        },
        ApiError::Forbidden { message } => {
            let lower = lower_all(&chars_of(message.as_str()));
            let kind = if contains(&lower, &chars_of("auto-disabled")) {
                HaltKind::AutoDisabled
            } else {
                HaltKind::TokenMismatch
            };
            Some(Halt { kind, message: message.clone() })
        },
        ApiError::NotFound { message } => Some(Halt { kind: HaltKind::NotFound, message: message.clone() }),
        ApiError::Conflict { message } => Some(
            Halt { kind: HaltKind::Unavailable, message: message.clone() },
        ),
        _ => None,
    }
}

// ── Delay math ─────────────────────────────────────────────────────────────

/// 2^k.
pub open spec fn doubling(k: nat) -> nat
    decreases k,
{
    if k == 0 {
        1
    } else {
        2 * doubling((k - 1) as nat)
    }
}

/// Exponential backoff for the n-th consecutive failure: 30·2^(n-1) seconds
/// (the exponent stops growing at 6), capped at the clamped interval, and
/// never below 30.
pub open spec fn backoff(consecutive_failures: u32, interval_secs: u64) -> u64 {
    let n: nat = if consecutive_failures < 1 { 1 } else { consecutive_failures as nat };
    let e: nat = if n - 1 < 6 { (n - 1) as nat } else { 6 };
    let exp: int = (30 * doubling(e)) as int;
    let capped: int = if exp < clamped(interval_secs) { exp } else { clamped(interval_secs) as int };
    (if capped < 30 { 30 } else { capped }) as u64
}

/// Exponential backoff for network/server failures: 30s, 60s, 120s, …
/// capped at the agent's own interval.
pub fn failure_delay_secs(consecutive_failures: u32, interval_secs: u64) -> (r: u64)
    ensures
        r == backoff(consecutive_failures, interval_secs),
        30 <= r <= MAX_INTERVAL_SECS,
{
    let n: u32 = if consecutive_failures < 1 { 1 } else { consecutive_failures };
    let e: u32 = if n - 1 < 6 { n - 1 } else { 6 };
    let mut exp: u64 = 30;
    let mut k: u32 = 0;
    while k < e
        invariant
            k <= e <= 6,
            exp == 30 * doubling(k as nat),
            exp <= 30 * 64,
        decreases e - k,
    {
        assert(doubling((k + 1) as nat) == 2 * doubling(k as nat));
        assert(doubling(k as nat) <= 32) by {
            reveal_with_fuel(doubling, 7);
        }
        exp = exp * 2;
        k = k + 1;
    }
    let cap = clamp_interval(interval_secs);
    let capped = if exp < cap { exp } else { cap };
    if capped < 30 { 30 } else { capped }
}

/// The 429 delay: Retry-After plus 5 seconds of headroom, at least 70.
pub open spec fn rate_limit_delay(retry_after_secs: u64) -> u64 {
    if retry_after_secs + 5 < 70 { 70 } else { (retry_after_secs + 5) as u64 }
}

/// 429 delay: honor Retry-After with headroom; floor 70s (platform window 60s).
pub fn rate_limit_delay_secs(retry_after_secs: u64) -> (r: u64)
    requires
        retry_after_secs + 5 <= u64::MAX,
    ensures
        r == rate_limit_delay(retry_after_secs),
{
    let d = retry_after_secs + 5;
    if d < 70 { 70 } else { d }
}

// ── Runtime state ──────────────────────────────────────────────────────────

#[derive(Debug, Clone)]
pub struct AgentRuntime {
    /// Epoch seconds; 0 = beat as soon as possible.
    pub next_beat_at: u64,
    pub in_flight: bool,
    pub consecutive_failures: u32,
    pub last_attempt_at: Option<u64>,
    pub last_success_at: Option<u64>,
    pub last_kind: Option<BeatKind>,
    pub last_note: Option<String>,
    pub last_latency_ms: Option<u32>,
    /// Platform truth from the most recent heartbeat or /me answer.
    pub platform_status: Option<String>,
    pub platform_last_heartbeat: Option<String>,
    pub me: Option<MeAgent>,
    pub halted: Option<Halt>,
    pub local_check_failing: bool,
}

/// The record of an agent that has not beaten yet.
pub open spec fn fresh_runtime() -> AgentRuntime {
    AgentRuntime {
        next_beat_at: 0,
        in_flight: false,
        consecutive_failures: 0,
        last_attempt_at: None,
        last_success_at: None,
        last_kind: None,
        last_note: None,
        last_latency_ms: None,
        platform_status: None,
        platform_last_heartbeat: None,
        me: None,
        halted: None,
        local_check_failing: false,
    }
}

impl Default for AgentRuntime {
    fn default() -> (r: Self)
        ensures
            r == fresh_runtime(),
    {
        AgentRuntime {
            next_beat_at: 0,
            in_flight: false,
            consecutive_failures: 0,
            last_attempt_at: None,
            last_success_at: None,
            last_kind: None,
            last_note: None,
            last_latency_ms: None,
            platform_status: None,
            platform_last_heartbeat: None,
            me: None,
            halted: None,
            local_check_failing: false,
        }
    }
}

impl Flagged for AgentRuntime {
    open spec fn flagged(&self) -> bool {
        self.in_flight
    }

    fn is_flagged(&self) -> (r: bool) {
        self.in_flight
    }
}

/// A beat the loop should launch now.
#[derive(Debug, Clone)]
pub struct DueJob {
    pub agent_id: String,
    pub interval_secs: u64,
    pub local_check: Option<LocalCheck>,
    /// Status to report; `None` = normal cycle ("online" unless the local check fails).
    pub explicit_status: Option<&'static str>,
}

#[derive(Debug, Clone, Copy, PartialEq, Eq, Structural)]
pub enum TraySeverity {
    /// Everything in service is beating normally.
    Healthy,
    Degraded,
    Halted,
    Paused,
}

pub struct Core {
    pub config: AppConfig,
    pub runtime: KeyedTable<AgentRuntime>,
    pub history: HistoryStore,
    pub paused: bool,
    pub dirty_config: bool,
    pub dirty_history: bool,
}

// ── Specification vocabulary of the engine ─────────────────────────────────

/// The display name of agent `id`, or "Unknown agent".
pub open spec fn name_of(config: AppConfig, id: Seq<char>) -> Seq<char> {
    match lookup_agent(config.agents@, id) {
        Some(a) => a.name@,
        None => "Unknown agent"@,
    }
}

/// The configured interval of agent `id`, or the default.
pub open spec fn interval_of(config: AppConfig, id: Seq<char>) -> u64 {
    match lookup_agent(config.agents@, id) {
        Some(a) => a.interval_secs,
        None => DEFAULT_INTERVAL_SECS,
    }
}

/// The runtime record of `id`, or a fresh one.
pub open spec fn runtime_or_fresh(rt: Map<Seq<char>, AgentRuntime>, id: Seq<char>) -> AgentRuntime {
    if rt.dom().contains(id) {
        rt[id]
    } else {
        fresh_runtime()
    }
}

/// `e` is the activity event with these fields.
pub open spec fn event_is(
    e: ActivityEvent,
    ts: u64,
    level: Seq<char>,
    agent_id: Option<Seq<char>>,
    agent_name: Option<Seq<char>>,
    text: Seq<char>,
) -> bool {
    &&& e.ts == ts
    &&& e.level@ == level
    &&& opt_view(e.agent_id) == agent_id
    &&& opt_view(e.agent_name) == agent_name
    &&& e.text@ == text
}

/// `after` is `before` with one more event with these fields (the feed capped).
pub open spec fn logged(
    before: Seq<ActivityEvent>,
    after: Seq<ActivityEvent>,
    ts: u64,
    level: Seq<char>,
    agent_id: Option<Seq<char>>,
    agent_name: Option<Seq<char>>,
    text: Seq<char>,
) -> bool {
    &&& after.len() > 0
    &&& after == capped_push(before, after.last(), ACTIVITY_CAP as nat)
    &&& event_is(after.last(), ts, level, agent_id, agent_name, text)
}

/// The activity event written by `push_activity` for agent `agent_id` (if any).
pub open spec fn logged_for(
    config: AppConfig,
    before: Seq<ActivityEvent>,
    after: Seq<ActivityEvent>,
    ts: u64,
    level: Seq<char>,
    agent_id: Option<Seq<char>>,
    text: Seq<char>,
) -> bool {
    logged(
        before,
        after,
        ts,
        level,
        agent_id,
        match agent_id {
            Some(id) => Some(name_of(config, id)),
            None => None,
        },
        text,
    )
}

/// The history class of a failed beat.
pub open spec fn error_kind_of(err: ApiError) -> BeatKind {
    match err {
        ApiError::Network { .. } => BeatKind::ErrNetwork,
        ApiError::RateLimited { .. } => BeatKind::ErrRateLimited,
        ApiError::Server { .. } => BeatKind::ErrServer,
        ApiError::Other { .. } => BeatKind::ErrServer,
        ApiError::Decode { .. } => BeatKind::ErrDecode,
        _ => BeatKind::ErrAuth,
    }
}

/// The history class of a failed beat.
pub fn error_kind(err: &ApiError) -> (r: BeatKind)
    ensures
        r == error_kind_of(*err),
{
    match err {
        ApiError::Network { .. } => BeatKind::ErrNetwork,
        ApiError::RateLimited { .. } => BeatKind::ErrRateLimited,
        ApiError::Server { .. } => BeatKind::ErrServer,
        ApiError::Other { .. } => BeatKind::ErrServer,
        ApiError::Decode { .. } => BeatKind::ErrDecode,
        _ => BeatKind::ErrAuth,
    }
}

/// `next_in_secs` lies within ±10% of the clamped `interval_secs` (the
/// bounds rounded outward): the cadence of a delivered beat.
pub open spec fn jitter_window(interval_secs: u64, next_in_secs: u64) -> bool {
    let c = clamped(interval_secs);
    c * 9 / 10 <= next_in_secs && next_in_secs <= (c * 11 + 9) / 10
}

/// Whether `next_in_secs` is a cadence within ±10% of the clamped interval.
pub fn in_jitter_window(interval_secs: u64, next_in_secs: u64) -> (r: bool)
    ensures
        r == jitter_window(interval_secs, next_in_secs),
{
    let c = clamp_interval(interval_secs);
    c * 9 / 10 <= next_in_secs && next_in_secs <= (c * 11 + 9) / 10
}

/// The failure count after one more failure (it stops at u32::MAX).
pub open spec fn next_failures(f: u32) -> u32 {
    if f == u32::MAX {
        u32::MAX
    } else {
        (f + 1) as u32
    }
}

/// The retry time after `err` at `now` is representable: a halt schedules
/// nothing; a rate limit waits its own delay; anything else waits the backoff
/// of its `failures`-th consecutive failure on `interval`.
pub open spec fn retry_fits(err: ApiError, now: u64, failures: u32, interval: u64) -> bool {
    match err {
        ApiError::Unauthorized { .. } => true,
        ApiError::Forbidden { .. } => true,
        ApiError::NotFound { .. } => true,
        ApiError::Conflict { .. } => true,
        ApiError::RateLimited { retry_after_secs } => retry_after_secs + 5 <= u64::MAX && now
            + rate_limit_delay(retry_after_secs) <= u64::MAX,
        _ => now + backoff(failures, interval) <= u64::MAX,
    }
}

/// Whether the retry time after `err` at `now` is representable.
pub fn retry_time_fits(err: &ApiError, now: u64, failures: u32, interval: u64) -> (r: bool)
    ensures
        r == retry_fits(*err, now, failures, interval),
{
    match err {
        ApiError::Unauthorized { .. } => true,
        ApiError::Forbidden { .. } => true,
        ApiError::NotFound { .. } => true,
        ApiError::Conflict { .. } => true,
        ApiError::RateLimited { retry_after_secs } => {
            if *retry_after_secs > u64::MAX - 5 {
                false
            } else {
                let d = rate_limit_delay_secs(*retry_after_secs);
                now <= u64::MAX - d
            }
        },
        _ => now <= u64::MAX - failure_delay_secs(failures, interval),
    }
}

/// The delay before the next attempt after the non-halting `err`, with
/// `failures` consecutive failures so far.
pub open spec fn retry_delay(err: ApiError, failures: u32, interval: u64) -> u64 {
    match err {
        ApiError::RateLimited { retry_after_secs } => rate_limit_delay(retry_after_secs),
        _ => backoff(failures, interval),
    }
}

/// `r` carries these fields.
pub open spec fn beat_is(
    r: BeatRecord,
    ts: u64,
    kind: BeatKind,
    http_status: Option<u16>,
    latency_ms: Option<u32>,
    note: Option<Seq<char>>,
) -> bool {
    &&& r.ts == ts
    &&& r.kind == kind
    &&& r.http_status == http_status
    &&& r.latency_ms == latency_ms
    &&& opt_view(r.note) == note
}

/// Agent `j` is in service and its runtime record is halted.
pub open spec fn halted_in_service(core: &Core, j: int) -> bool {
    &&& 0 <= j < core.config.agents@.len()
    &&& core.config.agents@[j].in_service
    &&& core.runtime.view().dom().contains(core.config.agents@[j].id@)
    &&& core.runtime.view()[core.config.agents@[j].id@].halted is Some
}

/// Agent `j` is in service and failing deliveries or its local check.
pub open spec fn degraded_in_service(core: &Core, j: int) -> bool {
    &&& 0 <= j < core.config.agents@.len()
    &&& core.config.agents@[j].in_service
    &&& core.runtime.view().dom().contains(core.config.agents@[j].id@)
    &&& (core.runtime.view()[core.config.agents@[j].id@].consecutive_failures > 0
        || core.runtime.view()[core.config.agents@[j].id@].local_check_failing)
}

/// Some agent is in service.
pub open spec fn any_in_service(core: &Core) -> bool {
    exists|j: int| 0 <= j < core.config.agents@.len() && #[trigger] core.config.agents@[j].in_service
}

/// The tray color: gray when paused or nothing is in service, red when an
/// agent in service is halted, amber when one is failing or failing its
/// local check, green otherwise.
pub open spec fn severity_of(core: &Core) -> TraySeverity {
    if core.paused || !any_in_service(core) {
        TraySeverity::Paused
    } else if exists|j: int| halted_in_service(core, j) {
        TraySeverity::Halted
    } else if exists|j: int| degraded_in_service(core, j) {
        TraySeverity::Degraded
    } else {
        TraySeverity::Healthy
    }
}

/// Agent position `i` may launch a beat at `now`: in service, with a runtime
/// record that is neither in flight nor halted, and due.
pub open spec fn launchable(core: &Core, now: u64, i: int) -> bool {
    &&& 0 <= i < core.config.agents@.len()
    &&& core.config.agents@[i].in_service
    &&& core.runtime.view().dom().contains(core.config.agents@[i].id@)
    &&& !core.runtime.view()[core.config.agents@[i].id@].in_flight
    &&& core.runtime.view()[core.config.agents@[i].id@].halted is None
    &&& now >= core.runtime.view()[core.config.agents@[i].id@].next_beat_at
}

/// When agent position `i` is due.
pub open spec fn due_time(core: &Core, i: int) -> u64 {
    core.runtime.view()[core.config.agents@[i].id@].next_beat_at
}

/// Launch order: earlier due time first, then configuration order.
pub open spec fn launches_before(core: &Core, i: int, j: int) -> bool {
    due_time(core, i) < due_time(core, j) || (due_time(core, i) == due_time(core, j) && i < j)
}

/// Number of agents with a beat in flight.
pub open spec fn in_flight_count(rt: Map<Seq<char>, AgentRuntime>) -> nat {
    rt.dom().filter(|k: Seq<char>| rt[k].in_flight).len()
}

/// How many beats may launch with `in_flight` already running: at most
/// MAX_LAUNCH_PER_TICK per tick and MAX_CONCURRENT_BEATS in flight.
pub open spec fn launch_budget(in_flight: nat) -> nat {
    if in_flight >= MAX_CONCURRENT_BEATS {
        0
    } else if MAX_CONCURRENT_BEATS - in_flight < MAX_LAUNCH_PER_TICK {
        (MAX_CONCURRENT_BEATS - in_flight) as nat
    } else {
        MAX_LAUNCH_PER_TICK as nat
    }
}

/// `sel` lists the agent positions to launch, in launch order: launchable
/// ones only, the earliest first, as many as the budget allows.
pub open spec fn launch_selection(core: &Core, now: u64, sel: Seq<int>) -> bool {
    &&& sel.len() <= launch_budget(in_flight_count(core.runtime.view()))
    &&& forall|k: int| 0 <= k < sel.len() ==> launchable(core, now, #[trigger] sel[k])
    &&& forall|k: int, l: int| 0 <= k < l < sel.len() ==> launches_before(core, sel[k], sel[l])
    &&& forall|c: int|
        launchable(core, now, c) && !sel.contains(c) ==> {
            &&& sel.len() == launch_budget(in_flight_count(core.runtime.view()))
            &&& forall|k: int| 0 <= k < sel.len() ==> launches_before(core, #[trigger] sel[k], c)
        }
}

/// `job` launches the beat of `agent`.
pub open spec fn job_for(job: DueJob, agent: crate::config::AgentConfig) -> bool {
    &&& job.agent_id@ == agent.id@
    &&& job.interval_secs == agent.interval_secs
    &&& job.local_check == agent.local_check
    &&& job.explicit_status is None
}

/// A runtime record with a beat launched at `now`.
pub open spec fn launched(r: AgentRuntime, now: u64) -> AgentRuntime {
    AgentRuntime { in_flight: true, last_attempt_at: Some(now), ..r }
}

/// Some selected position belongs to agent id `k`.
pub open spec fn selected_id(core: &Core, sel: Seq<int>, k: Seq<char>) -> bool {
    exists|x: int| 0 <= x < sel.len() && core.config.agents@[#[trigger] sel[x]].id@ == k
}

impl Core {
    /// A core for `config` with a fresh runtime record for every configured agent.
    pub fn new(config: AppConfig, history: HistoryStore) -> (r: Self)
        ensures
            r.config == config,
            r.history == history,
            !r.paused,
            !r.dirty_config,
            !r.dirty_history,
            forall|k: Seq<char>| #[trigger] r.runtime.view().dom().contains(k) <==> has_agent(config.agents@, k),
            forall|k: Seq<char>| #[trigger] r.runtime.view().dom().contains(k) ==> r.runtime.view()[k]
                == fresh_runtime(),
    {
        let mut runtime: KeyedTable<AgentRuntime> = KeyedTable::new();
        let mut i: usize = 0;
        while i < config.agents.len()
            invariant
                i <= config.agents.len(),
                forall|k: Seq<char>| #[trigger] runtime.view().dom().contains(k) <==> (exists|j: int|
                    0 <= j < i && config.agents@[j].id@ == k),
                forall|k: Seq<char>| #[trigger] runtime.view().dom().contains(k) ==> runtime.view()[k]
                    == fresh_runtime(),
            decreases config.agents.len() - i,
        {
            runtime.get_or_insert(config.agents[i].id.as_str(), AgentRuntime::default());
            proof {
                assert forall|k: Seq<char>| #[trigger] runtime.view().dom().contains(k) <==> (exists|j: int|
                    0 <= j < i + 1 && config.agents@[j].id@ == k) by {
                    if k == config.agents@[i as int].id@ {
                        assert(0 <= i < i + 1 && config.agents@[i as int].id@ == k);
                    } else if runtime.view().dom().contains(k) {
                        let j = choose|j: int| 0 <= j < i && config.agents@[j].id@ == k;
                        assert(0 <= j < i + 1 && config.agents@[j].id@ == k);
                    }
                }
            }
            i = i + 1;
        }
        Core { config, runtime, history, paused: false, dirty_config: false, dirty_history: false }
    }

    /// The runtime record of `agent_id`, created fresh when missing.
    pub fn ensure_runtime(&mut self, agent_id: &str) -> (r: &mut AgentRuntime)
        ensures
            *r == runtime_or_fresh(old(self).runtime.view(), agent_id@),
            final(self).runtime.view() == old(self).runtime.view().insert(agent_id@, *final(r)),
            final(self).config == old(self).config,
            final(self).history == old(self).history,
            final(self).paused == old(self).paused,
            final(self).dirty_config == old(self).dirty_config,
            final(self).dirty_history == old(self).dirty_history,
    {
        self.runtime.get_or_insert(agent_id, AgentRuntime::default())
    }

    /// The display name of an agent, or "Unknown agent".
    pub fn agent_name(&self, agent_id: &str) -> (r: String)
        ensures
            r@ == name_of(self.config, agent_id@),
    {
        match self.config.agent(agent_id) {
            Some(a) => a.name.clone(),
            None => String::from_str("Unknown agent"),
        }
    }

    /// The configured beat interval of an agent, or the default.
    pub fn beat_interval(&self, agent_id: &str) -> (r: u64)
        ensures
            r == interval_of(self.config, agent_id@),
    {
        match self.config.agent(agent_id) {
            Some(a) => a.interval_secs,
            None => DEFAULT_INTERVAL_SECS,
        }
    }

    /// Appends an activity event.
    fn push_activity_raw(
        &mut self,
        now: u64,
        level: &str,
        agent_id: Option<String>,
        agent_name: Option<String>,
        text: String,
    )
        ensures
            logged(
                old(self).history.activity@,
                final(self).history.activity@,
                now,
                level@,
                opt_view(agent_id),
                opt_view(agent_name),
                text@,
            ),
            final(self).history.beats == old(self).history.beats,
            final(self).config == old(self).config,
            final(self).runtime == old(self).runtime,
            final(self).paused == old(self).paused,
            final(self).dirty_config == old(self).dirty_config,
            final(self).dirty_history,
    {
        let event = ActivityEvent {
            ts: now,
            level: String::from_str(level),
            agent_id,
            agent_name,
            text,
        };
        self.history.push_activity(event);
        self.dirty_history = true;
    }

    /// Appends an activity event, naming the agent when one is given.
    pub fn push_activity(&mut self, now: u64, level: &str, agent_id: Option<&str>, text: String)
        ensures
            logged_for(
                old(self).config,
                old(self).history.activity@,
                final(self).history.activity@,
                now,
                level@,
                match agent_id {
                    Some(id) => Some(id@),
                    None => None,
                },
                text@,
            ),
            final(self).history.beats == old(self).history.beats,
            final(self).config == old(self).config,
            final(self).runtime == old(self).runtime,
            final(self).paused == old(self).paused,
            final(self).dirty_config == old(self).dirty_config,
            final(self).dirty_history,
    {
        let (id, name) = match agent_id {
            Some(id) => (Some(String::from_str(id)), Some(self.agent_name(id))),
            None => (None, None),
        };
        self.push_activity_raw(now, level, id, name, text);
    }

    /// Pauses or resumes all beating.
    pub fn set_paused(&mut self, paused: bool, now: u64)
        ensures
            final(self).paused == paused,
            logged(
                old(self).history.activity@,
                final(self).history.activity@,
                now,
                "info"@,
                None,
                None,
                if paused {
                    "All beating paused"@
                } else {
                    "Beating resumed"@
                },
            ),
            final(self).history.beats == old(self).history.beats,
            final(self).config == old(self).config,
            final(self).runtime == old(self).runtime,
            final(self).dirty_config == old(self).dirty_config,
            final(self).dirty_history,
    {
        self.paused = paused;
        let text = if paused {
            String::from_str("All beating paused")
        } else {
            String::from_str("Beating resumed")
        };
        self.push_activity(now, "info", None, text);
    }

    /// Clears a halt so the agent retries at once after the user fixed the cause.
    pub fn clear_halt(&mut self, agent_id: &str, now: u64)
        ensures
            final(self).runtime.view() == old(self).runtime.view().insert(
                agent_id@,
                AgentRuntime {
                    halted: None,
                    consecutive_failures: 0,
                    next_beat_at: 0,
                    ..runtime_or_fresh(old(self).runtime.view(), agent_id@)
                },
            ),
            logged_for(
                old(self).config,
                old(self).history.activity@,
                final(self).history.activity@,
                now,
                "info"@,
                Some(agent_id@),
                name_of(old(self).config, agent_id@) + ": halt cleared — retrying"@,
            ),
            final(self).history.beats == old(self).history.beats,
            final(self).config == old(self).config,
            final(self).paused == old(self).paused,
            final(self).dirty_config == old(self).dirty_config,
            final(self).dirty_history,
    {
        let rt = self.ensure_runtime(agent_id);
        rt.halted = None;
        rt.consecutive_failures = 0;
        rt.next_beat_at = 0;
        let mut text = self.agent_name(agent_id);
        text.append(": halt cleared — retrying");
        self.push_activity(now, "info", Some(agent_id), text);
    }

    /// Makes the agent due at once, unless a beat is already in flight.
    pub fn schedule_asap(&mut self, agent_id: &str)
        ensures
            final(self).runtime.view() == old(self).runtime.view().insert(
                agent_id@,
                if runtime_or_fresh(old(self).runtime.view(), agent_id@).in_flight {
                    runtime_or_fresh(old(self).runtime.view(), agent_id@)
                } else {
                    AgentRuntime { next_beat_at: 0, ..runtime_or_fresh(old(self).runtime.view(), agent_id@) }
                },
            ),
            final(self).config == old(self).config,
            final(self).history == old(self).history,
            final(self).paused == old(self).paused,
            final(self).dirty_config == old(self).dirty_config,
            final(self).dirty_history == old(self).dirty_history,
    {
        let rt = self.ensure_runtime(agent_id);
        if !rt.in_flight {
            rt.next_beat_at = 0;
        }
    }
    /// A delivered beat (online or honest offline): resets the failure count,
    /// records the platform's answer, and schedules the next cycle
    /// `next_in_secs` from now (the jittered interval).
    pub fn apply_success(
        &mut self,
        agent_id: &str,
        kind: BeatKind,
        platform_status: String,
        platform_last_heartbeat: Option<String>,
        latency_ms: u32,
        note: Option<String>,
        now: u64,
        next_in_secs: u64,
    )
        requires
            now + next_in_secs <= u64::MAX,
            jitter_window(interval_of(old(self).config, agent_id@), next_in_secs),
        ensures
            ({
                let old_rt = runtime_or_fresh(old(self).runtime.view(), agent_id@);
                &&& final(self).runtime.view() == old(self).runtime.view().insert(
                    agent_id@,
                    AgentRuntime {
                        in_flight: false,
                        consecutive_failures: 0,
                        last_success_at: Some(now),
                        last_kind: Some(kind),
                        last_note: note,
                        last_latency_ms: Some(latency_ms),
                        platform_status: Some(platform_status),
                        platform_last_heartbeat: platform_last_heartbeat,
                        local_check_failing: kind == BeatKind::LocalFailOffline,
                        next_beat_at: (now + next_in_secs) as u64,
                        ..old_rt
                    },
                )
                &&& old_rt.consecutive_failures > 0 ==> logged_for(
                    old(self).config,
                    old(self).history.activity@,
                    final(self).history.activity@,
                    now,
                    "info"@,
                    Some(agent_id@),
                    name_of(old(self).config, agent_id@) + " recovered — beating normally again"@,
                )
                &&& old_rt.consecutive_failures == 0 ==> final(self).history.activity
                    == old(self).history.activity
            }),
            beat_logged(
                old(self).history,
                HistoryStore { activity: old(self).history.activity, ..final(self).history },
                agent_id@,
                BeatRecord {
                    ts: now,
                    kind,
                    http_status: Some(200),
                    latency_ms: Some(latency_ms),
                    note,
                },
            ),
            final(self).config == old(self).config,
            final(self).paused == old(self).paused,
            final(self).dirty_config == old(self).dirty_config,
            final(self).dirty_history,
    {
        let recovered = match self.runtime.get(agent_id) {
            Some(r) => r.consecutive_failures > 0,
            None => false,
        };
        let note_copy = note.clone();
        let rt = self.ensure_runtime(agent_id);
        rt.in_flight = false;
        rt.consecutive_failures = 0;
        rt.last_success_at = Some(now);
        rt.last_kind = Some(kind);
        rt.last_note = note_copy;
        rt.last_latency_ms = Some(latency_ms);
        rt.platform_status = Some(platform_status);
        rt.platform_last_heartbeat = platform_last_heartbeat;
        rt.local_check_failing = kind == BeatKind::LocalFailOffline;
        rt.next_beat_at = now + next_in_secs;
        self.history.push_beat(
            agent_id,
            BeatRecord { ts: now, kind, http_status: Some(200), latency_ms: Some(latency_ms), note },
        );
        self.dirty_history = true;
        if recovered {
            let mut text = self.agent_name(agent_id);
            text.append(" recovered — beating normally again");
            self.push_activity(now, "info", Some(agent_id), text);
        }
    }

    /// Whether `apply_error` can schedule the retry after `err` for this
    /// agent at `now` (its time fits in a u64).
    pub fn retry_fits_now(&self, agent_id: &str, err: &ApiError, now: u64) -> (r: bool)
        ensures
            r == retry_fits(
                *err,
                now,
                next_failures(runtime_or_fresh(self.runtime.view(), agent_id@).consecutive_failures),
                interval_of(self.config, agent_id@),
            ),
    {
        let f = match self.runtime.get(agent_id) {
            Some(rt) => rt.consecutive_failures,
            None => 0,
        };
        retry_time_fits(err, now, f.saturating_add(1), self.beat_interval(agent_id))
    }

    /// A failed beat. A halting error stops the agent; any other error
    /// schedules a retry (backoff, or the rate-limit delay). Returns a
    /// notification when the failure warrants alerting the user (a halt, or
    /// the third consecutive delivery failure).
    pub fn apply_error(&mut self, agent_id: &str, err: &ApiError, now: u64) -> (r: Option<String>)
        requires
            retry_fits(
                *err,
                now,
                next_failures(runtime_or_fresh(old(self).runtime.view(), agent_id@).consecutive_failures),
                interval_of(old(self).config, agent_id@),
            ),
        ensures
            ({
                let old_rt = runtime_or_fresh(old(self).runtime.view(), agent_id@);
                let new_rt = final(self).runtime.view()[agent_id@];
                let name = name_of(old(self).config, agent_id@);
                let note = err.message_of();
                let failures = if old_rt.consecutive_failures == u32::MAX {
                    u32::MAX
                } else {
                    (old_rt.consecutive_failures + 1) as u32
                };
                &&& final(self).runtime.view() == old(self).runtime.view().insert(agent_id@, new_rt)
                &&& opt_view(new_rt.last_note) == Some(note)
                &&& match halt_of(*err) {
                    Some(h) => {
                        &&& new_rt == AgentRuntime {
                            in_flight: false,
                            last_kind: Some(error_kind_of(*err)),
                            last_note: new_rt.last_note,
                            last_latency_ms: None,
                            halted: Some(h),
                            next_beat_at: u64::MAX,
                            ..old_rt
                        }
                        &&& r matches Some(t) && t@ == name + " halted: "@ + h.message@
                        &&& logged(
                            old(self).history.activity@,
                            final(self).history.activity@,
                            now,
                            "error"@,
                            Some(agent_id@),
                            Some(name),
                            name + " halted: "@ + h.message@,
                        )
                    },
                    None => {
                        let delay = retry_delay(
                            *err,
                            failures,
                            interval_of(old(self).config, agent_id@),
                        );
                        &&& new_rt == AgentRuntime {
                            in_flight: false,
                            last_kind: Some(error_kind_of(*err)),
                            last_note: new_rt.last_note,
                            last_latency_ms: None,
                            consecutive_failures: failures,
                            next_beat_at: (now + delay) as u64,
                            ..old_rt
                        }
                        &&& failures == 3 ==> (r matches Some(t) && t@ == name
                            + " — heartbeats failing: "@ + note)
                        &&& failures != 3 ==> r is None
                        &&& logged(
                            old(self).history.activity@,
                            final(self).history.activity@,
                            now,
                            if failures >= 3 {
                                "error"@
                            } else {
                                "warn"@
                            },
                            Some(agent_id@),
                            Some(name),
                            name + ": "@ + note + " (retry in "@ + decimal(delay as nat)
                                + "s, attempt "@ + decimal(failures as nat) + ")"@,
                        )
                    },
                }
                &&& final(self).history.ring(agent_id@).len() > 0
                &&& beat_logged(
                    old(self).history,
                    HistoryStore { activity: old(self).history.activity, ..final(self).history },
                    agent_id@,
                    final(self).history.ring(agent_id@).last(),
                )
                &&& beat_is(
                    final(self).history.ring(agent_id@).last(),
                    now,
                    error_kind_of(*err),
                    err.http_status_of(),
                    None,
                    Some(note),
                )
            }),
            final(self).config == old(self).config,
            final(self).paused == old(self).paused,
            final(self).dirty_config == old(self).dirty_config,
            final(self).dirty_history,
    {
        let interval = self.beat_interval(agent_id);
        let name = self.agent_name(agent_id);
        let halt = halt_for(err);
        let kind = error_kind(err);
        let note = err.message();
        let http_status = err.http_status();
        let note_copy = note.clone();
        let rt = self.ensure_runtime(agent_id);
        rt.in_flight = false;
        rt.last_kind = Some(kind);
        rt.last_note = Some(note_copy);
        rt.last_latency_ms = None;
        let mut notification: Option<String> = None;
        match halt {
            Some(h) => {
                let mut text = name.clone();
                text.append(" halted: ");
                text.append(h.message.as_str());
                rt.halted = Some(h);
                rt.next_beat_at = u64::MAX;
                notification = Some(text.clone());
                self.push_activity_raw(now, "error", Some(String::from_str(agent_id)), Some(name), text);
            },
            None => {
                rt.consecutive_failures = rt.consecutive_failures.saturating_add(1);
                let failures = rt.consecutive_failures;
                let delay = match err {
                    ApiError::RateLimited { retry_after_secs } => rate_limit_delay_secs(*retry_after_secs),
                    _ => failure_delay_secs(failures, interval),
                };
                rt.next_beat_at = now + delay;
                let level = if failures >= 3 { "error" } else { "warn" };
                let mut text = name.clone();
                text.append(": ");
                text.append(note.as_str());
                text.append(" (retry in ");
                push_decimal(&mut text, delay);
                text.append("s, attempt ");
                push_decimal(&mut text, failures as u64);
                text.append(")");
                if failures == 3 {
                    let mut n = name.clone();
                    n.append(" — heartbeats failing: ");
                    n.append(note.as_str());
                    notification = Some(n);
                }
                self.push_activity_raw(now, level, Some(String::from_str(agent_id)), Some(name), text);
            },
        }
        self.history.push_beat(
            agent_id,
            BeatRecord { ts: now, kind, http_status, latency_ms: None, note: Some(note) },
        );
        self.dirty_history = true;
        notification
    }

    /// The tray color for the current state.
    pub fn tray_severity(&self) -> (r: TraySeverity)
        ensures
            r == severity_of(self),
    {
        let mut some_in_service = false;
        let mut i: usize = 0;
        while i < self.config.agents.len()
            invariant
                i <= self.config.agents@.len(),
                some_in_service == (exists|j: int| 0 <= j < i && #[trigger] self.config.agents@[j].in_service),
            decreases self.config.agents@.len() - i,
        {
            if self.config.agents[i].in_service {
                some_in_service = true;
            }
            i = i + 1;
        }
        if self.paused || !some_in_service {
            return TraySeverity::Paused;
        }
        assert(any_in_service(self));
        let mut degraded = false;
        let mut i: usize = 0;
        while i < self.config.agents.len()
            invariant
                i <= self.config.agents@.len(),
                !self.paused,
                any_in_service(self),
                forall|j: int| 0 <= j < i ==> !halted_in_service(self, j),
                degraded == (exists|j: int| 0 <= j < i && degraded_in_service(self, j)),
            decreases self.config.agents@.len() - i,
        {
            let agent = &self.config.agents[i];
            if agent.in_service {
                match self.runtime.get(agent.id.as_str()) {
                    Some(rt) => {
                        if rt.halted.is_some() {
                            assert(halted_in_service(self, i as int));
                            return TraySeverity::Halted;
                        }
                        if rt.consecutive_failures > 0 || rt.local_check_failing {
                            degraded = true;
                        }
                    },
                    None => {},
                }
            }
            proof {
                if degraded_in_service(self, i as int) {
                    assert(0 <= i < i + 1 && degraded_in_service(self, i as int));
                }
                if degraded && !degraded_in_service(self, i as int) {
                    let j = choose|j: int| 0 <= j < i && degraded_in_service(self, j);
                    assert(0 <= j < i + 1 && degraded_in_service(self, j));
                }
            }
            i = i + 1;
        }
        if degraded {
            TraySeverity::Degraded
        } else {
            TraySeverity::Healthy
        }
    }
    /// Collects the beats due at `now` and marks them in flight. Nothing
    /// launches while paused; otherwise the launchable agents launch in
    /// launch order, at most MAX_LAUNCH_PER_TICK per call and never more than
    /// MAX_CONCURRENT_BEATS in flight.
    pub fn due_jobs(&mut self, now: u64) -> (jobs: Vec<DueJob>)
        ensures
            old(self).paused ==> jobs@.len() == 0 && *final(self) == *old(self),
            !old(self).paused ==> exists|sel: Seq<int>|
                {
                    &&& #[trigger] launch_selection(old(self), now, sel)
                    &&& jobs@.len() == sel.len()
                    &&& forall|k: int| 0 <= k < sel.len() ==> job_for(#[trigger] jobs@[k], old(self).config.agents@[sel[k]])
                    &&& final(self).runtime.view().dom() == old(self).runtime.view().dom()
                    &&& forall|key: Seq<char>| #[trigger] final(self).runtime.view().dom().contains(key)
                        ==> final(self).runtime.view()[key] == if selected_id(old(self), sel, key) {
                            launched(old(self).runtime.view()[key], now)
                        } else {
                            old(self).runtime.view()[key]
                        }
                },
            final(self).config == old(self).config,
            final(self).history == old(self).history,
            final(self).paused == old(self).paused,
            final(self).dirty_config == old(self).dirty_config,
            final(self).dirty_history == old(self).dirty_history,
    {
        if self.paused {
            return Vec::new();
        }
        let ghost old_core = *self;
        let in_flight = self.runtime.count_flagged();
        let ghost budget_spec = launch_budget(in_flight_count(self.runtime.view()));
        assert(self.runtime.view().dom().filter(|k: Seq<char>| self.runtime.view()[k].flagged())
            =~= self.runtime.view().dom().filter(|k: Seq<char>| self.runtime.view()[k].in_flight));
        assert(in_flight == in_flight_count(self.runtime.view()));
        if in_flight >= MAX_CONCURRENT_BEATS {
            let ghost sel = Seq::<int>::empty();
            assert(launch_selection(&old_core, now, sel));
            assert(self.runtime.view() =~= old_core.runtime.view());
            return Vec::new();
        }
        let room = MAX_CONCURRENT_BEATS - in_flight;
        let budget = if room < MAX_LAUNCH_PER_TICK { room } else { MAX_LAUNCH_PER_TICK };
        assert(budget == budget_spec);

        // Launchable positions, in configuration order, with their due times.
        let mut cand: Vec<usize> = Vec::new();
        let mut at: Vec<u64> = Vec::new();
        let mut i: usize = 0;
        while i < self.config.agents.len()
            invariant
                *self == old_core,
                i <= self.config.agents@.len(),
                cand@.len() == at@.len(),
                forall|a: int, b: int| 0 <= a < b < cand@.len() ==> cand@[a] < cand@[b],
                forall|a: int| 0 <= a < cand@.len() ==> cand@[a] < i,
                forall|a: int| 0 <= a < cand@.len() ==> launchable(self, now, #[trigger] cand@[a] as int),
                forall|a: int| 0 <= a < cand@.len() ==> at@[a] == due_time(self, #[trigger] cand@[a] as int),
                forall|c: int| 0 <= c < i && launchable(self, now, c) ==> exists|a: int|
                    0 <= a < cand@.len() && #[trigger] cand@[a] == c,
            decreases self.config.agents@.len() - i,
        {
            let ghost cb = cand@;
            let agent = &self.config.agents[i];
            if agent.in_service {
                match self.runtime.get(agent.id.as_str()) {
                    Some(rt) => {
                        if !rt.in_flight && rt.halted.is_none() && now >= rt.next_beat_at {
                            cand.push(i);
                            at.push(rt.next_beat_at);
                            assert(cand@[cand@.len() - 1] == i);
                        }
                    },
                    None => {},
                }
            }
            proof {
                assert forall|c: int| 0 <= c < i + 1 && launchable(self, now, c) implies exists|a: int|
                    0 <= a < cand@.len() && #[trigger] cand@[a] == c by {
                    if c == i {
                        assert(cand@[cand@.len() - 1] == i);
                    } else {
                        let a = choose|a: int| 0 <= a < cb.len() && #[trigger] cb[a] == c;
                        assert(cand@[a] == c);
                    }
                }
            }
            i = i + 1;
        }

        // Pick the earliest untaken candidate, up to the budget.
        let mut taken: Vec<bool> = Vec::new();
        let mut t: usize = 0;
        while t < cand.len()
            invariant
                t <= cand@.len(),
                taken@.len() == t,
                forall|a: int| 0 <= a < t ==> !taken@[a],
            decreases cand@.len() - t,
        {
            taken.push(false);
            t = t + 1;
        }
        let mut sel: Vec<usize> = Vec::new();
        let ghost mut pos: Seq<int> = Seq::empty();
        let mut exhausted = false;
        while sel.len() < budget && !exhausted
            invariant
                exhausted ==> forall|a: int| 0 <= a < cand@.len() ==> taken@[a],
                *self == old_core,
                budget <= MAX_LAUNCH_PER_TICK,
                budget == budget_spec,
                cand@.len() == at@.len(),
                taken@.len() == cand@.len(),
                forall|a: int, b: int| 0 <= a < b < cand@.len() ==> cand@[a] < cand@[b],
                forall|a: int| 0 <= a < cand@.len() ==> launchable(self, now, #[trigger] cand@[a] as int),
                forall|a: int| 0 <= a < cand@.len() ==> at@[a] == due_time(self, #[trigger] cand@[a] as int),
                forall|c: int| launchable(self, now, c) ==> exists|a: int|
                    0 <= a < cand@.len() && #[trigger] cand@[a] == c,
                sel@.len() <= budget,
                pos.len() == sel@.len(),
                forall|k: int| 0 <= k < pos.len() ==> 0 <= #[trigger] pos[k] < cand@.len() && taken@[pos[k]]
                    && sel@[k] == cand@[pos[k]],
                forall|a: int| 0 <= a < cand@.len() && #[trigger] taken@[a] ==> exists|k: int| 0 <= k < pos.len() && pos[k] == a,
                forall|k: int, l: int| 0 <= k < l < sel@.len() ==> launches_before(self, sel@[k] as int, sel@[l] as int),
                forall|a: int, k: int| 0 <= a < cand@.len() && !taken@[a] && 0 <= k < sel@.len() ==> launches_before(
                    self,
                    #[trigger] sel@[k] as int,
                    #[trigger] cand@[a] as int,
                ),
            decreases budget - sel@.len(), if exhausted { 0int } else { 1int },
        {
            let mut best: Option<usize> = None;
            let mut j: usize = 0;
            while j < cand.len()
                invariant
                    j <= cand@.len(),
                    cand@.len() == at@.len(),
                    taken@.len() == cand@.len(),
                    best is None ==> forall|a: int| 0 <= a < j ==> taken@[a],
                    best matches Some(b) ==> b < j && !taken@[b as int] && forall|a: int|
                        0 <= a < j && !taken@[a] ==> (at@[b as int] < at@[a] || (at@[b as int] == at@[a] && b <= a)),
                decreases cand@.len() - j,
            {
                if !taken[j] {
                    match best {
                        None => {
                            best = Some(j);
                        },
                        Some(b) => {
                            if at[j] < at[b] {
                                best = Some(j);
                            }
                        },
                    }
                }
                j = j + 1;
            }
            match best {
                None => {
                    exhausted = true;
                },
                Some(b) => {
                    let ghost sel_before = sel@;
                    let ghost taken_before = taken@;
                    let ghost pos_before = pos;
                    taken.set(b, true);
                    sel.push(cand[b]);
                    proof {
                        pos = pos.push(b as int);
                        assert forall|a: int| 0 <= a < cand@.len() && #[trigger] taken@[a] implies exists|k: int|
                            0 <= k < pos.len() && pos[k] == a by {
                            if a == b {
                                assert(pos[pos.len() - 1] == a);
                            } else {
                                assert(taken_before[a]);
                                let k = choose|k: int| 0 <= k < pos_before.len() && pos_before[k] == a;
                                assert(0 <= k < pos.len() && pos[k] == a);
                            }
                        }
                        assert forall|a: int, k: int| 0 <= a < cand@.len() && !taken@[a] && 0 <= k < sel@.len() implies launches_before(
                            self,
                            #[trigger] sel@[k] as int,
                            #[trigger] cand@[a] as int,
                        ) by {
                            if k == sel@.len() - 1 {
                                assert(a != b);
                                if b < a {
                                    assert(cand@[b as int] < cand@[a]);
                                } else {
                                    assert(cand@[a] < cand@[b as int]);
                                }
                            } else {
                                assert(sel@[k] == sel_before[k]);
                            }
                        }
                        assert forall|k: int, l: int| 0 <= k < l < sel@.len() implies launches_before(self, sel@[k] as int, sel@[l] as int) by {
                            if l == sel@.len() - 1 {
                                assert(!taken_before[b as int]);
                                assert(sel@[k] == sel_before[k]);
                            } else {
                                assert(sel@[k] == sel_before[k]);
                                assert(sel@[l] == sel_before[l]);
                            }
                        }
                    }
                },
            }
        }

        let ghost sel_int: Seq<int> = sel@.map_values(|x: usize| x as int);
        proof {
            assert(sel_int.len() == sel@.len());
            assert forall|c: int| launchable(&old_core, now, c) && !sel_int.contains(c) implies {
                &&& sel_int.len() == launch_budget(in_flight_count(old_core.runtime.view()))
                &&& forall|k: int| 0 <= k < sel_int.len() ==> launches_before(&old_core, #[trigger] sel_int[k], c)
            } by {
                let a = choose|a: int| 0 <= a < cand@.len() && #[trigger] cand@[a] == c;
                if taken@[a] {
                    let k = choose|k: int| 0 <= k < pos.len() && pos[k] == a;
                    assert(sel_int[k] == c);
                }
                if sel@.len() < budget {
                    // the selection stopped early: every candidate was taken
                    assert(taken@[a]);
                }
                assert forall|k: int| 0 <= k < sel_int.len() implies launches_before(&old_core, #[trigger] sel_int[k], c) by {
                    assert(sel_int[k] == sel@[k] as int);
                }
            }
            assert forall|k: int| 0 <= k < sel_int.len() implies launchable(&old_core, now, #[trigger] sel_int[k]) by {
                assert(sel_int[k] == cand@[pos[k]] as int);
            }
            assert forall|k: int, l: int| 0 <= k < l < sel_int.len() implies launches_before(&old_core, sel_int[k], sel_int[l]) by {
                assert(sel_int[k] == sel@[k] as int);
                assert(sel_int[l] == sel@[l] as int);
            }
            assert(launch_selection(&old_core, now, sel_int));
        }

        // Build the jobs and mark their agents in flight.
        let mut jobs: Vec<DueJob> = Vec::new();
        let mut k: usize = 0;
        while k < sel.len()
            invariant
                k <= sel@.len(),
                self.config == old_core.config,
                self.history == old_core.history,
                self.paused == old_core.paused,
                self.dirty_config == old_core.dirty_config,
                self.dirty_history == old_core.dirty_history,
                sel_int == sel@.map_values(|x: usize| x as int),
                launch_selection(&old_core, now, sel_int),
                jobs@.len() == k,
                forall|x: int| 0 <= x < k ==> job_for(#[trigger] jobs@[x], old_core.config.agents@[sel_int[x]]),
                self.runtime.view().dom() == old_core.runtime.view().dom(),
                forall|key: Seq<char>| #[trigger] self.runtime.view().dom().contains(key) ==> self.runtime.view()[key]
                    == if (exists|x: int| 0 <= x < k && old_core.config.agents@[#[trigger] sel_int[x]].id@ == key) {
                        launched(old_core.runtime.view()[key], now)
                    } else {
                        old_core.runtime.view()[key]
                    },
            decreases sel@.len() - k,
        {
            let i = sel[k];
            assert(launchable(&old_core, now, sel_int[k as int]));
            let agent = &self.config.agents[i];
            jobs.push(
                DueJob {
                    agent_id: agent.id.clone(),
                    interval_secs: agent.interval_secs,
                    local_check: duplicate_check(&agent.local_check),
                    explicit_status: None,
                },
            );
            let ghost before = self.runtime.view();
            let ghost key_k = agent.id@;
            match self.runtime.get_mut(agent.id.as_str()) {
                Some(rt) => {
                    rt.in_flight = true;
                    rt.last_attempt_at = Some(now);
                },
                None => {},
            }
            proof {
                assert forall|key: Seq<char>| #[trigger] self.runtime.view().dom().contains(key) implies self.runtime.view()[key]
                    == if (exists|x: int| 0 <= x < k + 1 && old_core.config.agents@[#[trigger] sel_int[x]].id@ == key) {
                        launched(old_core.runtime.view()[key], now)
                    } else {
                        old_core.runtime.view()[key]
                    } by {
                    if key == key_k {
                        assert(old_core.config.agents@[sel_int[k as int]].id@ == key);
                    } else {
                        if (exists|x: int| 0 <= x < k + 1 && old_core.config.agents@[#[trigger] sel_int[x]].id@ == key) {
                            let x = choose|x: int| 0 <= x < k + 1 && old_core.config.agents@[#[trigger] sel_int[x]].id@ == key;
                            assert(x != k);
                            assert(0 <= x < k && old_core.config.agents@[sel_int[x]].id@ == key);
                        }
                    }
                }
                assert(self.runtime.view().dom() =~= old_core.runtime.view().dom());
            }
            k = k + 1;
        }
        proof {
            assert forall|key: Seq<char>| #[trigger] self.runtime.view().dom().contains(key) implies
                ((exists|x: int| 0 <= x < sel_int.len() && old_core.config.agents@[#[trigger] sel_int[x]].id@ == key)
                    == selected_id(&old_core, sel_int, key)) by {
            }
        }
        jobs
    }
}

} // verus!
