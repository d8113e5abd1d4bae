//! The decisions behind the user's commands: fleet membership, service
//! toggles, settings patches. The transport to the UI stays outside the
//! library; each command's effect on the core is here.
use vstd::prelude::*;

use crate::api::{base_url_verdict, is_valid_token_format, normalize_base_url, token_shape_ok, BeatSuccess, MeAgent};
use crate::config::{
    agent_pos, clamp_interval, clamped, has_agent, lemma_agent_pos, local_check_url_ok,
    lookup_agent, normalize_local_check_url, AgentConfig, AppConfig, LocalCheck,
};
use crate::engine::{fresh_runtime, logged, logged_for, name_of, runtime_or_fresh, AgentRuntime, Core};
use crate::errors::ApiError;
use crate::history::BeatKind;
use crate::text::{chars_eq, chars_of, opt_view, str_eq, string_from_range, trim_bounds, trim_ws};
use crate::vault::VaultMode;

verus! {

/// What a command reports back when it refuses or fails.
#[derive(Debug)]
pub enum CommandError {
    /// A message for the user.
    Msg(String),
    /// A failed API call.
    Api(ApiError),
    /// A vault failure.
    Vault(String),
}

/// `r` is the refusal with message `m`.
pub open spec fn refused_with(r: Result<(), CommandError>, m: Seq<char>) -> bool {
    r matches Err(CommandError::Msg(s)) && s@ == m
}

/// Per-agent settings patch. `local_check`: `None` leaves it, `Some(None)`
/// clears it, `Some(Some(x))` sets it.
pub struct AgentSettingsPatch {
    pub interval_secs: Option<u64>,
    pub local_check: Option<Option<LocalCheck>>,
}

/// App settings patch; absent fields are left as they are.
pub struct SettingsPatch {
    pub base_url: Option<String>,
    pub theme: Option<String>,
    pub minimize_to_tray: Option<bool>,
    pub notify_on_problems: Option<bool>,
    pub default_interval_secs: Option<u64>,
}

/// The themes the UI knows.
pub open spec fn theme_known(t: Seq<char>) -> bool {
    t == "system"@ || t == "dark"@ || t == "light"@
}

/// `agents` without the agents with id `id`, order kept.
pub open spec fn without_agent(agents: Seq<AgentConfig>, id: Seq<char>) -> Seq<AgentConfig>
    decreases agents.len(),
{
    if agents.len() == 0 {
        agents
    } else if agents.last().id@ == id {
        without_agent(agents.drop_last(), id)
    } else {
        without_agent(agents.drop_last(), id).push(agents.last())
    }
}

/// Every agent id of the configuration gets `f` applied to its record
/// (a fresh one when missing); other records are kept.
pub open spec fn scheduled_all(
    config: AppConfig,
    before: Map<Seq<char>, AgentRuntime>,
    after: Map<Seq<char>, AgentRuntime>,
) -> bool {
    &&& forall|k: Seq<char>| #[trigger] after.dom().contains(k) <==> (before.dom().contains(k) || has_agent(config.agents@, k))
    &&& forall|k: Seq<char>| #[trigger] after.dom().contains(k) ==> after[k] == if has_agent(config.agents@, k) {
        asap(runtime_or_fresh(before, k))
    } else {
        before[k]
    }
}

/// A record made due at once unless a beat is in flight.
pub open spec fn asap(r: AgentRuntime) -> AgentRuntime {
    if r.in_flight {
        r
    } else {
        AgentRuntime { next_beat_at: 0, ..r }
    }
}

fn msg(text: &str) -> (r: CommandError)
    ensures
        r matches CommandError::Msg(s) && s@ == text@,
{
    CommandError::Msg(String::from_str(text))
}

/// The vault mode the UI names: "keyring" or "passphrase".
pub fn parse_vault_mode(mode: &str) -> (r: Result<VaultMode, CommandError>)
    ensures
        mode@ == "keyring"@ ==> r matches Ok(VaultMode::Keyring),
        mode@ == "passphrase"@ ==> r matches Ok(VaultMode::Passphrase),
        mode@ != "keyring"@ && mode@ != "passphrase"@ ==> (r matches Err(CommandError::Msg(m)) && m@
            == "Unknown vault mode"@),
{
    proof {
        reveal_strlit("keyring");
        reveal_strlit("passphrase");
        assert("keyring"@[0] != "passphrase"@[0]);
    }
    if str_eq(mode, "keyring") {
        Ok(VaultMode::Keyring)
    } else if str_eq(mode, "passphrase") {
        Ok(VaultMode::Passphrase)
    } else {
        Err(msg("Unknown vault mode"))
    }
}

/// A pasted token, trimmed, when it has the platform's shape.
pub fn pasted_token(token: &str) -> (r: Result<String, CommandError>)
    ensures
        token_shape_ok(trim_ws(token@)) ==> (r matches Ok(t) && t@ == trim_ws(token@)),
        !token_shape_ok(trim_ws(token@)) ==> (r matches Err(CommandError::Msg(m)) && m@
            == "That doesn't look like an agent token — expected tk_ followed by 64 hex characters"@),
{
    let chars = chars_of(token);
    let (lo, hi) = trim_bounds(&chars);
    let trimmed = string_from_range(&chars, lo, hi);
    if !is_valid_token_format(trimmed.as_str()) {
        return Err(msg("That doesn't look like an agent token — expected tk_ followed by 64 hex characters"));
    }
    Ok(trimmed)
}

/// What adding an agent reports when the platform refused its token: a
/// rejected token gets a plain message, other failures are passed on.
pub fn verify_failure(err: ApiError) -> (r: CommandError)
    ensures
        err is Unauthorized ==> (r matches CommandError::Msg(m) && m@
            == "Tragentics rejected this token — check that you copied the full tk_ token"@),
        !(err is Unauthorized) ==> r == CommandError::Api(err),
{
    match err {
        ApiError::Unauthorized { .. } => msg("Tragentics rejected this token — check that you copied the full tk_ token"),
        other => CommandError::Api(other),
    }
}

/// Only a passphrase vault can be locked by hand.
pub fn check_lockable(mode: Option<VaultMode>) -> (r: Result<(), CommandError>)
    ensures
        r is Ok <==> mode == Some(VaultMode::Passphrase),
        r is Err ==> refused_with(r, "Only passphrase vaults can be locked manually"@),
{
    match mode {
        Some(VaultMode::Passphrase) => Ok(()),
        _ => Err(msg("Only passphrase vaults can be locked manually")),
    }
}

/// Whether the theme is one the UI knows.
pub fn is_known_theme(theme: &str) -> (r: bool)
    ensures
        r == theme_known(theme@),
{
    str_eq(theme, "system") || str_eq(theme, "dark") || str_eq(theme, "light")
}

impl Core {
    /// Refuses an agent that is already in the fleet.
    pub fn check_not_in_fleet(&self, me: &MeAgent) -> (r: Result<(), CommandError>)
        ensures
            r is Err <==> has_agent(self.config.agents@, me.id@),
            r is Err ==> refused_with(r, me.name@ + " is already in your fleet"@),
    {
        match self.config.agent(me.id.as_str()) {
            Some(_) => {
                proof {
                    lemma_agent_pos(self.config.agents@, me.id@);
                }
                let mut text = me.name.clone();
                text.append(" is already in your fleet");
                Err(CommandError::Msg(text))
            },
            None => Ok(()),
        }
    }

    /// Adds a verified agent to the fleet, in service at the default interval,
    /// and schedules its first beat at once.
    pub fn add_to_fleet(&mut self, me: MeAgent, fingerprint: String, now: u64)
        ensures
            final(self).config == (AppConfig {
                agents: final(self).config.agents,
                ..old(self).config
            }),
            final(self).config.agents@ == old(self).config.agents@.push(
                AgentConfig {
                    id: me.id,
                    name: me.name,
                    fingerprint,
                    in_service: true,
                    interval_secs: clamped(old(self).config.default_interval_secs),
                    local_check: None,
                    added_at: now,
                },
            ),
            final(self).runtime.view() == old(self).runtime.view().insert(
                me.id@,
                asap(
                    AgentRuntime {
                        me: Some(me),
                        platform_status: Some(me.status),
                        platform_last_heartbeat: me.last_heartbeat,
                        ..runtime_or_fresh(old(self).runtime.view(), me.id@)
                    },
                ),
            ),
            logged_for(
                final(self).config,
                old(self).history.activity@,
                final(self).history.activity@,
                now,
                "info"@,
                Some(me.id@),
                me.name@ + " added to the fleet — first beat on the way"@,
            ),
            final(self).history.beats == old(self).history.beats,
            final(self).paused == old(self).paused,
            final(self).dirty_config,
            final(self).dirty_history,
    {
        let interval = clamp_interval(self.config.default_interval_secs);
        self.config.agents.push(
            AgentConfig {
                id: me.id.clone(),
                name: me.name.clone(),
                fingerprint,
                in_service: true,
                interval_secs: interval,
                local_check: None,
                added_at: now,
            },
        );
        self.dirty_config = true;
        let id = me.id.clone();
        let mut text = me.name.clone();
        text.append(" added to the fleet — first beat on the way");
        let status = me.status.clone();
        let last = me.last_heartbeat.clone();
        let rt = self.ensure_runtime(id.as_str());
        rt.platform_status = Some(status);
        rt.platform_last_heartbeat = last;
        rt.me = Some(me);
        self.push_activity(now, "info", Some(id.as_str()), text);
        self.schedule_asap(id.as_str());
    }

    /// Removes an agent from the fleet with its runtime record and history.
    pub fn remove_from_fleet(&mut self, agent_id: &str, now: u64)
        ensures
            final(self).config == (AppConfig {
                agents: final(self).config.agents,
                ..old(self).config
            }),
            final(self).config.agents@ == without_agent(old(self).config.agents@, agent_id@),
            final(self).runtime.view() == old(self).runtime.view().remove(agent_id@),
            final(self).history.beats.view() == old(self).history.beats.view().remove(agent_id@),
            logged(
                old(self).history.activity@,
                final(self).history.activity@,
                now,
                "info"@,
                None,
                None,
                name_of(old(self).config, agent_id@) + " removed from the fleet"@,
            ),
            final(self).paused == old(self).paused,
            final(self).dirty_config,
            final(self).dirty_history,
    {
        let mut text = self.agent_name(agent_id);
        text.append(" removed from the fleet");
        let mut kept: Vec<AgentConfig> = Vec::new();
        let ghost old_agents = self.config.agents@;
        let mut old_list: Vec<AgentConfig> = Vec::new();
        std::mem::swap(&mut old_list, &mut self.config.agents);
        let mut i: usize = 0;
        let n = old_list.len();
        let mut rest = old_list;
        assert(rest@ =~= old_agents.skip(0));
        while i < n
            invariant
                n == old_agents.len(),
                i <= n,
                rest@ == old_agents.skip(i as int),
                kept@ == without_agent(old_agents.take(i as int), agent_id@),
            decreases n - i,
        {
            let a = rest.remove(0);
            assert(a == old_agents[i as int]);
            assert(rest@ =~= old_agents.skip(i + 1));
            assert(old_agents.take(i + 1).drop_last() =~= old_agents.take(i as int));
            if !str_eq(a.id.as_str(), agent_id) {
                kept.push(a);
            }
            i = i + 1;
        }
        assert(old_agents.take(n as int) =~= old_agents);
        self.config.agents = kept;
        self.runtime.remove(agent_id);
        self.history.remove_agent(agent_id);
        self.dirty_config = true;
        self.dirty_history = true;
        self.push_activity(now, "info", None, text);
    }

    /// Puts an agent in or out of service. In service clears any halt;
    /// out of service is followed by an honest offline report (sent by the caller).
    pub fn set_in_service(&mut self, agent_id: &str, in_service: bool, now: u64) -> (r: Result<(), CommandError>)
        ensures
            r is Err <==> !has_agent(old(self).config.agents@, agent_id@),
            r is Err ==> refused_with(r, "Agent not found"@) && *final(self) == *old(self),
            r is Ok ==> {
                let pos = agent_pos(old(self).config.agents@, agent_id@);
                let name = name_of(old(self).config, agent_id@);
                &&& final(self).config == (AppConfig {
                    agents: final(self).config.agents,
                    ..old(self).config
                })
                &&& final(self).config.agents@ == old(self).config.agents@.update(
                    pos,
                    AgentConfig { in_service, ..old(self).config.agents@[pos] },
                )
                &&& final(self).dirty_config
                &&& final(self).paused == old(self).paused
                &&& final(self).history.beats == old(self).history.beats
                &&& in_service ==> {
                    &&& final(self).runtime.view() == old(self).runtime.view().insert(
                        agent_id@,
                        AgentRuntime {
                            halted: None,
                            consecutive_failures: 0,
                            next_beat_at: 0,
                            ..runtime_or_fresh(old(self).runtime.view(), agent_id@)
                        },
                    )
                    &&& exists|mid: Seq<crate::history::ActivityEvent>|
                        logged_for(
                            final(self).config,
                            old(self).history.activity@,
                            mid,
                            now,
                            "info"@,
                            Some(agent_id@),
                            name + ": halt cleared — retrying"@,
                        ) && logged_for(
                            final(self).config,
                            mid,
                            final(self).history.activity@,
                            now,
                            "info"@,
                            Some(agent_id@),
                            name + " put in service"@,
                        )
                }
                &&& !in_service ==> {
                    &&& final(self).runtime == old(self).runtime
                    &&& logged_for(
                        final(self).config,
                        old(self).history.activity@,
                        final(self).history.activity@,
                        now,
                        "info"@,
                        Some(agent_id@),
                        name + " taken out of service — reporting offline"@,
                    )
                }
            },
    {
        let name = self.agent_name(agent_id);
        match self.config.agent_mut(agent_id) {
            None => {
                return Err(msg("Agent not found"));
            },
            Some(agent) => {
                agent.in_service = in_service;
            },
        }
        proof {
            lemma_agent_pos(old(self).config.agents@, agent_id@);
            crate::config::lemma_same_ids(old(self).config.agents@, self.config.agents@);
        }
        self.dirty_config = true;
        if in_service {
            self.clear_halt(agent_id, now);
            let mut text = name.clone();
            text.append(" put in service");
            self.push_activity(now, "info", Some(agent_id), text);
        } else {
            let mut text = name.clone();
            text.append(" taken out of service — reporting offline");
            self.push_activity(now, "info", Some(agent_id), text);
        }
        Ok(())
    }
    /// "Beat Now": clears a halt (which also makes the agent due) or makes
    /// the agent due at once.
    pub fn beat_now(&mut self, agent_id: &str, now: u64) -> (r: Result<(), CommandError>)
        ensures
            r is Err <==> !has_agent(old(self).config.agents@, agent_id@),
            r is Err ==> refused_with(r, "Agent not found"@) && *final(self) == *old(self),
            r is Ok ==> {
                let old_rt = runtime_or_fresh(old(self).runtime.view(), agent_id@);
                let halted = old(self).runtime.view().dom().contains(agent_id@) && old_rt.halted is Some;
                &&& final(self).config == old(self).config
                &&& final(self).paused == old(self).paused
                &&& final(self).dirty_config == old(self).dirty_config
                &&& final(self).history.beats == old(self).history.beats
                &&& halted ==> final(self).runtime.view() == old(self).runtime.view().insert(
                    agent_id@,
                    AgentRuntime { halted: None, consecutive_failures: 0, next_beat_at: 0, ..old_rt },
                ) && logged_for(
                    old(self).config,
                    old(self).history.activity@,
                    final(self).history.activity@,
                    now,
                    "info"@,
                    Some(agent_id@),
                    name_of(old(self).config, agent_id@) + ": halt cleared — retrying"@,
                )
                &&& !halted ==> final(self).runtime.view() == old(self).runtime.view().insert(
                    agent_id@,
                    asap(old_rt),
                ) && final(self).history == old(self).history
                    && final(self).dirty_history == old(self).dirty_history
            },
    {
        if self.config.agent(agent_id).is_none() {
            return Err(msg("Agent not found"));
        }
        proof {
            lemma_agent_pos(self.config.agents@, agent_id@);
        }
        let halted = match self.runtime.get(agent_id) {
            Some(rt) => rt.halted.is_some(),
            None => false,
        };
        if halted {
            self.clear_halt(agent_id, now);
        } else {
            self.schedule_asap(agent_id);
        }
        Ok(())
    }

    /// Applies a per-agent settings patch: the interval is clamped; a new
    /// local check must have an http(s) URL (checked after the interval is
    /// applied, as the patch is applied field by field).
    pub fn update_agent(&mut self, agent_id: &str, patch: AgentSettingsPatch) -> (r: Result<(), CommandError>)
        ensures
            !has_agent(old(self).config.agents@, agent_id@) ==> refused_with(r, "Agent not found"@)
                && *final(self) == *old(self),
            has_agent(old(self).config.agents@, agent_id@) ==> {
                let pos = agent_pos(old(self).config.agents@, agent_id@);
                let a = old(self).config.agents@[pos];
                let with_interval = match patch.interval_secs {
                    Some(secs) => AgentConfig { interval_secs: clamped(secs), ..a },
                    None => a,
                };
                let check_refused = match patch.local_check {
                    Some(Some(c)) => !local_check_url_ok(c.url@),
                    _ => false,
                };
                &&& final(self).runtime == old(self).runtime
                &&& final(self).history == old(self).history
                &&& final(self).paused == old(self).paused
                &&& final(self).dirty_history == old(self).dirty_history
                &&& final(self).config == (AppConfig { agents: final(self).config.agents, ..old(self).config })
                &&& check_refused ==> {
                    &&& refused_with(r, "Local check URL must start with http:// or https://"@)
                    &&& final(self).config.agents@ == old(self).config.agents@.update(pos, with_interval)
                    &&& final(self).dirty_config == old(self).dirty_config
                }
                &&& !check_refused ==> {
                    &&& r is Ok
                    &&& final(self).config.agents@ == old(self).config.agents@.update(
                        pos,
                        match patch.local_check {
                            Some(lc) => AgentConfig { local_check: lc, ..with_interval },
                            None => with_interval,
                        },
                    )
                    &&& final(self).dirty_config
                }
            },
    {
        proof {
            lemma_agent_pos(self.config.agents@, agent_id@);
        }
        let agent = match self.config.agent_mut(agent_id) {
            None => {
                return Err(msg("Agent not found"));
            },
            Some(agent) => agent,
        };
        match patch.interval_secs {
            Some(interval) => {
                agent.interval_secs = clamp_interval(interval);
            },
            None => {},
        }
        match patch.local_check {
            Some(lc) => {
                match &lc {
                    Some(check) => {
                        match normalize_local_check_url(check.url.as_str()) {
                            Err(e) => {
                                return Err(CommandError::Msg(e));
                            },
                            Ok(()) => {},
                        }
                    },
                    None => {},
                }
                agent.local_check = lc;
            },
            None => {},
        }
        self.dirty_config = true;
        Ok(())
    }

    /// Records a fresh /me answer for an agent: its name (when it changed)
    /// and the platform's view of it.
    pub fn apply_me(&mut self, agent_id: &str, me: MeAgent)
        ensures
            ({
                let pos = agent_pos(old(self).config.agents@, agent_id@);
                let renamed = pos >= 0 && old(self).config.agents@[pos].name@ != me.name@;
                &&& renamed ==> final(self).config.agents@ == old(self).config.agents@.update(
                    pos,
                    AgentConfig { name: me.name, ..old(self).config.agents@[pos] },
                ) && final(self).dirty_config
                &&& !renamed ==> final(self).config.agents == old(self).config.agents
                    && final(self).dirty_config == old(self).dirty_config
            }),
            final(self).config == (AppConfig { agents: final(self).config.agents, ..old(self).config }),
            final(self).runtime.view() == old(self).runtime.view().insert(
                agent_id@,
                AgentRuntime {
                    platform_status: Some(me.status),
                    platform_last_heartbeat: me.last_heartbeat,
                    me: Some(me),
                    ..runtime_or_fresh(old(self).runtime.view(), agent_id@)
                },
            ),
            final(self).history == old(self).history,
            final(self).paused == old(self).paused,
            final(self).dirty_history == old(self).dirty_history,
    {
        let renamed = match self.config.agent(agent_id) {
            Some(a) => !chars_eq(&chars_of(a.name.as_str()), &chars_of(me.name.as_str())),
            None => false,
        };
        if renamed {
            match self.config.agent_mut(agent_id) {
                Some(a) => {
                    a.name = me.name.clone();
                },
                None => {},
            }
            self.dirty_config = true;
        }
        let status = me.status.clone();
        let last = me.last_heartbeat.clone();
        let rt = self.ensure_runtime(agent_id);
        rt.platform_status = Some(status);
        rt.platform_last_heartbeat = last;
        rt.me = Some(me);
    }

    /// Applies an app settings patch field by field: the base URL must pass
    /// `normalize_base_url` (a change is logged), the theme must be known;
    /// the default interval is clamped. A refused field stops the patch there.
    pub fn update_settings(&mut self, patch: SettingsPatch, now: u64) -> (r: Result<(), CommandError>)
        ensures
            final(self).runtime == old(self).runtime,
            final(self).history.beats == old(self).history.beats,
            final(self).paused == old(self).paused,
            final(self).config.agents == old(self).config.agents,
            ({
                let url_verdict = match patch.base_url {
                    Some(u) => Some(base_url_verdict(u@)),
                    None => None,
                };
                let url_changed = url_verdict matches Some(Ok(u)) && u != old(self).config.base_url@;
                let theme_refused = patch.theme matches Some(t) && !theme_known(t@);
                &&& url_verdict matches Some(Err(m)) ==> {
                    &&& refused_with(r, m)
                    &&& *final(self) == *old(self)
                }
                &&& !(url_verdict matches Some(Err(_))) ==> {
                    &&& url_changed ==> (url_verdict matches Some(Ok(u)) && final(self).config.base_url@ == u)
                        && logged(
                        old(self).history.activity@,
                        final(self).history.activity@,
                        now,
                        "warn"@,
                        None,
                        None,
                        "API base URL changed to "@ + final(self).config.base_url@,
                    )
                    &&& !url_changed ==> final(self).config.base_url == old(self).config.base_url
                        && final(self).history.activity == old(self).history.activity
                    &&& theme_refused ==> {
                        &&& refused_with(r, "Unknown theme"@)
                        &&& final(self).config.theme == old(self).config.theme
                        &&& final(self).config.minimize_to_tray == old(self).config.minimize_to_tray
                        &&& final(self).config.notify_on_problems == old(self).config.notify_on_problems
                        &&& final(self).config.default_interval_secs == old(self).config.default_interval_secs
                        &&& final(self).dirty_config == old(self).dirty_config
                    }
                    &&& !theme_refused ==> {
                        &&& r is Ok
                        &&& final(self).config.theme == (match patch.theme {
                            Some(t) => t,
                            None => old(self).config.theme,
                        })
                        &&& final(self).config.minimize_to_tray == (match patch.minimize_to_tray {
                            Some(v) => v,
                            None => old(self).config.minimize_to_tray,
                        })
                        &&& final(self).config.notify_on_problems == (match patch.notify_on_problems {
                            Some(v) => v,
                            None => old(self).config.notify_on_problems,
                        })
                        &&& final(self).config.default_interval_secs == (match patch.default_interval_secs {
                            Some(v) => clamped(v),
                            None => old(self).config.default_interval_secs,
                        })
                        &&& final(self).dirty_config
                    }
                }
            }),
    {
        match patch.base_url {
            Some(url) => {
                match normalize_base_url(url.as_str()) {
                    Err(e) => {
                        return Err(CommandError::Msg(e));
                    },
                    Ok(normalized) => {
                        if !chars_eq(&chars_of(normalized.as_str()), &chars_of(self.config.base_url.as_str())) {
                            let mut text = String::from_str("API base URL changed to ");
                            text.append(normalized.as_str());
                            self.config.base_url = normalized;
                            self.push_activity(now, "warn", None, text);
                        }
                    },
                }
            },
            None => {},
        }
        match patch.theme {
            Some(theme) => {
                if !is_known_theme(theme.as_str()) {
                    return Err(msg("Unknown theme"));
                }
                self.config.theme = theme;
            },
            None => {},
        }
        match patch.minimize_to_tray {
            Some(v) => {
                self.config.minimize_to_tray = v;
            },
            None => {},
        }
        match patch.notify_on_problems {
            Some(v) => {
                self.config.notify_on_problems = v;
            },
            None => {},
        }
        match patch.default_interval_secs {
            Some(v) => {
                self.config.default_interval_secs = clamp_interval(v);
            },
            None => {},
        }
        self.dirty_config = true;
        Ok(())
    }

    /// Records the outcome of a one-shot offline report: a delivered report
    /// is an `OfflineOk` beat (next cycle one plain interval away, unless a
    /// scheduled beat is in flight, whose bookkeeping is left alone); a failed
    /// one is only logged, since the platform drifts the agent offline anyway.
    pub fn record_offline_result(
        &mut self,
        agent_id: &str,
        outcome: Result<BeatSuccess, ApiError>,
        reason: &str,
        now: u64,
    )
        requires
            now + clamped(crate::engine::interval_of(old(self).config, agent_id@)) <= u64::MAX,
        ensures
            match outcome {
                Ok(success) => {
                    let old_rt = runtime_or_fresh(old(self).runtime.view(), agent_id@);
                    let new_rt = final(self).runtime.view()[agent_id@];
                    &&& final(self).runtime.view() == old(self).runtime.view().insert(agent_id@, new_rt)
                    &&& new_rt == (AgentRuntime {
                        in_flight: old_rt.in_flight,
                        consecutive_failures: 0,
                        last_success_at: Some(now),
                        last_kind: Some(BeatKind::OfflineOk),
                        last_note: new_rt.last_note,
                        last_latency_ms: Some(success.latency_ms),
                        platform_status: Some(success.platform_status),
                        platform_last_heartbeat: success.platform_last_heartbeat,
                        local_check_failing: false,
                        next_beat_at: if old_rt.in_flight {
                            old_rt.next_beat_at
                        } else {
                            (now + clamped(crate::engine::interval_of(old(self).config, agent_id@))) as u64
                        },
                        ..old_rt
                    })
                    &&& opt_view(new_rt.last_note) == Some(reason@)
                    &&& final(self).history.ring(agent_id@).len() > 0
                    &&& final(self).history.ring(agent_id@).last().kind == BeatKind::OfflineOk
                    &&& final(self).dirty_history
                },
                Err(err) => {
                    &&& final(self).runtime == old(self).runtime
                    &&& final(self).history.beats == old(self).history.beats
                    &&& logged_for(
                        old(self).config,
                        old(self).history.activity@,
                        final(self).history.activity@,
                        now,
                        "warn"@,
                        Some(agent_id@),
                        name_of(old(self).config, agent_id@) + ": offline report failed ("@
                            + err.message_of()
                            + ") — the platform will drift it idle→offline on its own"@,
                    )
                },
            },
            final(self).config == old(self).config,
            final(self).paused == old(self).paused,
            final(self).dirty_config == old(self).dirty_config,
    {
        match outcome {
            Ok(success) => {
                let (was_in_flight, was_next) = match self.runtime.get(agent_id) {
                    Some(r) => (r.in_flight, r.next_beat_at),
                    None => (false, 0),
                };
                let delay = clamp_interval(self.beat_interval(agent_id));
                self.apply_success(
                    agent_id,
                    BeatKind::OfflineOk,
                    success.platform_status,
                    success.platform_last_heartbeat,
                    success.latency_ms,
                    Some(String::from_str(reason)),
                    now,
                    delay,
                );
                if was_in_flight {
                    // A beat of the scheduler is still out: its bookkeeping stays as it was.
                    match self.runtime.get_mut(agent_id) {
                        Some(rt) => {
                            rt.in_flight = true;
                            rt.next_beat_at = was_next;
                        },
                        None => {},
                    }
                }
            },
            Err(err) => {
                let mut text = self.agent_name(agent_id);
                text.append(": offline report failed (");
                text.append(err.message().as_str());
                text.append(") — the platform will drift it idle→offline on its own");
                self.push_activity(now, "warn", Some(agent_id), text);
            },
        }
    }

    /// After the vault is unlocked: log it and make every agent due at once.
    pub fn resume_after_unlock(&mut self, now: u64)
        ensures
            scheduled_all(old(self).config, old(self).runtime.view(), final(self).runtime.view()),
            logged(
                old(self).history.activity@,
                final(self).history.activity@,
                now,
                "info"@,
                None,
                None,
                "Vault unlocked — beating enabled"@,
            ),
            final(self).config == old(self).config,
            final(self).history.beats == old(self).history.beats,
            final(self).paused == old(self).paused,
            final(self).dirty_config == old(self).dirty_config,
            final(self).dirty_history,
    {
        self.push_activity(now, "info", None, String::from_str("Vault unlocked — beating enabled"));
        let ghost start = self.runtime.view();
        let n = self.config.agents.len();
        let mut i: usize = 0;
        while i < n
            invariant
                n == self.config.agents@.len(),
                i <= n,
                self.config == old(self).config,
                self.history.beats == old(self).history.beats,
                self.paused == old(self).paused,
                self.dirty_config == old(self).dirty_config,
                self.dirty_history,
                start == old(self).runtime.view(),
                logged(
                    old(self).history.activity@,
                    self.history.activity@,
                    now,
                    "info"@,
                    None,
                    None,
                    "Vault unlocked — beating enabled"@,
                ),
                forall|k: Seq<char>| #[trigger] self.runtime.view().dom().contains(k) <==> (start.dom().contains(k)
                    || exists|j: int| 0 <= j < i && self.config.agents@[j].id@ == k),
                forall|k: Seq<char>| #[trigger] self.runtime.view().dom().contains(k) ==> self.runtime.view()[k]
                    == if (exists|j: int| 0 <= j < i && self.config.agents@[j].id@ == k) {
                        asap(runtime_or_fresh(start, k))
                    } else {
                        start[k]
                    },
            decreases n - i,
        {
            let ghost key = self.config.agents@[i as int].id@;
            let ghost before = self.runtime.view();
            let id = self.config.agents[i].id.clone();
            self.schedule_asap(id.as_str());
            proof {
                assert forall|k: Seq<char>| #[trigger] self.runtime.view().dom().contains(k) <==> (start.dom().contains(k)
                    || exists|j: int| 0 <= j < i + 1 && self.config.agents@[j].id@ == k) by {
                    if k == key {
                        assert(0 <= i < i + 1 && self.config.agents@[i as int].id@ == k);
                    } else if exists|j: int| 0 <= j < i + 1 && self.config.agents@[j].id@ == k {
                        let j = choose|j: int| 0 <= j < i + 1 && self.config.agents@[j].id@ == k;
                        assert(0 <= j < i && self.config.agents@[j].id@ == k);
                    }
                }
                assert forall|k: Seq<char>| #[trigger] self.runtime.view().dom().contains(k) implies self.runtime.view()[k]
                    == if (exists|j: int| 0 <= j < i + 1 && self.config.agents@[j].id@ == k) {
                        asap(runtime_or_fresh(start, k))
                    } else {
                        start[k]
                    } by {
                    if k == key {
                        assert(0 <= i < i + 1 && self.config.agents@[i as int].id@ == k);
                        if exists|j: int| 0 <= j < i && self.config.agents@[j].id@ == k {
                            assert(before.dom().contains(k));
                        } else if before.dom().contains(k) {
                            assert(start.dom().contains(k));
                        }
                    } else if exists|j: int| 0 <= j < i + 1 && self.config.agents@[j].id@ == k {
                        let j = choose|j: int| 0 <= j < i + 1 && self.config.agents@[j].id@ == k;
                        assert(0 <= j < i && self.config.agents@[j].id@ == k);
                    }
                }
            }
            i = i + 1;
        }
        proof {
            assert forall|k: Seq<char>| (exists|j: int| 0 <= j < n && self.config.agents@[j].id@ == k) == has_agent(
                self.config.agents@,
                k,
            ) by {
                if has_agent(self.config.agents@, k) {
                    let j = choose|j: int| 0 <= j < self.config.agents@.len() && #[trigger] self.config.agents@[j].id@ == k;
                    assert(0 <= j < n && self.config.agents@[j].id@ == k);
                }
            }
        }
    }
}

} // verus!
