//! Non-secret configuration: agent metadata and app settings. Tokens never
//! live here; they are vault-only.
use vstd::prelude::*;

use crate::text::{ascii_lower, chars_of, lower_all, starts_with, trim_bounds, trim_ws};

verus! {

pub const DEFAULT_BASE_URL: &'static str = "https://tragentics.com";

pub const DEFAULT_INTERVAL_SECS: u64 = 300;

/// 5-minute floor: Beat Now covers on-demand beats, so shorter cadences would
/// only spam the platform.
pub const MIN_INTERVAL_SECS: u64 = 300;

/// 14 minutes: a healthy margin under the platform's 15-minute idle threshold.
pub const MAX_INTERVAL_SECS: u64 = 840;

/// Optional local health check of a self-hosted agent.
#[derive(Debug, Clone)]
pub struct LocalCheck {
    pub url: String,
    pub expect_min: u16,
    pub expect_max: u16,
    pub timeout_secs: u64,
}

impl LocalCheck {
    /// A field-by-field copy.
    pub fn duplicate(&self) -> (r: Self)
        ensures
            r == *self,
    {
        LocalCheck {
            url: self.url.clone(),
            expect_min: self.expect_min,
            expect_max: self.expect_max,
            timeout_secs: self.timeout_secs,
        }
    }
}

/// A copy of an optional local check.
pub fn duplicate_check(c: &Option<LocalCheck>) -> (r: Option<LocalCheck>)
    ensures
        r == *c,
{
    match c {
        Some(x) => Some(x.duplicate()),
        None => None,
    }
}

/// Lowest HTTP status a local check accepts unless configured otherwise.
pub fn default_expect_min() -> (r: u16)
    ensures
        r == 200,
{
    200
}

/// Highest HTTP status a local check accepts unless configured otherwise.
pub fn default_expect_max() -> (r: u16)
    ensures
        r == 399,
{
    399
}

/// Local check timeout (seconds) unless configured otherwise.
pub fn default_check_timeout() -> (r: u64)
    ensures
        r == 5,
{
    5
}

#[derive(Debug, Clone)]
pub struct AgentConfig {
    pub id: String,
    pub name: String,
    /// tk_ab12…cd34, display only.
    pub fingerprint: String,
    pub in_service: bool,
    pub interval_secs: u64,
    pub local_check: Option<LocalCheck>,
    /// Epoch seconds.
    pub added_at: u64,
}

#[derive(Debug, Clone)]
pub struct AppConfig {
    pub base_url: String,
    pub default_interval_secs: u64,
    /// "system" | "dark" | "light"
    pub theme: String,
    pub minimize_to_tray: bool,
    pub notify_on_problems: bool,
    pub agents: Vec<AgentConfig>,
}

impl Default for AppConfig {
    fn default() -> (r: Self)
        ensures
            r.base_url@ == DEFAULT_BASE_URL@,
            r.default_interval_secs == DEFAULT_INTERVAL_SECS,
            r.theme@ == "system"@,
            r.minimize_to_tray,
            r.notify_on_problems,
            r.agents@.len() == 0,
    {
        AppConfig {
            base_url: String::from_str(DEFAULT_BASE_URL),
            default_interval_secs: DEFAULT_INTERVAL_SECS,
            theme: String::from_str("system"),
            minimize_to_tray: true,
            notify_on_problems: true,
            agents: Vec::new(),
        }
    }
}

/// `i` is the first position of an agent with id `id`.
pub open spec fn is_first_agent(agents: Seq<AgentConfig>, id: Seq<char>, i: int) -> bool {
    &&& 0 <= i < agents.len()
    &&& agents[i].id@ == id
    &&& forall|j: int| 0 <= j < i ==> agents[j].id@ != id
}

/// Position of the first agent with id `id`, or -1.
pub open spec fn agent_pos(agents: Seq<AgentConfig>, id: Seq<char>) -> int {
    if exists|i: int| is_first_agent(agents, id, i) {
        choose|i: int| is_first_agent(agents, id, i)
    } else {
        -1
    }
}

/// Some agent has id `id`.
pub open spec fn has_agent(agents: Seq<AgentConfig>, id: Seq<char>) -> bool {
    exists|i: int| 0 <= i < agents.len() && #[trigger] agents[i].id@ == id
}

/// The first agent with id `id`.
pub open spec fn lookup_agent(agents: Seq<AgentConfig>, id: Seq<char>) -> Option<AgentConfig> {
    if agent_pos(agents, id) >= 0 {
        Some(agents[agent_pos(agents, id)])
    } else {
        None
    }
}

/// The first match is unique.
proof fn first_agent_unique(agents: Seq<AgentConfig>, id: Seq<char>, i: int, k: int)
    requires
        is_first_agent(agents, id, i),
        is_first_agent(agents, id, k),
    ensures
        i == k,
{
    if i < k {
        assert(agents[i].id@ != id);
    } else if k < i {
        assert(agents[k].id@ != id);
    }
}

/// A match at or before `k` has a first match.
proof fn first_agent_exists(agents: Seq<AgentConfig>, id: Seq<char>, k: int)
    requires
        0 <= k < agents.len(),
        agents[k].id@ == id,
    ensures
        exists|i: int| is_first_agent(agents, id, i),
    decreases k,
{
    if exists|j: int| 0 <= j < k && agents[j].id@ == id {
        let j = choose|j: int| 0 <= j < k && agents[j].id@ == id;
        first_agent_exists(agents, id, j);
    } else {
        assert(is_first_agent(agents, id, k));
    }
}

/// What `agent_pos` means.
pub proof fn lemma_agent_pos(agents: Seq<AgentConfig>, id: Seq<char>)
    ensures
        agent_pos(agents, id) >= 0 ==> is_first_agent(agents, id, agent_pos(agents, id)),
        agent_pos(agents, id) >= 0 <==> has_agent(agents, id),
        agent_pos(agents, id) < agents.len(),
{
    if has_agent(agents, id) {
        let k = choose|k: int| 0 <= k < agents.len() && #[trigger] agents[k].id@ == id;
        first_agent_exists(agents, id, k);
    }
}

/// Two agent lists with the same ids in the same order find the same positions.
pub proof fn lemma_same_ids(a: Seq<AgentConfig>, b: Seq<AgentConfig>)
    requires
        a.len() == b.len(),
        forall|i: int| #![trigger a[i]] #![trigger b[i]] 0 <= i < a.len() ==> a[i].id@ == b[i].id@,
    ensures
        forall|id: Seq<char>| #[trigger] agent_pos(a, id) == agent_pos(b, id),
        forall|id: Seq<char>| #[trigger] has_agent(a, id) == has_agent(b, id),
{
    assert forall|id: Seq<char>| #[trigger] agent_pos(a, id) == agent_pos(b, id) by {
        lemma_agent_pos(a, id);
        lemma_agent_pos(b, id);
        if agent_pos(a, id) >= 0 {
            let p = agent_pos(a, id);
            assert(is_first_agent(b, id, p));
            first_agent_unique(b, id, p, agent_pos(b, id));
        } else if agent_pos(b, id) >= 0 {
            let p = agent_pos(b, id);
            assert(is_first_agent(a, id, p));
        }
    }
    assert forall|id: Seq<char>| #[trigger] has_agent(a, id) == has_agent(b, id) by {
        lemma_agent_pos(a, id);
        lemma_agent_pos(b, id);
    }
}

/// Position of the first agent with id `id`.
pub fn find_agent(agents: &Vec<AgentConfig>, id: &str) -> (r: Option<usize>)
    ensures
        match r {
            Some(i) => is_first_agent(agents@, id@, i as int) && agent_pos(agents@, id@) == i,
            None => agent_pos(agents@, id@) == -1 && !has_agent(agents@, id@),
        },
{
    let mut i: usize = 0;
    while i < agents.len()
        invariant
            i <= agents.len(),
            forall|j: int| 0 <= j < i ==> agents@[j].id@ != id@,
        decreases agents.len() - i,
    {
        if crate::text::str_eq(agents[i].id.as_str(), id) {
            proof {
                assert(is_first_agent(agents@, id@, i as int));
                let k = choose|k: int| is_first_agent(agents@, id@, k);
                first_agent_unique(agents@, id@, i as int, k);
            }
            return Some(i);
        }
        i = i + 1;
    }
    proof {
        lemma_agent_pos(agents@, id@);
    }
    None
}

impl AppConfig {
    pub fn agent(&self, id: &str) -> (r: Option<&AgentConfig>)
        ensures
            match r {
                Some(a) => agent_pos(self.agents@, id@) >= 0 && *a == self.agents@[agent_pos(
                    self.agents@,
                    id@,
                )],
                None => agent_pos(self.agents@, id@) == -1 && !has_agent(self.agents@, id@),
            },
    {
        match find_agent(&self.agents, id) {
            Some(i) => Some(&self.agents[i]),
            None => None,
        }
    }

    pub fn agent_mut(&mut self, id: &str) -> (r: Option<&mut AgentConfig>)
        ensures
            match r {
                Some(a) => {
                    &&& agent_pos(old(self).agents@, id@) >= 0
                    &&& *a == old(self).agents@[agent_pos(old(self).agents@, id@)]
                    &&& final(self).agents@ == old(self).agents@.update(
                        agent_pos(old(self).agents@, id@),
                        *final(a),
                    )
                    &&& final(self).base_url == old(self).base_url
                    &&& final(self).default_interval_secs == old(self).default_interval_secs
                    &&& final(self).theme == old(self).theme
                    &&& final(self).minimize_to_tray == old(self).minimize_to_tray
                    &&& final(self).notify_on_problems == old(self).notify_on_problems
                },
                None => agent_pos(old(self).agents@, id@) == -1 && !has_agent(
                    old(self).agents@,
                    id@,
                ) && *final(self) == *old(self),
            },
    {
        match find_agent(&self.agents, id) {
            Some(i) => Some(&mut self.agents[i]),
            None => None,
        }
    }
}

/// The interval actually used: clamped into [MIN_INTERVAL_SECS, MAX_INTERVAL_SECS].
pub open spec fn clamped(secs: u64) -> u64 {
    if secs < MIN_INTERVAL_SECS {
        MIN_INTERVAL_SECS
    } else if secs > MAX_INTERVAL_SECS {
        MAX_INTERVAL_SECS
    } else {
        secs
    }
}

pub fn clamp_interval(secs: u64) -> (r: u64)
    ensures
        r == clamped(secs),
        MIN_INTERVAL_SECS <= r <= MAX_INTERVAL_SECS,
{
    if secs < MIN_INTERVAL_SECS {
        MIN_INTERVAL_SECS
    } else if secs > MAX_INTERVAL_SECS {
        MAX_INTERVAL_SECS
    } else {
        secs
    }
}

/// A local check URL is accepted when, trimmed and lowercased, it starts
/// with http:// or https://.
pub open spec fn local_check_url_ok(url: Seq<char>) -> bool {
    "http://"@.is_prefix_of(ascii_lower(trim_ws(url))) || "https://"@.is_prefix_of(
        ascii_lower(trim_ws(url)),
    )
}

/// Checks the scheme of a local check URL.
pub fn normalize_local_check_url(url: &str) -> (r: Result<(), String>)
    ensures
        r is Ok <==> local_check_url_ok(url@),
        match r {
            Err(m) => m@ == "Local check URL must start with http:// or https://"@,
            Ok(_) => true,
        },
{
    let v = chars_of(url);
    let (lo, hi) = trim_bounds(&v);
    let trimmed = crate::text::string_from_range(&v, lo, hi);
    let lower = lower_all(&chars_of(trimmed.as_str()));
    if !(starts_with(&lower, &chars_of("http://")) || starts_with(&lower, &chars_of("https://"))) {
        return Err(String::from_str("Local check URL must start with http:// or https://"));
    }
    Ok(())
}

} // verus!
