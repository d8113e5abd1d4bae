//! Properties of the library as a whole, stated over the spec functions that
//! the operations' own contracts use.
use vstd::prelude::*;

use crate::api::{base_url_trimmed, base_url_verdict, fingerprint_of, status_error};
use crate::text::{ascii_lower, is_unicode_whitespace, trim_end_char, trim_end_ws, trim_start_ws, trim_ws};
use crate::config::{clamped, MAX_INTERVAL_SECS, MIN_INTERVAL_SECS};
use crate::engine::{
    backoff, doubling, halt_of, in_flight_count, launch_budget, launch_selection, launchable, launched, launches_before,
    rate_limit_delay, selected_id, AgentRuntime, Core, MAX_CONCURRENT_BEATS, MAX_LAUNCH_PER_TICK,
};
use crate::config::AgentConfig;
use crate::cycle::in_service_ids_of;
use crate::errors::ApiError;
use crate::engine::{severity_of, Halt, HaltKind, TraySeverity};
use crate::history::{capped_push, tally, BeatKind, BeatRecord, HistoryStore, RING_CAP};
use crate::snapshot::{spark_of, SPARK_LEN};
use crate::text::seq_contains;

verus! {

/// One tick launches at most MAX_LAUNCH_PER_TICK beats, none while
/// MAX_CONCURRENT_BEATS are already in flight, and never enough to take the
/// number in flight past MAX_CONCURRENT_BEATS.
pub proof fn law_tick_respects_launch_limits(core: &Core, now: u64, sel: Seq<int>)
    requires
        launch_selection(core, now, sel),
    ensures
        sel.len() <= MAX_LAUNCH_PER_TICK,
        in_flight_count(core.runtime.view()) >= MAX_CONCURRENT_BEATS ==> sel.len() == 0,
        in_flight_count(core.runtime.view()) + sel.len() <= MAX_CONCURRENT_BEATS
            || sel.len() == 0,
{
}

/// A tick launches as many beats as it may: either its whole budget, or
/// every agent that can launch.
pub proof fn law_tick_launches_all_it_may(core: &Core, now: u64, sel: Seq<int>, c: int)
    requires
        launch_selection(core, now, sel),
        launchable(core, now, c),
    ensures
        sel.contains(c) || sel.len() == launch_budget(in_flight_count(core.runtime.view())),
{
}

/// After a tick marks its selection in flight (as `due_jobs` does), the number
/// of beats in flight is at most MAX_CONCURRENT_BEATS, or, when it already was
/// above that, no higher than before.
pub proof fn law_in_flight_stays_within_limit(
    core: &Core,
    now: u64,
    sel: Seq<int>,
    after: Map<Seq<char>, AgentRuntime>,
)
    requires
        launch_selection(core, now, sel),
        core.runtime.view().dom().finite(),
        after.dom() == core.runtime.view().dom(),
        forall|k: Seq<char>| #[trigger]
            after.dom().contains(k) ==> after[k] == if selected_id(core, sel, k) {
                launched(core.runtime.view()[k], now)
            } else {
                core.runtime.view()[k]
            },
    ensures
        in_flight_count(after) <= in_flight_count(core.runtime.view()) + sel.len(),
        in_flight_count(after) <= MAX_CONCURRENT_BEATS || in_flight_count(after) <= in_flight_count(
            core.runtime.view(),
        ),
{
    let before = core.runtime.view();
    let ids = sel.map_values(|i: int| core.config.agents@[i].id@);
    let fb = before.dom().filter(|k: Seq<char>| before[k].in_flight);
    let fa = after.dom().filter(|k: Seq<char>| after[k].in_flight);
    assert forall|k: Seq<char>| #[trigger] fa.contains(k) implies fb.union(ids.to_set()).contains(k) by {
        if selected_id(core, sel, k) {
            let x = choose|x: int| 0 <= x < sel.len() && core.config.agents@[#[trigger] sel[x]].id@ == k;
            assert(ids[x] == k);
        }
    }
    assert(fa.subset_of(fb.union(ids.to_set())));
    ids.lemma_cardinality_of_set();
    vstd::set_lib::lemma_len_union(fb, ids.to_set());
    vstd::set_lib::lemma_len_subset(fa, fb.union(ids.to_set()));
}

proof fn lemma_selection_step(core: &Core, now: u64, s1: Seq<int>, s2: Seq<int>, k: int)
    requires
        launch_selection(core, now, s1),
        launch_selection(core, now, s2),
        0 <= k < s1.len(),
        k < s2.len(),
        forall|j: int| 0 <= j < k ==> s1[j] == s2[j],
    ensures
        s1[k] == s2[k],
{
    let a = s1[k];
    let b = s2[k];
    if a != b {
        assert(launchable(core, now, a));
        assert(launchable(core, now, b));
        if s2.contains(a) {
            let m = choose|m: int| 0 <= m < s2.len() && s2[m] == a;
            if m < k {
                assert(s1[m] == a);
                assert(launches_before(core, s1[m], s1[k]));
            } else {
                assert(launches_before(core, s2[k], s2[m]));
            }
        } else {
            assert(launches_before(core, s2[k], a));
        }
        assert(launches_before(core, b, a));
        if s1.contains(b) {
            let m = choose|m: int| 0 <= m < s1.len() && s1[m] == b;
            if m < k {
                assert(s2[m] == b);
                assert(launches_before(core, s2[m], s2[k]));
            } else {
                assert(launches_before(core, s1[k], s1[m]));
            }
        } else {
            assert(launches_before(core, s1[k], b));
        }
        assert(launches_before(core, a, b));
    }
}

proof fn lemma_selection_prefix(core: &Core, now: u64, s1: Seq<int>, s2: Seq<int>, k: int)
    requires
        launch_selection(core, now, s1),
        launch_selection(core, now, s2),
        0 <= k <= s1.len(),
        k <= s2.len(),
    ensures
        forall|j: int| 0 <= j < k ==> s1[j] == s2[j],
    decreases k,
{
    if k > 0 {
        lemma_selection_prefix(core, now, s1, s2, k - 1);
        lemma_selection_step(core, now, s1, s2, k - 1);
    }
}

/// The launches of a tick are determined: two selections that both meet the
/// launch rules for the same state and time are the same, in the same order.
pub proof fn law_launch_selection_is_determined(core: &Core, now: u64, s1: Seq<int>, s2: Seq<int>)
    requires
        launch_selection(core, now, s1),
        launch_selection(core, now, s2),
    ensures
        s1 == s2,
{
    let n = if s1.len() < s2.len() { s1.len() as int } else { s2.len() as int };
    lemma_selection_prefix(core, now, s1, s2, n);
    if s1.len() > n {
        let a = s1[n];
        assert(launchable(core, now, a));
        if s2.contains(a) {
            let m = choose|m: int| 0 <= m < s2.len() && s2[m] == a;
            assert(s1[m] == a);
            assert(launches_before(core, s1[m], s1[n]));
        }
    }
    if s2.len() > n {
        let b = s2[n];
        assert(launchable(core, now, b));
        if s1.contains(b) {
            let m = choose|m: int| 0 <= m < s1.len() && s1[m] == b;
            assert(s2[m] == b);
            assert(launches_before(core, s2[m], s2[n]));
        }
    }
    assert(s1 =~= s2);
}

/// When the launched agents have distinct ids, a tick raises the number of
/// beats in flight by exactly the number of beats it launched.
pub proof fn law_in_flight_grows_by_launches(
    core: &Core,
    now: u64,
    sel: Seq<int>,
    after: Map<Seq<char>, AgentRuntime>,
)
    requires
        launch_selection(core, now, sel),
        core.runtime.view().dom().finite(),
        forall|k: int, l: int|
            0 <= k < l < sel.len() ==> core.config.agents@[#[trigger] sel[k]].id@ != core.config.agents@[#[trigger] sel[l]].id@,
        after.dom() == core.runtime.view().dom(),
        forall|k: Seq<char>| #[trigger]
            after.dom().contains(k) ==> after[k] == if selected_id(core, sel, k) {
                launched(core.runtime.view()[k], now)
            } else {
                core.runtime.view()[k]
            },
    ensures
        in_flight_count(after) == in_flight_count(core.runtime.view()) + sel.len(),
{
    let before = core.runtime.view();
    let ids = sel.map_values(|i: int| core.config.agents@[i].id@);
    let fb = before.dom().filter(|k: Seq<char>| before[k].in_flight);
    let fa = after.dom().filter(|k: Seq<char>| after[k].in_flight);
    assert forall|k: Seq<char>| ids.to_set().contains(k) implies selected_id(core, sel, k) && before.dom().contains(k)
        && !before[k].in_flight by {
        let x = choose|x: int| 0 <= x < ids.len() && ids[x] == k;
        assert(core.config.agents@[sel[x]].id@ == k);
        assert(launchable(core, now, sel[x]));
    }
    assert forall|k: Seq<char>| #[trigger] fa.contains(k) <==> fb.union(ids.to_set()).contains(k) by {
        if selected_id(core, sel, k) {
            let x = choose|x: int| 0 <= x < sel.len() && core.config.agents@[#[trigger] sel[x]].id@ == k;
            assert(ids[x] == k);
            assert(ids.to_set().contains(k));
            assert(launchable(core, now, sel[x]));
        }
    }
    assert(fa =~= fb.union(ids.to_set()));
    assert(fb.disjoint(ids.to_set()));
    assert(ids.no_duplicates()) by {
        assert forall|a: int, b: int| 0 <= a < ids.len() && 0 <= b < ids.len() && a != b implies ids[a] != ids[b] by {
            if a < b {
                assert(core.config.agents@[sel[a]].id@ != core.config.agents@[sel[b]].id@);
            } else {
                assert(core.config.agents@[sel[b]].id@ != core.config.agents@[sel[a]].id@);
            }
        }
    }
    ids.unique_seq_to_set();
    vstd::set_lib::lemma_set_disjoint_lens(fb, ids.to_set());
    assert(fb + ids.to_set() == fb.union(ids.to_set()));
}

/// A halted agent never launches a beat, at any time.
pub proof fn law_halted_agent_never_launches(core: &Core, now: u64, i: int)
    requires
        0 <= i < core.config.agents@.len(),
        core.runtime.view().dom().contains(core.config.agents@[i].id@),
        core.runtime.view()[core.config.agents@[i].id@].halted is Some,
    ensures
        !launchable(core, now, i),
{
}

/// Exactly the auth-class answers (401, 403, 404, 409) halt an agent; every
/// other failure is retried.
pub proof fn law_halts_exactly_on_auth_class(status: u16, message: String, retry_after: Option<u64>)
    ensures
        halt_of(status_error(status, message, retry_after)) is Some <==> (status == 401 || status == 403
            || status == 404 || status == 409),
{
}

proof fn lemma_doubling_monotone(a: nat, b: nat)
    requires
        a <= b,
    ensures
        doubling(a) <= doubling(b),
        1 <= doubling(a),
    decreases b,
{
    if b > a {
        lemma_doubling_monotone(a, (b - 1) as nat);
    } else if a > 0 {
        lemma_doubling_monotone((a - 1) as nat, (a - 1) as nat);
    }
}

/// Backoff starts at 30 seconds, never shrinks as failures accumulate, and
/// never exceeds the agent's (clamped) interval.
pub proof fn law_backoff_grows_up_to_interval(f1: u32, f2: u32, interval_secs: u64)
    requires
        f1 <= f2,
    ensures
        backoff(1, interval_secs) == 30,
        backoff(f1, interval_secs) <= backoff(f2, interval_secs),
        30 <= backoff(f2, interval_secs) <= clamped(interval_secs),
{
    let n1: nat = if f1 < 1 { 1 } else { f1 as nat };
    let n2: nat = if f2 < 1 { 1 } else { f2 as nat };
    let e1: nat = if n1 - 1 < 6 { (n1 - 1) as nat } else { 6 };
    let e2: nat = if n2 - 1 < 6 { (n2 - 1) as nat } else { 6 };
    lemma_doubling_monotone(e1, e2);
    assert(doubling(0) == 1);
}

/// A 429 waits at least as long as the server's Retry-After plus 5 seconds,
/// and never less than 70 seconds.
pub proof fn law_rate_limit_honors_retry_after(retry_after_secs: u64)
    requires
        retry_after_secs + 5 <= u64::MAX,
    ensures
        rate_limit_delay(retry_after_secs) >= retry_after_secs + 5,
        rate_limit_delay(retry_after_secs) >= 70,
{
}

/// The interval used always lies in [MIN_INTERVAL_SECS, MAX_INTERVAL_SECS]
/// (5 minutes is the floor), leaves intervals already there alone, and
/// clamping twice changes nothing.
pub proof fn law_interval_clamp(secs: u64)
    ensures
        MIN_INTERVAL_SECS <= clamped(secs) <= MAX_INTERVAL_SECS,
        MIN_INTERVAL_SECS <= secs <= MAX_INTERVAL_SECS ==> clamped(secs) == secs,
        clamped(clamped(secs)) == clamped(secs),
{
}

/// A fingerprint shows only the token's edges: two tokens of 12 bytes or
/// more that agree on their first 7 and last 4 bytes have the same
/// fingerprint, whatever lies between.
pub proof fn law_fingerprint_hides_middle(a: Seq<u8>, b: Seq<u8>)
    requires
        a.len() >= 12,
        b.len() >= 12,
        a.subrange(0, 7) == b.subrange(0, 7),
        a.subrange(a.len() - 4, a.len() as int) == b.subrange(b.len() - 4, b.len() as int),
    ensures
        fingerprint_of(a) == fingerprint_of(b),
{
}

/// A capped push keeps at most `cap` items, ends with the new one, and keeps
/// the newest of the old ones in order.
pub proof fn law_capped_push_keeps_newest<A>(s: Seq<A>, x: A, cap: nat)
    requires
        1 <= cap,
        s.len() <= cap,
    ensures
        capped_push(s, x, cap).len() <= cap,
        capped_push(s, x, cap).last() == x,
        capped_push(s, x, cap) == s.push(x).skip(s.push(x).len() - capped_push(s, x, cap).len()),
{
    let t = s.push(x);
    if t.len() > cap {
        assert(t.skip(t.len() - cap).len() == cap);
        assert(t.skip(t.len() - cap).last() == t.last());
    } else {
        assert(t.skip(0) =~= t);
    }
}

/// Logging a beat keeps every agent's ring within RING_CAP records, with the
/// new record last in its agent's ring.
pub proof fn law_rings_stay_capped(
    before: HistoryStore,
    after: HistoryStore,
    id: Seq<char>,
    rec: crate::history::BeatRecord,
)
    requires
        crate::history::beat_logged(before, after, id, rec),
        forall|k: Seq<char>| #[trigger] before.ring(k).len() <= RING_CAP,
    ensures
        forall|k: Seq<char>| #[trigger] after.ring(k).len() <= RING_CAP,
        after.ring(id).last() == rec,
{
    law_capped_push_keeps_newest(before.ring(id), rec, RING_CAP as nat);
    assert forall|k: Seq<char>| #[trigger] after.ring(k).len() <= RING_CAP by {
        if k != id {
            assert(after.beats.view().get(k) == before.beats.view().get(k));
            assert(before.ring(k).len() <= RING_CAP);
        }
    }
}

/// A shutdown reports offline exactly the agents that are in service: an id
/// is on the list if and only if some in-service agent has it.
pub proof fn law_shutdown_reports_every_in_service_agent(agents: Seq<AgentConfig>, id: Seq<char>)
    ensures
        in_service_ids_of(agents).contains(id) <==> exists|i: int|
            0 <= i < agents.len() && #[trigger] agents[i].in_service && agents[i].id@ == id,
    decreases agents.len(),
{
    if agents.len() > 0 {
        let rest = agents.drop_last();
        law_shutdown_reports_every_in_service_agent(rest, id);
        let ids = in_service_ids_of(agents);
        let n = agents.len() - 1;
        if in_service_ids_of(rest).contains(id) {
            let i = choose|i: int| 0 <= i < rest.len() && #[trigger] rest[i].in_service && rest[i].id@ == id;
            assert(agents[i] == rest[i]);
            if agents.last().in_service {
                let j = choose|j: int| 0 <= j < in_service_ids_of(rest).len() && in_service_ids_of(rest)[j] == id;
                assert(ids[j] == id);
            }
        }
        if exists|i: int| 0 <= i < agents.len() && #[trigger] agents[i].in_service && agents[i].id@ == id {
            let i = choose|i: int| 0 <= i < agents.len() && #[trigger] agents[i].in_service && agents[i].id@ == id;
            if i < n {
                assert(rest[i] == agents[i]);
                assert(rest[i].in_service);
                let j = choose|j: int| 0 <= j < in_service_ids_of(rest).len() && in_service_ids_of(rest)[j] == id;
                if agents.last().in_service {
                    assert(ids[j] == id);
                }
            } else {
                assert(ids[ids.len() - 1] == id);
            }
        }
        if ids.contains(id) && agents.last().in_service && !in_service_ids_of(rest).contains(id) {
            let j = choose|j: int| 0 <= j < ids.len() && ids[j] == id;
            if j < ids.len() - 1 {
                assert(in_service_ids_of(rest)[j] == id);
            }
            assert(agents[n].in_service && agents[n].id@ == id);
        }
    }
}

/// Removing a token undoes storing it: storing a token for an id the vault
/// did not hold and then removing that id gives back the tokens it had
/// (as `insert_token` and `remove_token` state their effect).
pub proof fn law_remove_undoes_insert(tokens: Map<Seq<char>, Seq<char>>, id: Seq<char>, token: Seq<char>)
    requires
        !tokens.dom().contains(id),
    ensures
        tokens.insert(id, token).remove(id) == tokens,
{
    assert(tokens.insert(id, token).remove(id) =~= tokens);
}

/// Clearing a halt (or putting an agent back in service) makes it due at
/// once: an in-service agent whose record was cleared and is not in flight
/// launches at any time.
pub proof fn law_cleared_agent_is_due(core: &Core, now: u64, i: int, before: AgentRuntime)
    requires
        0 <= i < core.config.agents@.len(),
        core.config.agents@[i].in_service,
        core.runtime.view().dom().contains(core.config.agents@[i].id@),
        core.runtime.view()[core.config.agents@[i].id@] == (AgentRuntime {
            halted: None,
            consecutive_failures: 0,
            next_beat_at: 0,
            ..before
        }),
        !before.in_flight,
    ensures
        launchable(core, now, i),
{
}

proof fn lemma_trim_end_char_last(s: Seq<char>, c: char)
    ensures
        trim_end_char(s, c).len() > 0 ==> trim_end_char(s, c).last() != c,
    decreases s.len(),
{
    if s.len() > 0 && s.last() == c {
        lemma_trim_end_char_last(s.drop_last(), c);
    }
}

/// Normalizing a base URL again keeps it as it is, whenever the normalized
/// URL does not end in whitespace. (A URL such as "https://a /" loses its
/// slash and keeps the space before it, which a second pass trims.)
pub proof fn law_base_url_normalization_is_stable(input: Seq<char>)
    requires
        base_url_verdict(input) is Ok,
        !is_unicode_whitespace(base_url_verdict(input)->Ok_0.last()),
    ensures
        base_url_verdict(base_url_verdict(input)->Ok_0) == base_url_verdict(input),
{
    let u = base_url_trimmed(input);
    assert(base_url_verdict(input)->Ok_0 == u);
    let lower = ascii_lower(u);
    assert(u.len() > 0);
    reveal_strlit("https://");
    reveal_strlit("http://");
    if "https://"@.is_prefix_of(lower) {
        assert(lower[0] == "https://"@[0]);
    } else {
        assert(lower[0] == "http://"@[0]);
    }
    assert(lower[0] == 'h');
    assert(!is_unicode_whitespace(u[0]));
    assert(trim_start_ws(u) == u);
    assert(trim_end_ws(u) == u);
    assert(trim_ws(u) == u);
    lemma_trim_end_char_last(trim_ws(input), '/');
    assert(trim_end_char(u, '/') == u);
    assert(base_url_trimmed(u) == u);
}

proof fn lemma_trim_end_char_prefix(s: Seq<char>, c: char)
    ensures
        trim_end_char(s, c).len() <= s.len(),
        forall|i: int| 0 <= i < trim_end_char(s, c).len() ==> #[trigger] trim_end_char(s, c)[i] == s[i],
    decreases s.len(),
{
    if s.len() > 0 && s.last() == c {
        lemma_trim_end_char_prefix(s.drop_last(), c);
    }
}

/// A normalized base URL is the input trimmed of whitespace and then of
/// trailing slashes; it is not empty, does not end in `/`, starts with
/// http:// or https:// (in any case), and, when the trimmed input holds no
/// whitespace, normalizing it again gives it back.
pub proof fn law_base_url_normalized_shape(input: Seq<char>)
    requires
        base_url_verdict(input) is Ok,
    ensures
        base_url_verdict(input)->Ok_0 == trim_end_char(trim_ws(input), '/'),
        base_url_verdict(input)->Ok_0.len() > 0,
        base_url_verdict(input)->Ok_0.last() != '/',
        "https://"@.is_prefix_of(ascii_lower(base_url_verdict(input)->Ok_0)) || "http://"@.is_prefix_of(
            ascii_lower(base_url_verdict(input)->Ok_0),
        ),
        (forall|i: int| 0 <= i < trim_ws(input).len() ==> !is_unicode_whitespace(#[trigger] trim_ws(input)[i]))
            ==> base_url_verdict(base_url_verdict(input)->Ok_0) == base_url_verdict(input),
{
    let u = base_url_verdict(input)->Ok_0;
    lemma_trim_end_char_last(trim_ws(input), '/');
    lemma_trim_end_char_prefix(trim_ws(input), '/');
    if forall|i: int| 0 <= i < trim_ws(input).len() ==> !is_unicode_whitespace(#[trigger] trim_ws(input)[i]) {
        assert(u[u.len() - 1] == trim_ws(input)[u.len() - 1]);
        law_base_url_normalization_is_stable(input);
    }
}

/// A 401 always halts, and its reason does not depend on the letter case of
/// the platform's message: messages equal up to ASCII case give the same kind.
pub proof fn law_halt_reason_ignores_case(m1: String, m2: String)
    requires
        ascii_lower(m1@) == ascii_lower(m2@),
    ensures
        halt_of(ApiError::Unauthorized { message: m1 }) is Some,
        halt_of(ApiError::Unauthorized { message: m1 })->Some_0.kind == halt_of(
            ApiError::Unauthorized { message: m2 },
        )->Some_0.kind,
{
}

/// A 401 whose message says "archived" (in any letter case) and not
/// "revoked" halts the agent as archived, keeping the platform's message.
pub proof fn law_archived_401_halts_as_archived(m: String)
    requires
        seq_contains(ascii_lower(m@), "archived"@),
        !seq_contains(ascii_lower(m@), "revoked"@),
    ensures
        halt_of((ApiError::Unauthorized { message: m })) == Some((Halt { kind: HaltKind::Archived, message: m })),
{
}

/// An unpaused tray with no halted agent in service turns amber as soon as
/// one agent in service is failing: its beats fail, or its own server fails
/// its local health check.
pub proof fn law_failing_agent_turns_tray_amber(core: &Core, j: int)
    requires
        !core.paused,
        0 <= j < core.config.agents@.len(),
        core.config.agents@[j].in_service,
        core.runtime.view().dom().contains(core.config.agents@[j].id@),
        core.runtime.view()[core.config.agents@[j].id@].consecutive_failures > 0
            || core.runtime.view()[core.config.agents@[j].id@].local_check_failing,
        forall|i: int|
            0 <= i < core.config.agents@.len() && #[trigger] core.config.agents@[i].in_service
                && core.runtime.view().dom().contains(core.config.agents@[i].id@)
                ==> core.runtime.view()[core.config.agents@[i].id@].halted is None,
    ensures
        severity_of(core) == TraySeverity::Degraded,
{
    assert(core.config.agents@[j].in_service);
    assert(crate::engine::degraded_in_service(core, j));
}

/// Window counts: a beat inside the window adds one to the total, and one to
/// the delivered count exactly when it was delivered (online, offline, or an
/// honest offline after a failed local check); a beat before the window
/// changes nothing.
pub proof fn law_window_counts_delivered_beats(s: Seq<BeatRecord>, r: BeatRecord, cutoff: u64)
    ensures
        r.ts >= cutoff ==> tally(s.push(r), cutoff).0 == tally(s, cutoff).0 + 1,
        r.ts >= cutoff && (r.kind == BeatKind::OnlineOk || r.kind == BeatKind::OfflineOk || r.kind
            == BeatKind::LocalFailOffline) ==> tally(s.push(r), cutoff).1 == tally(s, cutoff).1 + 1,
        r.ts >= cutoff && !(r.kind == BeatKind::OnlineOk || r.kind == BeatKind::OfflineOk || r.kind
            == BeatKind::LocalFailOffline) ==> tally(s.push(r), cutoff).1 == tally(s, cutoff).1,
        r.ts < cutoff ==> tally(s.push(r), cutoff) == tally(s, cutoff),
{
    assert(s.push(r).drop_last() =~= s);
    assert(s.push(r).last() == r);
}

/// Every 5xx answer is a server error carrying its status and message.
pub proof fn law_5xx_is_server_error(status: u16, message: String, retry_after: Option<u64>)
    requires
        500 <= status <= 599,
    ensures
        status_error(status, message, retry_after) == (ApiError::Server { status, message }),
{
}

/// The sparkline shows the newest beats: as many as there are, up to
/// SPARK_LEN, ending with the newest, oldest first; each point says whether
/// its beat was delivered and carries its latency.
pub proof fn law_spark_shows_newest_beats(beats: Seq<BeatRecord>)
    ensures
        spark_of(beats).len() == if beats.len() < SPARK_LEN { beats.len() } else { SPARK_LEN as nat },
        forall|k: int|
            0 <= k < spark_of(beats).len() ==> {
                let b = #[trigger] beats[beats.len() - spark_of(beats).len() + k];
                &&& spark_of(beats)[k].latency_ms == b.latency_ms
                &&& spark_of(beats)[k].ok == (b.kind == BeatKind::OnlineOk || b.kind == BeatKind::OfflineOk
                    || b.kind == BeatKind::LocalFailOffline)
            },
        beats.len() > 0 ==> spark_of(beats).last().latency_ms == beats.last().latency_ms,
{
    let n = spark_of(beats).len();
    assert forall|k: int| 0 <= k < n implies {
        let b = #[trigger] beats[beats.len() - n + k];
        &&& spark_of(beats)[k].latency_ms == b.latency_ms
        &&& spark_of(beats)[k].ok == (b.kind == BeatKind::OnlineOk || b.kind == BeatKind::OfflineOk
            || b.kind == BeatKind::LocalFailOffline)
    } by {
        let from = if beats.len() > SPARK_LEN { beats.len() - SPARK_LEN } else { 0 };
        assert(beats.skip(from)[k] == beats[from + k]);
    }
    if beats.len() > 0 {
        let from = if beats.len() > SPARK_LEN { beats.len() - SPARK_LEN } else { 0 };
        assert(beats.skip(from)[n - 1] == beats[beats.len() - 1]);
    }
}

} // verus!
