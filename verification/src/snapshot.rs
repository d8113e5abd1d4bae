//! What the UI and the tray show: sparkline points, the next-beat display,
//! and the tray's tooltip and menu text.
use vstd::prelude::*;

use crate::engine::{AgentRuntime, Core, TraySeverity};
use crate::history::BeatRecord;
use crate::text::{decimal, push_decimal};

verus! {

/// How many recent beats the sparkline shows.
pub const SPARK_LEN: usize = 30;

/// One sparkline point: whether the beat was delivered, and its latency.
#[derive(Debug, Clone, Copy, PartialEq, Eq, Structural)]
pub struct SparkPoint {
    pub ok: bool,
    pub latency_ms: Option<u32>,
}

/// The point of one beat.
pub open spec fn point_of(b: BeatRecord) -> SparkPoint {
    SparkPoint { ok: b.kind.delivered(), latency_ms: b.latency_ms }
}

/// The newest SPARK_LEN beats (oldest first), as points.
pub open spec fn spark_of(beats: Seq<BeatRecord>) -> Seq<SparkPoint> {
    let from = if beats.len() > SPARK_LEN { beats.len() - SPARK_LEN } else { 0 };
    beats.skip(from).map_values(|b: BeatRecord| point_of(b))
}

/// The sparkline of an agent's beats (oldest first).
pub fn spark_points(beats: &Vec<BeatRecord>) -> (r: Vec<SparkPoint>)
    ensures
        r@ == spark_of(beats@),
{
    let from = if beats.len() > SPARK_LEN { beats.len() - SPARK_LEN } else { 0 };
    let mut r: Vec<SparkPoint> = Vec::new();
    let mut i = from;
    while i < beats.len()
        invariant
            from <= i <= beats.len(),
            from == (if beats.len() > SPARK_LEN { beats.len() - SPARK_LEN } else { 0 }),
            r@ == beats@.subrange(from as int, i as int).map_values(|b: BeatRecord| point_of(b)),
        decreases beats.len() - i,
    {
        let b = &beats[i];
        r.push(SparkPoint { ok: b.kind.is_success(), latency_ms: b.latency_ms });
        assert(beats@.subrange(from as int, i + 1).map_values(|b: BeatRecord| point_of(b)) =~= beats@.subrange(
            from as int,
            i as int,
        ).map_values(|b: BeatRecord| point_of(b)).push(point_of(beats@[i as int])));
        i = i + 1;
    }
    assert(beats@.subrange(from as int, beats.len() as int) =~= beats@.skip(from as int));
    r
}

/// When the next beat is shown: only for an agent in service that is not
/// halted and has a beat scheduled.
pub open spec fn next_beat_shown(in_service: bool, rt: AgentRuntime) -> Option<u64> {
    if in_service && rt.halted is None && rt.next_beat_at != u64::MAX {
        Some(rt.next_beat_at)
    } else {
        None
    }
}

/// The next beat time as the UI shows it.
pub fn next_beat_display(in_service: bool, rt: &AgentRuntime) -> (r: Option<u64>)
    ensures
        r == next_beat_shown(in_service, *rt),
{
    if in_service && rt.halted.is_none() && rt.next_beat_at != u64::MAX {
        Some(rt.next_beat_at)
    } else {
        None
    }
}

/// Number of agents among the first `n` that are in service.
pub open spec fn count_in_service(core: &Core, n: int) -> nat
    decreases n,
{
    if n <= 0 {
        0
    } else {
        count_in_service(core, n - 1) + if core.config.agents@[n - 1].in_service { 1nat } else { 0nat }
    }
}

/// Agent position `j` has a halted runtime record.
pub open spec fn is_halted_at(core: &Core, j: int) -> bool {
    core.runtime.view().dom().contains(core.config.agents@[j].id@)
        && core.runtime.view()[core.config.agents@[j].id@].halted is Some
}

/// Number of agents among the first `n` whose runtime record is halted.
pub open spec fn count_halted(core: &Core, n: int) -> nat
    decreases n,
{
    if n <= 0 {
        0
    } else {
        count_halted(core, n - 1) + if is_halted_at(core, n - 1) { 1nat } else { 0nat }
    }
}

/// The tray tooltip.
pub open spec fn tooltip_of(core: &Core) -> Seq<char> {
    let n = core.config.agents@.len() as int;
    if core.paused {
        "Tragentics HCC — paused"@
    } else if count_halted(core, n) > 0 {
        "Tragentics HCC — "@ + decimal(count_in_service(core, n)) + " in service, "@ + decimal(
            count_halted(core, n),
        ) + " halted"@
    } else {
        "Tragentics HCC — "@ + decimal(count_in_service(core, n)) + " in service"@
    }
}

/// The tray icon file shown for each severity: green, amber, red or gray.
pub open spec fn tray_icon_of(severity: TraySeverity) -> Seq<char> {
    match severity {
        TraySeverity::Healthy => "tray-ok.png"@,
        TraySeverity::Degraded => "tray-warn.png"@,
        TraySeverity::Halted => "tray-err.png"@,
        TraySeverity::Paused => "tray-paused.png"@,
    }
}

/// The tray icon file of a severity.
pub fn tray_icon_file(severity: TraySeverity) -> (r: &'static str)
    ensures
        r@ == tray_icon_of(severity),
{
    match severity {
        TraySeverity::Healthy => "tray-ok.png",
        TraySeverity::Degraded => "tray-warn.png",
        TraySeverity::Halted => "tray-err.png",
        TraySeverity::Paused => "tray-paused.png",
    }
}

/// The label of the tray's pause item.
pub open spec fn pause_label_of(paused: bool) -> Seq<char> {
    if paused {
        "Resume beating"@
    } else {
        "Pause beating"@
    }
}

/// The label of the tray's pause item.
pub fn pause_menu_label(paused: bool) -> (r: &'static str)
    ensures
        r@ == pause_label_of(paused),
{
    if paused {
        "Resume beating"
    } else {
        "Pause beating"
    }
}

impl Core {
    /// The tray tooltip: paused, or how many agents are in service and halted.
    pub fn tray_tooltip(&self) -> (r: String)
        ensures
            r@ == tooltip_of(self),
    {
        if self.paused {
            return String::from_str("Tragentics HCC — paused");
        }
        let n = self.config.agents.len();
        let mut in_service: u64 = 0;
        let mut halted: u64 = 0;
        let mut i: usize = 0;
        while i < n
            invariant
                n == self.config.agents@.len(),
                i <= n,
                in_service == count_in_service(self, i as int),
                halted == count_halted(self, i as int),
                in_service <= i,
                halted <= i,
            decreases n - i,
        {
            let agent = &self.config.agents[i];
            if agent.in_service {
                in_service = in_service + 1;
            }
            match self.runtime.get(agent.id.as_str()) {
                Some(rt) => {
                    if rt.halted.is_some() {
                        halted = halted + 1;
                    }
                },
                None => {},
            }
            i = i + 1;
        }
        let mut s = String::from_str("Tragentics HCC — ");
        push_decimal(&mut s, in_service);
        if halted > 0 {
            s.append(" in service, ");
            push_decimal(&mut s, halted);
            s.append(" halted");
        } else {
            s.append(" in service");
        }
        s
    }
}

} // verus!
