//! Phase-based bootstrap pipeline for structured startup.
//!
//! Each startup component belongs to a [`BootstrapPhase`]. A [`BootstrapPlan`]
//! is an ordered list of distinct phases, and a [`BootstrapTimer`] records how
//! long each phase took.

use crate::text::{buf, dec, extend_str, join, join_chars, push_dec_u128, string_from_chars, views};
use std::time::Duration;
use std::time::Instant;
use vstd::prelude::*;

verus! {

/// Ordered startup phases, listed in their default execution order.
#[derive(Debug, Clone, Copy, PartialEq, Eq, Hash, Structural)]
pub enum BootstrapPhase {
    /// Parse CLI arguments and set up structured logging.
    CliEntry,
    /// Load the configuration file and validate all values.
    ConfigLoad,
    /// Establish connections to the configured LLM providers.
    ProviderInit,
    /// Discover and load plugins from the plugin directory.
    PluginDiscovery,
    /// Connect to and verify MCP servers.
    McpSetup,
    /// Assemble the final system prompt.
    SystemPrompt,
    /// Register all built-in and plugin-supplied tools.
    ToolRegistry,
    /// Start a new conversation session or resume an existing one.
    SessionInit,
    /// Enter the interactive loop.
    MainRuntime,
}

/// The stable name of a phase.
pub open spec fn phase_name(p: BootstrapPhase) -> Seq<char> {
    match p {
        BootstrapPhase::CliEntry => "CliEntry"@,
        BootstrapPhase::ConfigLoad => "ConfigLoad"@,
        BootstrapPhase::ProviderInit => "ProviderInit"@,
        BootstrapPhase::PluginDiscovery => "PluginDiscovery"@,
        BootstrapPhase::McpSetup => "McpSetup"@,
        BootstrapPhase::SystemPrompt => "SystemPrompt"@,
        BootstrapPhase::ToolRegistry => "ToolRegistry"@,
        BootstrapPhase::SessionInit => "SessionInit"@,
        BootstrapPhase::MainRuntime => "MainRuntime"@,
    }
}

/// All phases in canonical order.
pub open spec fn canonical_phases() -> Seq<BootstrapPhase> {
    seq![
        BootstrapPhase::CliEntry,
        BootstrapPhase::ConfigLoad,
        BootstrapPhase::ProviderInit,
        BootstrapPhase::PluginDiscovery,
        BootstrapPhase::McpSetup,
        BootstrapPhase::SystemPrompt,
        BootstrapPhase::ToolRegistry,
        BootstrapPhase::SessionInit,
        BootstrapPhase::MainRuntime,
    ]
}

/// `s` with every element after its first occurrence removed.
pub open spec fn dedup(s: Seq<BootstrapPhase>) -> Seq<BootstrapPhase>
    decreases s.len(),
{
    if s.len() == 0 {
        seq![]
    } else {
        let d = dedup(s.drop_last());
        if d.contains(s.last()) {
            d
        } else {
            d.push(s.last())
        }
    }
}

/// Index of the first occurrence of `x` in `s` (meaningful when `s` contains `x`).
pub open spec fn first_index(s: Seq<BootstrapPhase>, x: BootstrapPhase) -> int
    decreases s.len(),
{
    if s.len() == 0 {
        0
    } else if s[0] == x {
        0
    } else {
        1 + first_index(s.drop_first(), x)
    }
}

impl BootstrapPhase {
    /// A short, stable, human-readable identifier for this phase.
    pub fn as_str(self) -> (r: &'static str)
        ensures
            r@ == phase_name(self),
    {
        match self {
            BootstrapPhase::CliEntry => "CliEntry",
            BootstrapPhase::ConfigLoad => "ConfigLoad",
            BootstrapPhase::ProviderInit => "ProviderInit",
            BootstrapPhase::PluginDiscovery => "PluginDiscovery",
            BootstrapPhase::McpSetup => "McpSetup",
            BootstrapPhase::SystemPrompt => "SystemPrompt",
            BootstrapPhase::ToolRegistry => "ToolRegistry",
            BootstrapPhase::SessionInit => "SessionInit",
            BootstrapPhase::MainRuntime => "MainRuntime",
        }
    }

    /// All phases in their canonical execution order.
    pub fn all_phases() -> (v: Vec<BootstrapPhase>)
        ensures
            v@ == canonical_phases(),
    {
        let v = vec![
            BootstrapPhase::CliEntry,
            BootstrapPhase::ConfigLoad,
            BootstrapPhase::ProviderInit,
            BootstrapPhase::PluginDiscovery,
            BootstrapPhase::McpSetup,
            BootstrapPhase::SystemPrompt,
            BootstrapPhase::ToolRegistry,
            BootstrapPhase::SessionInit,
            BootstrapPhase::MainRuntime,
        ];
        assert(v@ =~= canonical_phases());
        v
    }
}

/// The canonical order lists every phase exactly once.
pub proof fn lemma_canonical_distinct()
    ensures
        canonical_phases().no_duplicates(),
        forall|p: BootstrapPhase| #[trigger] canonical_phases().contains(p),
{
    let c = canonical_phases();
    assert forall|p: BootstrapPhase| #[trigger] c.contains(p) by {
        match p {
            BootstrapPhase::CliEntry => assert(c[0] == p),
            BootstrapPhase::ConfigLoad => assert(c[1] == p),
            BootstrapPhase::ProviderInit => assert(c[2] == p),
            BootstrapPhase::PluginDiscovery => assert(c[3] == p),
            BootstrapPhase::McpSetup => assert(c[4] == p),
            BootstrapPhase::SystemPrompt => assert(c[5] == p),
            BootstrapPhase::ToolRegistry => assert(c[6] == p),
            BootstrapPhase::SessionInit => assert(c[7] == p),
            BootstrapPhase::MainRuntime => assert(c[8] == p),
        }
    }
}

/// The deduplication keeps exactly the elements of its input, each once.
pub proof fn lemma_dedup(s: Seq<BootstrapPhase>)
    ensures
        dedup(s).no_duplicates(),
        forall|x: BootstrapPhase| dedup(s).contains(x) <==> s.contains(x),
    decreases s.len(),
{
    if s.len() > 0 {
        let t = s.drop_last();
        lemma_dedup(t);
        assert forall|x: BootstrapPhase| s.contains(x) <==> (t.contains(x) || x == s.last()) by {
            if s.contains(x) {
                let i = choose|i: int| 0 <= i < s.len() && s[i] == x;
                if i < s.len() - 1 {
                    assert(t[i] == x);
                }
            }
            if t.contains(x) {
                let i = choose|i: int| 0 <= i < t.len() && t[i] == x;
                assert(s[i] == x);
            }
            if x == s.last() {
                assert(s[s.len() - 1] == x);
            }
        }
        let d = dedup(t);
        if !d.contains(s.last()) {
            assert forall|x: BootstrapPhase| d.push(s.last()).contains(x) <==> (d.contains(x) || x
                == s.last()) by {
                if d.push(s.last()).contains(x) {
                    let i = choose|i: int| 0 <= i < d.len() + 1 && d.push(s.last())[i] == x;
                    if i < d.len() {
                        assert(d[i] == x);
                    }
                }
                if d.contains(x) {
                    let i = choose|i: int| 0 <= i < d.len() && d[i] == x;
                    assert(d.push(s.last())[i] == x);
                }
                if x == s.last() {
                    assert(d.push(s.last())[d.len() as int] == x);
                }
            }
        }
    }
}

/// An ordered list of distinct phases to execute during startup.
pub struct BootstrapPlan {
    phases: Vec<BootstrapPhase>,
}

impl View for BootstrapPlan {
    type V = Seq<BootstrapPhase>;

    open spec fn view(&self) -> Seq<BootstrapPhase> {
        self.spec_phases()
    }
}

impl BootstrapPlan {
    /// The phases of the plan, in execution order.
    pub closed spec fn spec_phases(&self) -> Seq<BootstrapPhase> {
        self.phases@
    }

    /// A plan never lists a phase twice.
    #[verifier::type_invariant]
    closed spec fn distinct(&self) -> bool {
        self.phases@.no_duplicates()
    }

    /// A plan containing all phases in their default execution order.
    pub fn default_plan() -> (r: BootstrapPlan)
        ensures
            r@ == canonical_phases(),
    {
        proof {
            lemma_canonical_distinct();
        }
        BootstrapPlan { phases: BootstrapPhase::all_phases() }
    }

    /// A plan with all default phases except those listed in `skip`.
    pub fn fast_path(skip: &[BootstrapPhase]) -> (r: BootstrapPlan)
        ensures
            r@ == canonical_phases().filter(|p: BootstrapPhase| !skip@.contains(p)),
    {
        let all = BootstrapPhase::all_phases();
        let ghost pred = |p: BootstrapPhase| !skip@.contains(p);
        let mut out: Vec<BootstrapPhase> = Vec::new();
        proof {
            lemma_canonical_distinct();
        }
        let mut i: usize = 0;
        while i < all.len()
            invariant
                i <= all.len(),
                all@ == canonical_phases(),
                all@.no_duplicates(),
                pred == (|p: BootstrapPhase| !skip@.contains(p)),
                out@ == all@.take(i as int).filter(pred),
                out@.no_duplicates(),
                forall|x: BootstrapPhase| out@.contains(x) ==> all@.take(i as int).contains(x),
            decreases all.len() - i,
        {
            let p = all[i];
            let skipped = phase_in(skip, p);
            let ghost before = all@.take(i as int);
            assert(all@.take(i + 1) == before.push(p));
            proof {
                before.lemma_filter_push(p, pred);
                assert(!before.contains(p)) by {
                    if before.contains(p) {
                        let k = choose|k: int| 0 <= k < before.len() && before[k] == p;
                        assert(all@[k] == all@[i as int]);
                    }
                }
            }
            if !skipped {
                let ghost o = out@;
                out.push(p);
                proof {
                    assert forall|a: int, b: int| 0 <= a < b < out@.len() implies out@[a]
                        != out@[b] by {
                        if b == out@.len() - 1 {
                            assert(o.contains(out@[a]));
                        }
                    }
                    assert forall|x: BootstrapPhase| out@.contains(x) implies all@.take(
                        i + 1,
                    ).contains(x) by {
                        let k = choose|k: int| 0 <= k < out@.len() && out@[k] == x;
                        if k < o.len() {
                            assert(o.contains(x));
                            let m = choose|m: int| 0 <= m < before.len() && before[m] == x;
                            assert(all@.take(i + 1)[m] == x);
                        } else {
                            assert(all@.take(i + 1)[i as int] == x);
                        }
                    }
                }
            } else {
                proof {
                    assert forall|x: BootstrapPhase| out@.contains(x) implies all@.take(
                        i + 1,
                    ).contains(x) by {
                        let m = choose|m: int| 0 <= m < before.len() && before[m] == x;
                        assert(all@.take(i + 1)[m] == x);
                    }
                }
            }
            i += 1;
        }
        assert(all@.take(all.len() as int) == all@);
        BootstrapPlan { phases: out }
    }

    /// A plan from an arbitrary list of phases, keeping the first occurrence of each.
    pub fn from_phases(phases: Vec<BootstrapPhase>) -> (r: BootstrapPlan)
        ensures
            r@ == dedup(phases@),
    {
        let mut out: Vec<BootstrapPhase> = Vec::new();
        let mut i: usize = 0;
        while i < phases.len()
            invariant
                i <= phases.len(),
                out@ == dedup(phases@.take(i as int)),
            decreases phases.len() - i,
        {
            let p = phases[i];
            let ghost pre = phases@.take(i as int);
            assert(phases@.take(i + 1).drop_last() == pre);
            assert(phases@.take(i + 1).last() == p);
            let seen = phase_in(&out, p);
            if !seen {
                out.push(p);
            }
            i += 1;
        }
        assert(phases@.take(phases.len() as int) == phases@);
        proof {
            lemma_dedup(phases@);
        }
        BootstrapPlan { phases: out }
    }

    /// The phases of this plan, in execution order.
    pub fn phases(&self) -> (r: &[BootstrapPhase])
        ensures
            r@ == self@,
            r@.no_duplicates(),
    {
        proof {
            use_type_invariant(self);
        }
        self.phases.as_slice()
    }

    /// Whether `phase` is part of this plan.
    pub fn contains(&self, phase: BootstrapPhase) -> (r: bool)
        ensures
            r == self@.contains(phase),
    {
        match self.position(phase) {
            Some(_) => true,
            None => false,
        }
    }

    /// Index of `phase` in the plan.
    fn position(&self, phase: BootstrapPhase) -> (r: Option<usize>)
        ensures
            r matches Some(i) ==> i < self@.len() && self@[i as int] == phase && i == first_index(
                self@,
                phase,
            ),
            r is None ==> !self@.contains(phase),
    {
        let mut i: usize = 0;
        while i < self.phases.len()
            invariant
                i <= self.phases.len(),
                forall|k: int| 0 <= k < i ==> self.phases@[k] != phase,
            decreases self.phases.len() - i,
        {
            if self.phases[i] == phase {
                proof {
                    lemma_first_index(self.phases@, phase, i as int);
                }
                return Some(i);
            }
            i += 1;
        }
        None
    }

    /// Inserts `new` right before the first occurrence of `target`; appends it
    /// when `target` is absent; does nothing when `new` is already present.
    pub fn insert_before(&mut self, target: BootstrapPhase, new: BootstrapPhase)
        ensures
            old(self)@.contains(new) ==> final(self)@ == old(self)@,
            !old(self)@.contains(new) && old(self)@.contains(target) ==> final(self)@ == old(
                self,
            )@.insert(first_index(old(self)@, target), new),
            !old(self)@.contains(new) && !old(self)@.contains(target) ==> final(self)@ == old(
                self,
            )@.push(new),
    {
        self.insert_at_offset(target, new, false);
    }

    /// Inserts `new` right after the first occurrence of `target`; appends it
    /// when `target` is absent; does nothing when `new` is already present.
    pub fn insert_after(&mut self, target: BootstrapPhase, new: BootstrapPhase)
        ensures
            old(self)@.contains(new) ==> final(self)@ == old(self)@,
            !old(self)@.contains(new) && old(self)@.contains(target) ==> final(self)@ == old(
                self,
            )@.insert(first_index(old(self)@, target) + 1, new),
            !old(self)@.contains(new) && !old(self)@.contains(target) ==> final(self)@ == old(
                self,
            )@.push(new),
    {
        self.insert_at_offset(target, new, true);
    }

    fn insert_at_offset(&mut self, target: BootstrapPhase, new: BootstrapPhase, after: bool)
        ensures
            old(self)@.contains(new) ==> final(self)@ == old(self)@,
            !old(self)@.contains(new) && old(self)@.contains(target) ==> final(self)@ == old(
                self,
            )@.insert(first_index(old(self)@, target) + if after { 1int } else { 0int }, new),
            !old(self)@.contains(new) && !old(self)@.contains(target) ==> final(self)@ == old(
                self,
            )@.push(new),
    {
        proof {
            use_type_invariant(&*self);
        }
        if self.contains(new) {
            return;
        }
        let mut phases = self.phases.clone();
        let ghost o = phases@;
        match self.position(target) {
            Some(idx) => {
                let at = if after { idx + 1 } else { idx };
                phases.insert(at, new);
                proof {
                    assert forall|a: int, b: int| 0 <= a < b < phases@.len() implies phases@[a]
                        != phases@[b] by {
                        if a == at {
                            assert(o.contains(phases@[b]));
                        } else if b == at {
                            assert(o.contains(phases@[a]));
                        } else {
                            let a2 = if a < at { a } else { a - 1 };
                            let b2 = if b < at { b } else { b - 1 };
                            assert(phases@[a] == o[a2]);
                            assert(phases@[b] == o[b2]);
                        }
                    }
                }
            },
            None => {
                phases.push(new);
                proof {
                    assert forall|a: int, b: int| 0 <= a < b < phases@.len() implies phases@[a]
                        != phases@[b] by {
                        if b == phases@.len() - 1 {
                            assert(o.contains(phases@[a]));
                        }
                    }
                }
            },
        }
        self.phases = phases;
    }

    /// Removes every occurrence of `phase` from the plan.
    pub fn remove(&mut self, phase: BootstrapPhase)
        ensures
            final(self)@ == old(self)@.filter(|p: BootstrapPhase| p != phase),
            !final(self)@.contains(phase),
    {
        proof {
            use_type_invariant(&*self);
        }
        let ghost pred = |p: BootstrapPhase| p != phase;
        let mut out: Vec<BootstrapPhase> = Vec::new();
        let mut i: usize = 0;
        while i < self.phases.len()
            invariant
                i <= self.phases.len(),
                self.phases@.no_duplicates(),
                pred == (|p: BootstrapPhase| p != phase),
                out@ == self.phases@.take(i as int).filter(pred),
                out@.no_duplicates(),
                forall|x: BootstrapPhase| out@.contains(x) ==> self.phases@.take(i as int).contains(
                    x,
                ) && x != phase,
            decreases self.phases.len() - i,
        {
            let p = self.phases[i];
            let ghost before = self.phases@.take(i as int);
            assert(self.phases@.take(i + 1) == before.push(p));
            proof {
                before.lemma_filter_push(p, pred);
                assert(!before.contains(p)) by {
                    if before.contains(p) {
                        let k = choose|k: int| 0 <= k < before.len() && before[k] == p;
                        assert(self.phases@[k] == self.phases@[i as int]);
                    }
                }
            }
            if p != phase {
                let ghost o = out@;
                out.push(p);
                proof {
                    assert forall|a: int, b: int| 0 <= a < b < out@.len() implies out@[a]
                        != out@[b] by {
                        if b == out@.len() - 1 {
                            assert(o.contains(out@[a]));
                        }
                    }
                    assert forall|x: BootstrapPhase| out@.contains(x) implies self.phases@.take(
                        i + 1,
                    ).contains(x) && x != phase by {
                        let k = choose|k: int| 0 <= k < out@.len() && out@[k] == x;
                        if k < o.len() {
                            assert(o.contains(x));
                            let m = choose|m: int| 0 <= m < before.len() && before[m] == x;
                            assert(self.phases@.take(i + 1)[m] == x);
                        } else {
                            assert(self.phases@.take(i + 1)[i as int] == x);
                        }
                    }
                }
            } else {
                proof {
                    assert forall|x: BootstrapPhase| out@.contains(x) implies self.phases@.take(
                        i + 1,
                    ).contains(x) && x != phase by {
                        let m = choose|m: int| 0 <= m < before.len() && before[m] == x;
                        assert(self.phases@.take(i + 1)[m] == x);
                    }
                }
            }
            i += 1;
        }
        assert(self.phases@.take(self.phases.len() as int) == self.phases@);
        self.phases = out;
    }
}

/// Whether `p` occurs in `s`.
fn phase_in(s: &[BootstrapPhase], p: BootstrapPhase) -> (r: bool)
    ensures
        r == s@.contains(p),
{
    let mut i: usize = 0;
    while i < s.len()
        invariant
            i <= s.len(),
            forall|j: int| 0 <= j < i ==> s@[j] != p,
        decreases s.len() - i,
    {
        if s[i] == p {
            assert(s@[i as int] == p);
            return true;
        }
        i += 1;
    }
    false
}

/// `first_index` finds the first occurrence.
proof fn lemma_first_index(s: Seq<BootstrapPhase>, x: BootstrapPhase, i: int)
    requires
        0 <= i < s.len(),
        s[i] == x,
        forall|k: int| 0 <= k < i ==> s[k] != x,
    ensures
        first_index(s, x) == i,
    decreases s.len(),
{
    if i > 0 {
        let t = s.drop_first();
        assert forall|k: int| 0 <= k < i - 1 implies t[k] != x by {
            assert(t[k] == s[k + 1]);
        }
        lemma_first_index(t, x, i - 1);
    }
}

/// The report line for timings: each phase as `Name: Xms`, then `Total: Xms`,
/// separated by ` | `.
pub open spec fn timing_parts(entries: Seq<(BootstrapPhase, u128)>, total_ms: u128) -> Seq<
    Seq<char>,
> {
    Seq::new(entries.len(), |i: int| phase_name(entries[i].0) + ": "@ + dec(entries[i].1 as nat) + "ms"@)
        .push("Total: "@ + dec(total_ms as nat) + "ms"@)
}

/// The report for the given phases with their durations `ms` and the total.
pub open spec fn timing_report(phases: Seq<BootstrapPhase>, ms: Seq<u128>, total: u128) -> Seq<
    char,
> {
    join(timing_parts(Seq::new(ms.len(), |i: int| (phases[i], ms[i])), total), " | "@)
}

/// Formats phase timings (in whole milliseconds) and the total as one report line.
pub fn format_timings(entries: &[(BootstrapPhase, u128)], total_ms: u128) -> (r: String)
    ensures
        r@ == join(timing_parts(entries@, total_ms), " | "@),
{
    let mut parts: Vec<Vec<char>> = Vec::new();
    let mut i: usize = 0;
    while i < entries.len()
        invariant
            i <= entries.len(),
            views(parts@) == timing_parts(entries@, total_ms).take(i as int),
        decreases entries.len() - i,
    {
        let (phase, ms) = entries[i];
        let mut part = buf(phase.as_str());
        extend_str(&mut part, ": ");
        push_dec_u128(&mut part, ms);
        extend_str(&mut part, "ms");
        let ghost o = parts@;
        parts.push(part);
        assert(views(parts@) =~= views(o).push(part@));
        assert(timing_parts(entries@, total_ms).take(i + 1) =~= timing_parts(entries@, total_ms).take(
            i as int,
        ).push(part@));
        i += 1;
    }
    let mut total = buf("Total: ");
    push_dec_u128(&mut total, total_ms);
    extend_str(&mut total, "ms");
    let ghost o = parts@;
    parts.push(total);
    assert(views(parts@) =~= views(o).push(total@));
    assert(views(parts@) =~= timing_parts(entries@, total_ms));
    let sep = buf(" | ");
    let out = join_chars(&parts, &sep);
    string_from_chars(&out)
}

/// Durations in nanoseconds as whole milliseconds.
pub open spec fn whole_millis(ns: Seq<u128>) -> Seq<u128> {
    ns.map_values(|n: u128| (n / 1_000_000) as u128)
}

/// Records wall-clock timing for individual bootstrap phases: each
/// completed phase with its duration, also as whole nanoseconds.
pub struct BootstrapTimer {
    phase_times: Vec<(BootstrapPhase, Duration, u128)>,
    start: Instant,
    pending: Vec<(BootstrapPhase, Instant)>,
}

/// The monotonic clock instant type of std.
#[verifier::external_type_specification]
#[verifier::external_body]
pub struct ExInstant(Instant);

/// `Instant::now`: the current reading of the monotonic clock.
#[verifier::external_body]
pub(crate) fn instant_now() -> Instant {
    Instant::now()
}

/// `Instant::elapsed`: the time passed since `i`.
#[verifier::external_body]
pub(crate) fn instant_elapsed(i: &Instant) -> Duration {
    i.elapsed()
}

/// `Instant::duration_since`: the time from `earlier` to `later`, zero when negative.
#[verifier::external_body]
fn instant_duration_since(later: &Instant, earlier: &Instant) -> Duration {
    later.duration_since(*earlier)
}

/// `Duration::as_nanos`: the whole nanoseconds of a duration.
#[verifier::external_body]
pub(crate) fn duration_as_nanos(d: &Duration) -> u128 {
    d.as_nanos()
}


impl BootstrapTimer {
    /// The phases whose timing has been recorded, in completion order.
    pub closed spec fn completed(&self) -> Seq<BootstrapPhase> {
        self.phase_times@.map_values(|e: (BootstrapPhase, Duration, u128)| e.0)
    }

    /// The recorded durations of the completed phases, in nanoseconds, in
    /// completion order.
    pub closed spec fn recorded_nanos(&self) -> Seq<u128> {
        self.phase_times@.map_values(|e: (BootstrapPhase, Duration, u128)| e.2)
    }

    /// The phases that were started and not yet ended, oldest first.
    pub closed spec fn started(&self) -> Seq<BootstrapPhase> {
        self.pending@.map_values(|e: (BootstrapPhase, Instant)| e.0)
    }

    /// A new timer; the total elapsed clock starts immediately.
    pub fn new() -> (r: BootstrapTimer)
        ensures
            r.completed() == Seq::<BootstrapPhase>::empty(),
            r.recorded_nanos() == Seq::<u128>::empty(),
            r.started() == Seq::<BootstrapPhase>::empty(),
    {
        let r = BootstrapTimer { phase_times: Vec::new(), start: instant_now(), pending: Vec::new() };
        assert(r.completed() =~= Seq::<BootstrapPhase>::empty());
        assert(r.recorded_nanos() =~= Seq::<u128>::empty());
        assert(r.started() =~= Seq::<BootstrapPhase>::empty());
        r
    }

    /// Records the start of `phase`.
    pub fn start_phase(&mut self, phase: BootstrapPhase)
        ensures
            final(self).started() == old(self).started().push(phase),
            final(self).completed() == old(self).completed(),
            final(self).recorded_nanos() == old(self).recorded_nanos(),
    {
        let now = instant_now();
        self.pending.push((phase, now));
        assert(self.started() =~= old(self).started().push(phase));
    }

    /// Records the end of `phase`, matched with its most recent unmatched start;
    /// does nothing when no start of `phase` is pending.
    pub fn end_phase(&mut self, phase: BootstrapPhase)
        ensures
            !old(self).started().contains(phase) ==> final(self).started() == old(self).started()
                && final(self).completed() == old(self).completed() && final(self).recorded_nanos()
                == old(self).recorded_nanos(),
            old(self).started().contains(phase) ==> final(self).recorded_nanos().len() == old(
                self,
            ).recorded_nanos().len() + 1 && final(self).recorded_nanos().drop_last() == old(
                self,
            ).recorded_nanos(),
            old(self).started().contains(phase) ==> final(self).completed() == old(
                self,
            ).completed().push(phase) && exists|k: int|
                0 <= k < old(self).started().len() && old(self).started()[k] == phase && (forall|
                    m: int,
                | k < m < old(self).started().len() ==> old(self).started()[m] != phase)
                    && final(self).started() == old(self).started().remove(k),
    {
        let now = instant_now();
        let k = match self.last_pending(phase) {
            Some(k) => k,
            None => {
                assert forall|m: int| 0 <= m < self.started().len() implies self.started()[m]
                    != phase by {
                    assert(self.started()[m] == self.pending@[m].0);
                }
                return;
            },
        };
        let ghost ps = self.pending@;
        let (_, started_at) = self.pending.remove(k);
        let d = instant_duration_since(&now, &started_at);
        let nanos = duration_as_nanos(&d);
        self.phase_times.push((phase, d, nanos));
        proof {
            assert(self.completed() =~= old(self).completed().push(phase));
            assert(self.recorded_nanos().drop_last() =~= old(self).recorded_nanos());
            assert(self.started() =~= old(self).started().remove(k as int));
            assert(old(self).started()[k as int] == phase);
            assert forall|m: int| k < m < old(self).started().len() implies old(self).started()[m]
                != phase by {
                assert(old(self).started()[m] == ps[m].0);
            }
        }
    }

    /// Index of the most recent pending start of `phase`.
    fn last_pending(&self, phase: BootstrapPhase) -> (r: Option<usize>)
        ensures
            r matches Some(k) ==> k < self.pending@.len() && self.pending@[k as int].0 == phase
                && forall|m: int| k < m < self.pending@.len() ==> self.pending@[m].0 != phase,
            r is None ==> forall|m: int| 0 <= m < self.pending@.len() ==> self.pending@[m].0 != phase,
    {
        let mut pos = self.pending.len();
        while pos > 0
            invariant
                pos <= self.pending.len(),
                forall|m: int| pos <= m < self.pending@.len() ==> self.pending@[m].0 != phase,
            decreases pos,
        {
            if self.pending[pos - 1].0 == phase {
                return Some(pos - 1);
            }
            pos -= 1;
        }
        None
    }

    /// The completed phase timings, in completion order.
    pub fn phase_times(&self) -> (r: Vec<(BootstrapPhase, Duration)>)
        ensures
            r@.map_values(|e: (BootstrapPhase, Duration)| e.0) == self.completed(),
    {
        let mut out: Vec<(BootstrapPhase, Duration)> = Vec::new();
        let mut i: usize = 0;
        while i < self.phase_times.len()
            invariant
                i <= self.phase_times@.len(),
                out@.map_values(|e: (BootstrapPhase, Duration)| e.0) == self.completed().take(i as int),
            decreases self.phase_times@.len() - i,
        {
            let (phase, d, _) = self.phase_times[i];
            let ghost o = out@;
            out.push((phase, d));
            assert(out@.map_values(|e: (BootstrapPhase, Duration)| e.0) =~= o.map_values(
                |e: (BootstrapPhase, Duration)| e.0,
            ).push(phase));
            assert(self.completed().take(i + 1) =~= self.completed().take(i as int).push(phase));
            i += 1;
        }
        assert(self.completed().take(self.phase_times@.len() as int) =~= self.completed());
        out
    }

    /// The total wall-clock duration since this timer was created.
    pub fn total_elapsed(&self) -> Duration {
        instant_elapsed(&self.start)
    }

    /// A one-line timing report: each completed phase as `Name: Xms`, then the
    /// total as `Total: Xms`, separated by ` | `.
    /// Each phase's time is its recorded duration in whole milliseconds; the
    /// total is the time since the timer was made, read from the clock.
    pub fn format_report(&self) -> (r: String)
        ensures
            exists|total: u128|
                r@ == #[trigger] timing_report(
                    self.completed(),
                    whole_millis(self.recorded_nanos()),
                    total,
                ),
    {
        let mut entries: Vec<(BootstrapPhase, u128)> = Vec::new();
        let mut i: usize = 0;
        while i < self.phase_times.len()
            invariant
                i <= self.phase_times.len(),
                entries@.len() == i,
                forall|k: int|
                    0 <= k < i ==> #[trigger] entries@[k] == (
                        self.completed()[k],
                        (self.recorded_nanos()[k] / 1_000_000) as u128,
                    ),
            decreases self.phase_times.len() - i,
        {
            let ms = self.phase_times[i].2 / 1_000_000;
            entries.push((self.phase_times[i].0, ms));
            i += 1;
        }
        let total = duration_as_nanos(&instant_elapsed(&self.start)) / 1_000_000;
        let r = format_timings(&entries, total);
        let ghost ms = whole_millis(self.recorded_nanos());
        assert forall|k: int| 0 <= k < entries@.len() implies entries@[k] == (
            self.completed()[k],
            ms[k],
        ) by {
            assert(entries@[k].0 == self.completed()[k]);
        }
        assert(Seq::new(ms.len(), |i: int| (self.completed()[i], ms[i])) =~= entries@);
        assert(r@ == timing_report(self.completed(), ms, total));
        r
    }
}

} // verus!
