//! Operational metrics of the core contract: operation, user and error
//! counters, per-function performance statistics, and the invariant report
//! derived from them and from the core configuration.
use vstd::prelude::*;
use crate::types::{Address, Symbol, contains_address};

verus! {

/// Number of functions whose performance is tracked at once.
pub const MAX_TRACKED_FUNCTIONS: usize = 50;

/// Number of distinct callers remembered.
pub const MAX_TRACKED_USERS: usize = 64;

/// Performance counters of one function.
#[derive(Clone, Copy, Debug, PartialEq, Eq, Structural)]
pub struct PerfEntry {
    pub function: Symbol,
    pub call_count: u64,
    pub total_time: u64,
    pub last_called: u64,
}

/// Everything the monitoring keeps in storage.
#[derive(Debug)]
pub struct Monitoring {
    pub operation_count: u64,
    pub unique_users: u64,
    pub error_count: u64,
    pub last_operation_ts: u64,
    /// Distinct callers seen, in order of first appearance.
    pub tracked_users: Vec<Address>,
    /// Tracked functions, oldest first.
    pub perf: Vec<PerfEntry>,
}

/// Aggregate usage figures.
#[derive(Clone, Copy, Debug, PartialEq, Eq, Structural)]
pub struct Analytics {
    pub operation_count: u64,
    pub unique_users: u64,
    pub error_count: u64,
    /// Errors per operation in basis points.
    pub error_rate: u32,
}

/// Counters at a point in time.
#[derive(Clone, Copy, Debug, PartialEq, Eq, Structural)]
pub struct StateSnapshot {
    pub timestamp: u64,
    pub total_operations: u64,
    pub total_users: u64,
    pub total_errors: u64,
}

/// Performance statistics of one function.
#[derive(Clone, Copy, Debug, PartialEq, Eq, Structural)]
pub struct PerformanceStats {
    pub function_name: Symbol,
    pub call_count: u64,
    pub total_time: u64,
    pub avg_time: u64,
    pub last_called: u64,
}

/// The health summary of the core contract.
#[derive(Debug)]
pub struct HealthStatus {
    pub is_healthy: bool,
    pub last_operation: u64,
    pub total_operations: u64,
    /// The contract version as ASCII semver text.
    pub contract_version: Vec<u8>,
}

/// Which configuration and metric invariants hold, and how many fail.
#[derive(Clone, Copy, Debug, PartialEq, Eq, Structural)]
pub struct InvariantReport {
    pub healthy: bool,
    pub config_sane: bool,
    pub metrics_sane: bool,
    pub admin_set: bool,
    pub version_set: bool,
    pub version: u32,
    pub operation_count: u64,
    pub unique_users: u64,
    pub error_count: u64,
    pub violation_count: u32,
}

/// `a + b`, saturating at `u64::MAX`.
pub open spec fn sat_add(a: u64, b: u64) -> u64 {
    if a + b > u64::MAX {
        u64::MAX
    } else {
        (a + b) as u64
    }
}

/// Index of the entry of `f`.
pub open spec fn perf_index(es: Seq<PerfEntry>, f: Symbol) -> Option<int>
    decreases es.len(),
{
    if es.len() == 0 {
        None
    } else {
        match perf_index(es.drop_last(), f) {
            Some(i) => Some(i),
            None => if es.last().function == f {
                Some(es.len() - 1)
            } else {
                None
            },
        }
    }
}

/// Performance counters of `f` (all zero when untracked).
pub open spec fn perf_of(m: &Monitoring, f: Symbol) -> PerfEntry {
    match perf_index(m.perf@, f) {
        Some(i) => m.perf@[i],
        None => PerfEntry { function: f, call_count: 0, total_time: 0, last_called: 0 },
    }
}

/// Whether the metric counters are mutually consistent: no more errors or
/// users than operations, and nothing counted before the first operation.
pub open spec fn metrics_sane(m: &Monitoring) -> bool {
    m.error_count <= m.operation_count && m.unique_users <= m.operation_count && (m.operation_count > 0
        || (m.unique_users == 0 && m.error_count == 0))
}

impl Monitoring {
    /// No metrics recorded yet.
    pub fn new() -> (m: Self)
        ensures
            m.operation_count == 0,
            m.unique_users == 0,
            m.error_count == 0,
            m.last_operation_ts == 0,
            m.tracked_users@.len() == 0,
            m.perf@.len() == 0,
    {
        Monitoring {
            operation_count: 0,
            unique_users: 0,
            error_count: 0,
            last_operation_ts: 0,
            tracked_users: Vec::new(),
            perf: Vec::new(),
        }
    }
}

/// How the remembered callers and the user counter change when `caller`
/// is seen: a known caller changes nothing; a new one is appended while
/// fewer than 64 are remembered, otherwise the counter is pinned at 64.
pub open spec fn users_after(m1: &Monitoring, m2: &Monitoring, caller: Address) -> bool {
    if m1.tracked_users@.contains(caller) {
        m2.tracked_users == m1.tracked_users && m2.unique_users == m1.unique_users
    } else if m1.tracked_users@.len() >= MAX_TRACKED_USERS {
        m2.tracked_users == m1.tracked_users && m2.unique_users == MAX_TRACKED_USERS
    } else {
        m2.tracked_users@ == m1.tracked_users@.push(caller) && m2.unique_users == m2.tracked_users@.len()
    }
}

/// `m2` is `m1` after one operation by `caller` at `now`: one more operation
/// (saturating), the last-operation time is `now`, a failure counts one more
/// error (saturating), and the caller is remembered.
pub open spec fn operation_tracked(m1: &Monitoring, m2: &Monitoring, caller: Address, success: bool, now: u64) -> bool {
    &&& m2.operation_count == sat_add(m1.operation_count, 1)
    &&& m2.last_operation_ts == now
    &&& m2.error_count == (if success {
        m1.error_count
    } else {
        sat_add(m1.error_count, 1)
    })
    &&& users_after(m1, m2, caller)
}

/// `m2` is `m1` after an entrypoint `function` called by `caller` has been
/// tracked as an operation and timed at `duration` seconds.
pub open spec fn call_recorded(
    m1: &Monitoring,
    m2: &Monitoring,
    function: Symbol,
    caller: Address,
    success: bool,
    duration: u64,
    now: u64,
) -> bool {
    &&& operation_tracked(m1, m2, caller, success, now)
    &&& m2.perf@ == perf_after(m1.perf@, function, duration, now)
}

/// Remembers `caller` among the distinct callers, up to 64 of them, and
/// keeps the user counter in step.
fn track_unique_user(m: &mut Monitoring, caller: Address)
    ensures
        final(m).operation_count == old(m).operation_count,
        final(m).error_count == old(m).error_count,
        final(m).last_operation_ts == old(m).last_operation_ts,
        final(m).perf == old(m).perf,
        users_after(old(m), final(m), caller),
{
    if contains_address(&m.tracked_users, caller) {
        proof {
            let i = choose|i: int| 0 <= i < old(m).tracked_users@.len() && old(m).tracked_users@[i] == caller;
            assert(old(m).tracked_users@.contains(caller)) by {
                assert(old(m).tracked_users@[i] == caller);
            }
        }
        return;
    }
    proof {
        assert(!old(m).tracked_users@.contains(caller)) by {
            if old(m).tracked_users@.contains(caller) {
                let i = choose|i: int| 0 <= i < old(m).tracked_users@.len() && old(m).tracked_users@[i] == caller;
                assert(crate::types::seq_has(old(m).tracked_users@, caller));
            }
        }
    }
    if m.tracked_users.len() >= MAX_TRACKED_USERS {
        m.unique_users = MAX_TRACKED_USERS as u64;
        return;
    }
    m.tracked_users.push(caller);
    m.unique_users = m.tracked_users.len() as u64;
}

/// Records one operation by `caller` at `now`: the operation counter grows
/// by one (saturating), the last-operation time becomes `now`, the caller
/// joins the distinct callers (up to 64), and a failure also counts an
/// error.
pub fn track_operation(m: &mut Monitoring, operation: Symbol, caller: Address, success: bool, now: u64)
    ensures
        operation_tracked(old(m), final(m), caller, success, now),
        final(m).perf == old(m).perf,
{
    m.operation_count = m.operation_count.saturating_add(1);
    m.last_operation_ts = now;
    track_unique_user(m, caller);
    if !success {
        m.error_count = m.error_count.saturating_add(1);
    }
}

fn find_perf(es: &Vec<PerfEntry>, f: Symbol) -> (r: Option<usize>)
    ensures
        r matches Some(i) ==> perf_index(es@, f) == Some(i as int) && i < es@.len() && es@[i as int].function == f,
        r is None ==> perf_index(es@, f) is None,
{
    let mut i: usize = 0;
    while i < es.len()
        invariant
            0 <= i <= es.len(),
            forall|j: int| 0 <= j < i ==> (#[trigger] es@[j]).function != f,
        decreases es.len() - i,
    {
        if es[i].function == f {
            proof {
                lemma_perf_index_is(es@, f, i as int);
            }
            return Some(i);
        }
        i = i + 1;
    }
    proof {
        lemma_perf_index_char(es@, f);
        if perf_index(es@, f) is Some {
            let k = perf_index(es@, f)->0;
            assert(es@[k].function != f);
        }
    }
    None
}

proof fn lemma_perf_index_char(es: Seq<PerfEntry>, f: Symbol)
    ensures
        perf_index(es, f) matches Some(i) ==> 0 <= i < es.len() && es[i].function == f && forall|j: int|
            0 <= j < i ==> (#[trigger] es[j]).function != f,
        perf_index(es, f) is None ==> forall|j: int| 0 <= j < es.len() ==> (#[trigger] es[j]).function != f,
    decreases es.len(),
{
    if es.len() > 0 {
        let p = es.drop_last();
        lemma_perf_index_char(p, f);
        if perf_index(p, f) is Some {
            let i = perf_index(p, f)->0;
            assert(p[i] == es[i]);
            assert forall|j: int| 0 <= j < i implies (#[trigger] es[j]).function != f by {
                assert(p[j] == es[j]);
            }
        } else {
            assert forall|j: int| 0 <= j < es.len() - 1 implies (#[trigger] es[j]).function != f by {
                assert(p[j] == es[j]);
            }
        }
    }
}

proof fn lemma_perf_index_is(es: Seq<PerfEntry>, f: Symbol, i: int)
    requires
        0 <= i < es.len(),
        es[i].function == f,
        forall|j: int| 0 <= j < i ==> (#[trigger] es[j]).function != f,
    ensures
        perf_index(es, f) == Some(i),
{
    lemma_perf_index_char(es, f);
    match perf_index(es, f) {
        Some(k) => {
            if k < i {
                assert(es[k].function != f);
            }
            if i < k {
                assert(es[i].function != f);
            }
        },
        None => {
            assert(es[i].function != f);
        },
    }
}

/// The tracked functions after `f` is seen at `now` for `duration` seconds:
/// a tracked function has its counters advanced (saturating); an untracked
/// one is appended with one call, evicting the oldest tracked function when
/// 50 are already tracked.
pub open spec fn perf_after(es: Seq<PerfEntry>, f: Symbol, duration: u64, now: u64) -> Seq<PerfEntry> {
    match perf_index(es, f) {
        Some(i) => es.update(
            i,
            PerfEntry {
                function: f,
                call_count: sat_add(es[i].call_count, 1),
                total_time: sat_add(es[i].total_time, duration),
                last_called: now,
            },
        ),
        None => {
            let kept = if es.len() >= MAX_TRACKED_FUNCTIONS {
                es.drop_first()
            } else {
                es
            };
            kept.push(PerfEntry { function: f, call_count: 1, total_time: duration, last_called: now })
        },
    }
}

/// Records one call of `function` taking `duration` seconds at `now`.
pub fn emit_performance(m: &mut Monitoring, function: Symbol, duration: u64, now: u64)
    ensures
        final(m).perf@ == perf_after(old(m).perf@, function, duration, now),
        final(m).operation_count == old(m).operation_count,
        final(m).unique_users == old(m).unique_users,
        final(m).error_count == old(m).error_count,
        final(m).last_operation_ts == old(m).last_operation_ts,
        final(m).tracked_users == old(m).tracked_users,
{
    match find_perf(&m.perf, function) {
        Some(i) => {
            let e: PerfEntry = m.perf[i];
            let updated = PerfEntry {
                function,
                call_count: e.call_count.saturating_add(1),
                total_time: e.total_time.saturating_add(duration),
                last_called: now,
            };
            m.perf.set(i, updated);
        },
        None => {
            if m.perf.len() >= MAX_TRACKED_FUNCTIONS {
                let mut trimmed: Vec<PerfEntry> = Vec::new();
                let mut j: usize = 1;
                while j < m.perf.len()
                    invariant
                        1 <= j <= m.perf.len(),
                        m.perf@ == old(m).perf@,
                        trimmed@ == m.perf@.subrange(1, j as int),
                    decreases m.perf.len() - j,
                {
                    trimmed.push(m.perf[j]);
                    j = j + 1;
                    assert(trimmed@ =~= m.perf@.subrange(1, j as int));
                }
                assert(trimmed@ =~= old(m).perf@.drop_first());
                m.perf = trimmed;
            }
            m.perf.push(PerfEntry { function, call_count: 1, total_time: duration, last_called: now });
        },
    }
}

/// Tracks an entrypoint call as one operation and times it.
pub(crate) fn record_call(
    m: &mut Monitoring,
    function: Symbol,
    caller: Address,
    success: bool,
    duration: u64,
    now: u64,
)
    ensures
        call_recorded(old(m), final(m), function, caller, success, duration, now),
{
    track_operation(m, function, caller, success, now);
    emit_performance(m, function, duration, now);
}

/// `errors * 10 000 / operations`, or 0 without operations.
pub open spec fn error_rate(m: &Monitoring) -> int {
    if m.operation_count > 0 {
        (m.error_count * 10000) / (m.operation_count as int)
    } else {
        0
    }
}

/// Aggregate usage figures, with the error rate truncated to `u32`.
pub fn get_analytics(m: &Monitoring) -> (r: Analytics)
    ensures
        r.operation_count == m.operation_count,
        r.unique_users == m.unique_users,
        r.error_count == m.error_count,
        r.error_rate == error_rate(m) as u32,
{
    let ops: u64 = m.operation_count;
    let errors: u64 = m.error_count;
    let error_rate: u32 = if ops > 0 {
        let num: u128 = errors as u128 * 10000;
        (num / ops as u128) as u32
    } else {
        0
    };
    Analytics { operation_count: ops, unique_users: m.unique_users, error_count: errors, error_rate }
}

/// The counters at `now`.
pub fn get_state_snapshot(m: &Monitoring, now: u64) -> (r: StateSnapshot)
    ensures
        r == (StateSnapshot {
            timestamp: now,
            total_operations: m.operation_count,
            total_users: m.unique_users,
            total_errors: m.error_count,
        }),
{
    StateSnapshot {
        timestamp: now,
        total_operations: m.operation_count,
        total_users: m.unique_users,
        total_errors: m.error_count,
    }
}

/// Performance statistics of `function_name`, with the average call time
/// (0 for an untracked function).
pub fn get_performance_stats(m: &Monitoring, function_name: Symbol) -> (r: PerformanceStats)
    ensures
        r.function_name == function_name,
        r.call_count == perf_of(m, function_name).call_count,
        r.total_time == perf_of(m, function_name).total_time,
        r.last_called == perf_of(m, function_name).last_called,
        r.avg_time == (if r.call_count > 0 {
            r.total_time / r.call_count
        } else {
            0
        }),
{
    let (count, total, last) = match find_perf(&m.perf, function_name) {
        Some(i) => (m.perf[i].call_count, m.perf[i].total_time, m.perf[i].last_called),
        None => (0u64, 0u64, 0u64),
    };
    let avg: u64 = if count > 0 {
        total / count
    } else {
        0
    };
    PerformanceStats { function_name, call_count: count, total_time: total, avg_time: avg, last_called: last }
}

/// Consistency of the user tracking with the counters.
pub open spec fn monitor_wf(m: &Monitoring) -> bool {
    &&& m.tracked_users@.len() <= MAX_TRACKED_USERS
    &&& m.unique_users == m.tracked_users@.len()
    &&& m.tracked_users@.len() <= m.operation_count
    &&& m.error_count <= m.operation_count
}

/// Recording an operation keeps the counters consistent: no more errors or
/// distinct users than operations, and the user counter matches the
/// remembered callers.
pub proof fn law_track_operation_keeps_metrics_sane(
    m1: &Monitoring,
    m2: &Monitoring,
    caller: Address,
    success: bool,
    now: u64,
)
    requires
        monitor_wf(m1),
        operation_tracked(m1, m2, caller, success, now),
    ensures
        monitor_wf(m2),
        metrics_sane(m2),
{
}

/// Recording a call keeps at most 50 functions tracked.
pub proof fn law_tracked_functions_bounded(es: Seq<PerfEntry>, f: Symbol, duration: u64, now: u64)
    requires
        es.len() <= MAX_TRACKED_FUNCTIONS,
    ensures
        perf_after(es, f, duration, now).len() <= MAX_TRACKED_FUNCTIONS,
{
    lemma_perf_index_char(es, f);
}

} // verus!
