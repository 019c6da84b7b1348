use grainlify::monitoring::{
    emit_performance, get_analytics, get_performance_stats, get_state_snapshot, track_operation, Monitoring,
    MAX_TRACKED_FUNCTIONS, MAX_TRACKED_USERS,
};
use grainlify::types::{Address, Symbol};

const OP: Symbol = Symbol { code: 1 };

#[test]
fn operations_users_and_errors_are_counted() {
    let mut m = Monitoring::new();
    track_operation(&mut m, OP, Address { id: 1 }, true, 10);
    track_operation(&mut m, OP, Address { id: 1 }, false, 20);
    track_operation(&mut m, OP, Address { id: 2 }, true, 30);
    let a = get_analytics(&m);
    assert_eq!(a.operation_count, 3);
    assert_eq!(a.unique_users, 2);
    assert_eq!(a.error_count, 1);
    assert_eq!(a.error_rate, 3333);
    let snap = get_state_snapshot(&m, 99);
    assert_eq!((snap.timestamp, snap.total_operations, snap.total_users, snap.total_errors), (99, 3, 2, 1));
    assert_eq!(m.last_operation_ts, 30);
}

#[test]
fn analytics_without_operations_has_zero_error_rate() {
    let m = Monitoring::new();
    assert_eq!(get_analytics(&m).error_rate, 0);
}

#[test]
fn distinct_users_are_capped() {
    let mut m = Monitoring::new();
    for i in 0..(MAX_TRACKED_USERS as u64 + 10) {
        track_operation(&mut m, OP, Address { id: i }, true, i);
    }
    assert_eq!(m.unique_users, MAX_TRACKED_USERS as u64);
    assert_eq!(m.tracked_users.len(), MAX_TRACKED_USERS);
    assert_eq!(m.operation_count, MAX_TRACKED_USERS as u64 + 10);
}

#[test]
fn performance_stats_accumulate_and_evict_oldest() {
    let mut m = Monitoring::new();
    emit_performance(&mut m, OP, 10, 1);
    emit_performance(&mut m, OP, 20, 2);
    let st = get_performance_stats(&m, OP);
    assert_eq!((st.call_count, st.total_time, st.avg_time, st.last_called), (2, 30, 15, 2));
    for i in 2..(MAX_TRACKED_FUNCTIONS as u64 + 2) {
        emit_performance(&mut m, Symbol { code: i }, 1, 3);
    }
    assert_eq!(m.perf.len(), MAX_TRACKED_FUNCTIONS);
    let evicted = get_performance_stats(&m, OP);
    assert_eq!((evicted.call_count, evicted.total_time, evicted.avg_time), (0, 0, 0));
}
