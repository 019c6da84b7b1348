use grainlify::gas_optimization::{
    calculate_fee, clamp, deduplicate_program_ids, has_duplicates, optimized_batch_lock, safe_sub_zero,
    PackedFlags,
};
use grainlify::types::Symbol;

fn ids(xs: &[&str]) -> Vec<String> {
    xs.iter().map(|s| s.to_string()).collect()
}

#[test]
fn test_calculate_fee() {
    assert_eq!(calculate_fee(1000, 100, 10000), Some(10));
    assert_eq!(calculate_fee(1, 100, 10000), Some(1));
    assert_eq!(calculate_fee(1000, 0, 10000), Some(0));
    assert_eq!(calculate_fee(0, 100, 10000), Some(0));
}

#[test]
fn test_safe_sub_zero() {
    assert_eq!(safe_sub_zero(10, 5), 5);
    assert_eq!(safe_sub_zero(5, 10), 0);
    assert_eq!(safe_sub_zero(0, 0), 0);
}

#[test]
fn test_deduplicate_program_ids() {
    let items = ids(&["prog1", "prog2", "prog1", "prog3", "prog2"]);
    let deduped = deduplicate_program_ids(&items);
    assert_eq!(deduped.len(), 3);
    assert_eq!(deduped.get(0), Some(&"prog1".to_string()));
    assert_eq!(deduped.get(1), Some(&"prog2".to_string()));
    assert_eq!(deduped.get(2), Some(&"prog3".to_string()));
}

#[test]
fn test_has_duplicates() {
    assert!(has_duplicates(&ids(&["a", "b", "a"])));
    assert!(!has_duplicates(&ids(&["a", "b", "c"])));
}

#[test]
fn fee_rounds_up_and_overflow_is_signalled() {
    assert_eq!(calculate_fee(10001, 1, 10000), Some(2));
    assert_eq!(calculate_fee(19999, 1, 10000), Some(2));
    assert_eq!(calculate_fee(i128::MAX, 2, 10000), None);
    assert_eq!(calculate_fee(i128::MAX, 1, 10000), None);
    assert_eq!(calculate_fee(5, 100, 0), None);
    assert_eq!(calculate_fee(5, 100, 1), Some(500));
}

#[test]
fn safe_sub_zero_overflow_gives_zero() {
    assert_eq!(safe_sub_zero(i128::MAX, -1), 0);
    assert_eq!(safe_sub_zero(-5, -10), 5);
}

#[test]
fn clamp_bounds() {
    assert_eq!(clamp(5, 0, 10), 5);
    assert_eq!(clamp(-5, 0, 10), 0);
    assert_eq!(clamp(50, 0, 10), 10);
}

#[test]
fn dedup_sorts_by_code_point_and_keeps_singletons() {
    let d = deduplicate_program_ids(&ids(&["b", "ab", "a", "b", "é", "z"]));
    assert_eq!(d, ids(&["a", "ab", "b", "z", "é"]));
    assert_eq!(deduplicate_program_ids(&ids(&["only"])), ids(&["only"]));
    assert!(deduplicate_program_ids(&ids(&[])).is_empty());
    assert!(!has_duplicates(&d));
}

#[test]
fn pause_flags_round_trip_and_maintenance() {
    let key = Symbol { code: 7 };
    let other = Symbol { code: 8 };
    let mut f = PackedFlags::new();
    assert_eq!(f.get_pause_flags(key), (false, false, false));
    assert!(!f.is_maintenance_mode(key));
    f.set_pause_flags(key, true, false, true);
    assert_eq!(f.get_pause_flags(key), (true, false, true));
    f.set_maintenance_mode(key, true);
    assert!(f.is_maintenance_mode(key));
    assert_eq!(f.get_pause_flags(key), (true, false, true));
    assert!(!f.is_maintenance_mode(other));
    f.set_pause_flags(key, false, true, false);
    assert_eq!(f.get_pause_flags(key), (false, true, false));
    assert!(!f.is_maintenance_mode(key));
    f.set_maintenance_mode(key, true);
    f.set_maintenance_mode(key, false);
    assert!(!f.is_maintenance_mode(key));
    assert_eq!(f.get_pause_flags(key), (false, true, false));
}

#[test]
fn batch_lock_collects_answers_in_order() {
    let items: Vec<(String, i128)> = vec![
        ("p1".to_string(), 10),
        ("p1".to_string(), -1),
        ("p2".to_string(), 5),
    ];
    let results = optimized_batch_lock(&items, |_id: &String, amount: i128| amount > 0);
    assert_eq!(results, vec![true, false, true]);
}

#[test]
fn dedup_matches_std_string_order() {
    let items = ids(&["zeta", "Äpfel", "apple", "zeta", "a", "", "ä", "apple"]);
    let mut expected = items.clone();
    expected.sort();
    expected.dedup();
    assert_eq!(deduplicate_program_ids(&items), expected);
}

#[test]
fn duplicates_exactly_when_dedup_shortens() {
    for case in [ids(&["a", "b", "a"]), ids(&["a", "b", "c"]), ids(&["x"]), ids(&[]), ids(&["q", "q"])] {
        let shorter = deduplicate_program_ids(&case).len() < case.len();
        assert_eq!(has_duplicates(&case), shorter);
    }
}
