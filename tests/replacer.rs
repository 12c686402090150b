use bustub_storage::lru_k_replacer::{AccessType, LRUKNode, LRUKReplacer, ReplacerError};

#[test]
fn frame_with_one_access_is_evicted_before_frame_with_two() {
    let mut r = LRUKReplacer::new(2, 2);
    assert_eq!(r.record_access(0, AccessType::Unknown), Ok(()));
    assert_eq!(r.record_access(1, AccessType::Unknown), Ok(()));
    assert_eq!(r.record_access(0, AccessType::Unknown), Ok(()));
    assert_eq!(r.set_evictable(0, true), Ok(()));
    assert_eq!(r.set_evictable(1, true), Ok(()));
    assert_eq!(r.size(), 2);
    assert_eq!(r.evict(), Some(1));
    assert_eq!(r.evict(), Some(0));
    assert_eq!(r.evict(), None);
    assert_eq!(r.size(), 0);
}

#[test]
fn non_evictable_frame_is_never_evicted() {
    let mut r = LRUKReplacer::new(3, 2);
    r.record_access(0, AccessType::Lookup).unwrap();
    r.record_access(1, AccessType::Lookup).unwrap();
    r.set_evictable(1, true).unwrap();
    assert_eq!(r.evict(), Some(1));
    assert_eq!(r.evict(), None);
    r.set_evictable(0, true).unwrap();
    r.set_evictable(0, false).unwrap();
    assert_eq!(r.size(), 0);
    assert_eq!(r.evict(), None);
}

#[test]
fn short_history_preferred_over_full_history() {
    let mut r = LRUKReplacer::new(4, 2);
    // frame 2: one access, the most recent of all
    r.record_access(3, AccessType::Scan).unwrap();
    r.record_access(3, AccessType::Scan).unwrap();
    r.record_access(2, AccessType::Scan).unwrap();
    r.set_evictable(2, true).unwrap();
    r.set_evictable(3, true).unwrap();
    assert_eq!(r.evict(), Some(2));
}

#[test]
fn least_recent_preferred_among_short_histories() {
    let mut r = LRUKReplacer::new(4, 3);
    r.record_access(1, AccessType::Index).unwrap();
    r.record_access(2, AccessType::Index).unwrap();
    r.record_access(2, AccessType::Index).unwrap();
    r.record_access(3, AccessType::Index).unwrap();
    r.record_access(1, AccessType::Index).unwrap();
    for f in 1..4 {
        r.set_evictable(f, true).unwrap();
    }
    // most recent accesses: frame 1 at 4, frame 2 at 2, frame 3 at 3
    assert_eq!(r.evict(), Some(2));
    assert_eq!(r.evict(), Some(3));
    assert_eq!(r.evict(), Some(1));
}

#[test]
fn oldest_kth_access_preferred_among_full_histories() {
    let mut r = LRUKReplacer::new(3, 2);
    r.record_access(0, AccessType::Unknown).unwrap(); // 0
    r.record_access(1, AccessType::Unknown).unwrap(); // 1
    r.record_access(1, AccessType::Unknown).unwrap(); // 2
    r.record_access(0, AccessType::Unknown).unwrap(); // 3
    r.record_access(0, AccessType::Unknown).unwrap(); // 4: frame 0 now holds 4, 3
    r.set_evictable(0, true).unwrap();
    r.set_evictable(1, true).unwrap();
    // second most recent: frame 0 at 3, frame 1 at 1
    assert_eq!(r.evict(), Some(1));
    assert_eq!(r.evict(), Some(0));
}

#[test]
fn evicted_frame_starts_fresh() {
    let mut r = LRUKReplacer::new(2, 2);
    r.record_access(0, AccessType::Unknown).unwrap();
    r.record_access(0, AccessType::Unknown).unwrap();
    r.record_access(1, AccessType::Unknown).unwrap();
    r.record_access(1, AccessType::Unknown).unwrap();
    r.set_evictable(0, true).unwrap();
    r.set_evictable(1, true).unwrap();
    assert_eq!(r.size(), 2);
    assert_eq!(r.evict(), Some(0));
    assert_eq!(r.size(), 1);
    // frame 0 comes back with a single access: infinite distance again
    r.record_access(0, AccessType::Unknown).unwrap();
    r.set_evictable(0, true).unwrap();
    assert_eq!(r.size(), 2);
    assert_eq!(r.evict(), Some(0));
}

#[test]
fn set_evictable_without_record_is_a_no_op() {
    let mut r = LRUKReplacer::new(2, 2);
    assert_eq!(r.set_evictable(1, true), Ok(()));
    assert_eq!(r.size(), 0);
    assert_eq!(r.evict(), None);
}

#[test]
fn set_evictable_twice_counts_once() {
    let mut r = LRUKReplacer::new(2, 2);
    r.record_access(1, AccessType::Unknown).unwrap();
    r.set_evictable(1, true).unwrap();
    r.set_evictable(1, true).unwrap();
    assert_eq!(r.size(), 1);
    r.set_evictable(1, false).unwrap();
    r.set_evictable(1, false).unwrap();
    assert_eq!(r.size(), 0);
}

#[test]
fn out_of_range_frames_are_rejected() {
    let mut r = LRUKReplacer::new(2, 2);
    assert_eq!(r.record_access(2, AccessType::Unknown), Err(ReplacerError::InvalidFrame));
    assert_eq!(r.record_access(-1, AccessType::Unknown), Err(ReplacerError::InvalidFrame));
    assert_eq!(r.set_evictable(5, true), Err(ReplacerError::InvalidFrame));
    assert_eq!(r.remove(2), Err(ReplacerError::InvalidFrame));
    assert!(!r.check_frame_id_valid(2));
    assert!(r.check_frame_id_valid(1));
    assert_eq!(r.size(), 0);
}

#[test]
fn remove_drops_an_evictable_frame() {
    let mut r = LRUKReplacer::new(3, 2);
    r.record_access(0, AccessType::Unknown).unwrap();
    r.record_access(1, AccessType::Unknown).unwrap();
    r.set_evictable(0, true).unwrap();
    r.set_evictable(1, true).unwrap();
    assert_eq!(r.remove(0), Ok(()));
    assert_eq!(r.size(), 1);
    assert_eq!(r.remove(2), Ok(()));
    assert_eq!(r.size(), 1);
    assert_eq!(r.evict(), Some(1));
    assert_eq!(r.evict(), None);
}

#[test]
fn node_keeps_the_last_k_accesses() {
    let mut n = LRUKNode::new(7, 2);
    assert_eq!(n.get_oldest_access(), 0);
    assert_eq!(n.get_k_access(), 0);
    n.record_access(10);
    assert_eq!(n.get_oldest_access(), 10);
    assert_eq!(n.get_k_access(), 0);
    n.record_access(20);
    assert_eq!(n.get_oldest_access(), 10);
    assert_eq!(n.get_k_access(), 10);
    n.record_access(30);
    assert_eq!(n.get_oldest_access(), 20);
    assert_eq!(n.get_k_access(), 20);
}

#[test]
fn timestamps_advance_once_per_recorded_access() {
    let mut r = LRUKReplacer::new(2, 2);
    assert_eq!(r.current_timestamp(), 0);
    r.record_access(0, AccessType::Unknown).unwrap();
    r.record_access(0, AccessType::Unknown).unwrap();
    assert_eq!(r.current_timestamp(), 2);
    let _ = r.record_access(9, AccessType::Unknown);
    assert_eq!(r.current_timestamp(), 2);
    assert!(!r.is_evictable(0));
    r.set_evictable(0, true).unwrap();
    assert!(r.is_evictable(0));
    assert!(!r.is_evictable(1));
    assert!(!r.is_evictable(-3));
}
