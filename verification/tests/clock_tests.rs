// The clock and identifier wrappers.

use aggregator_core::clock::{new_update_id, now_millis};

#[test]
fn test_now_millis_does_not_go_backwards() {
    let a = now_millis();
    let b = now_millis();
    assert!(b >= a);
}

#[test]
fn test_update_ids_are_fresh() {
    let a = new_update_id();
    let b = new_update_id();
    assert_ne!(a, b);
}
