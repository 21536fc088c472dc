use net_profiling::depth::{DepthTracker, FunctionRegistry};

#[test]
fn depth_counts_per_cpu() {
    let mut t = DepthTracker::new();
    assert_eq!(t.increment_depth(0), 1);
    assert_eq!(t.increment_depth(0), 2);
    assert_eq!(t.increment_depth(3), 1);
    assert_eq!(t.decrement_depth(0), 1);
    assert_eq!(t.decrement_depth(0), 0);
    // CPU 3 kept its own depth all along
    assert_eq!(t.decrement_depth(3), 0);
}

#[test]
fn decrement_saturates_at_zero() {
    let mut t = DepthTracker::new();
    assert_eq!(t.decrement_depth(1), 0);
    assert_eq!(t.decrement_depth(1), 0);
    assert_eq!(t.increment_depth(1), 1);
}

#[test]
fn active_flags_are_per_cpu() {
    let mut t = DepthTracker::new();
    assert!(!t.should_profile_stack_id(0));
    t.set_function_active(0, true);
    assert!(t.should_profile_stack_id(0));
    assert!(!t.should_profile_stack_id(1));
    t.set_function_active(0, false);
    assert!(!t.should_profile_stack_id(0));
}

#[test]
fn first_registration_of_a_call_site_wins() {
    let mut r = FunctionRegistry::new();
    assert_eq!(r.get(7), None);
    r.register_function(7, 21);
    r.register_function(7, 99);
    r.register_function(-3, 4);
    assert_eq!(r.get(7), Some(21));
    assert_eq!(r.get(-3), Some(4));
    assert_eq!(r.get(0), None);
}
