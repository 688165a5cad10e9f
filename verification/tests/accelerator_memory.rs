use cosmo::accelerator::{allows_update, AndersonAccelerator};

#[test]
fn memory_is_clamped() {
    let a = AndersonAccelerator::new(10, 15, 3);
    assert_eq!(a.mem, 10);
    assert_eq!(a.min_mem, 3);
    let b = AndersonAccelerator::new(1, 1, 0);
    assert_eq!(b.mem, 2);
    assert_eq!(b.min_mem, 2);
    let c = AndersonAccelerator::new(100, 5, 9);
    assert_eq!(c.mem, 5);
    assert_eq!(c.min_mem, 5);
    assert!(c.init_phase && c.iter == 0 && !c.was_successful());
}

#[test]
fn history_columns_cycle_and_restart() {
    let mut a = AndersonAccelerator::new(10, 3, 2);
    assert_eq!(a.update(), None);
    assert_eq!(a.begin_accelerate(), None);
    assert_eq!(a.update(), Some(0));
    assert_eq!(a.begin_accelerate(), None);
    assert_eq!(a.update(), Some(1));
    assert_eq!(a.begin_accelerate(), Some(2));
    a.finish_accelerate(true);
    assert!(a.was_successful());
    assert_eq!(a.update(), Some(2));
    assert_eq!(a.begin_accelerate(), Some(3));
    assert!(!a.was_successful());
    // all three columns in use: the history restarts at column 0
    assert_eq!(a.update(), Some(0));
    assert_eq!(a.iter, 1);
    assert_eq!(a.begin_accelerate(), None);
    a.restart();
    assert!(a.init_phase);
    assert_eq!(a.update(), None);
    assert_eq!(a.update(), Some(0));
}

#[test]
fn updates_wait_for_an_accepted_acceleration() {
    assert!(allows_update(None));
    let mut a = AndersonAccelerator::new(4, 3, 2);
    assert!(allows_update(Some(&a)));
    a.finish_accelerate(true);
    assert!(!allows_update(Some(&a)));
    a.finish_accelerate(false);
    assert!(allows_update(Some(&a)));
}
