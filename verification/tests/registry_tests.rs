use yorool_gui::registry::{Registry, SendError};

#[test]
fn fresh_handles_are_live_and_distinct() {
    let mut registry: Registry<u32> = Registry::new();
    let a = registry.register();
    let b = registry.register();
    assert_ne!(a, b);
    assert!(registry.resolves(a));
    assert!(registry.resolves(b));
}

#[test]
fn requests_are_drained_in_send_order() {
    let mut registry: Registry<u32> = Registry::new();
    let id = registry.register();
    assert_eq!(registry.send(id, 10, 1), Ok(()));
    assert_eq!(registry.send(id, 11, 2), Ok(()));
    assert_eq!(registry.send(id, 12, 3), Ok(()));
    let taken = registry.drain(id);
    let seen: Vec<(u64, u32)> = taken.iter().map(|e| (e.reply_to, e.request)).collect();
    assert_eq!(seen, vec![(10, 1), (11, 2), (12, 3)]);
}

#[test]
fn drain_leaves_the_queue_empty() {
    let mut registry: Registry<u32> = Registry::new();
    let id = registry.register();
    registry.send(id, 0, 7).unwrap();
    assert_eq!(registry.drain(id).len(), 1);
    assert_eq!(registry.drain(id).len(), 0);
    assert!(registry.resolves(id));
}

#[test]
fn drain_of_an_empty_queue_is_a_no_op() {
    let mut registry: Registry<u32> = Registry::new();
    let id = registry.register();
    assert!(registry.drain(id).is_empty());
    assert!(registry.resolves(id));
}

#[test]
fn queues_are_kept_apart() {
    let mut registry: Registry<u32> = Registry::new();
    let a = registry.register();
    let b = registry.register();
    registry.send(a, 0, 1).unwrap();
    registry.send(b, 0, 2).unwrap();
    registry.send(a, 0, 3).unwrap();
    let from_b: Vec<u32> = registry.drain(b).iter().map(|e| e.request).collect();
    let from_a: Vec<u32> = registry.drain(a).iter().map(|e| e.request).collect();
    assert_eq!(from_b, vec![2]);
    assert_eq!(from_a, vec![1, 3]);
}

#[test]
fn send_to_an_unregistered_target_fails_as_target_gone() {
    let mut registry: Registry<u32> = Registry::new();
    let id = registry.register();
    registry.unregister(id);
    assert!(!registry.resolves(id));
    assert_eq!(registry.send(id, 0, 1), Err(SendError::TargetGone));
    assert!(registry.drain(id).is_empty());
}

#[test]
fn unregister_hands_back_what_nobody_will_serve() {
    let mut registry: Registry<u32> = Registry::new();
    let id = registry.register();
    registry.send(id, 5, 1).unwrap();
    registry.send(id, 6, 2).unwrap();
    let orphans: Vec<(u64, u32)> =
        registry.unregister(id).iter().map(|e| (e.reply_to, e.request)).collect();
    assert_eq!(orphans, vec![(5, 1), (6, 2)]);
    assert!(registry.unregister(id).is_empty());
}

#[test]
fn a_stale_handle_stays_stale_when_its_slot_is_used_again() {
    let mut registry: Registry<u32> = Registry::new();
    let first = registry.register();
    let other = registry.register();
    registry.unregister(first);
    let second = registry.register();
    assert_ne!(first, second);
    assert_ne!(other, second);
    assert!(registry.resolves(second));
    assert!(registry.resolves(other));
    assert!(!registry.resolves(first));
    assert_eq!(registry.send(first, 0, 9), Err(SendError::TargetGone));
    assert!(registry.drain(second).is_empty());
}

#[test]
fn many_rounds_of_reuse_never_revive_a_handle() {
    let mut registry: Registry<u32> = Registry::new();
    let mut stale = Vec::new();
    for _ in 0..50 {
        let id = registry.register();
        registry.unregister(id);
        stale.push(id);
    }
    let live = registry.register();
    for id in stale {
        assert_ne!(id, live);
        assert!(!registry.resolves(id));
    }
}

#[test]
fn the_error_has_a_text() {
    assert_eq!(SendError::TargetGone.message(), "target gone");
}
