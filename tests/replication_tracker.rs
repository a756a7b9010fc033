use tokki::offset::Offset;
use tokki::replication::Replication;

#[test]
fn wait_resolves_when_quorum_reached() {
    let mut tracker: Replication<&str> = Replication::new(2);
    tracker.register_wait(Offset(0), "w0");
    tracker.register_wait(Offset(1), "w1");
    let woken = tracker.update_follower_max_offset("http://f1".to_string(), Some(Offset(1)));
    assert!(woken.is_empty());
    let woken = tracker.update_follower_max_offset("http://f2".to_string(), Some(Offset(0)));
    assert_eq!(woken, vec!["w0"]);
    let woken = tracker.update_follower_max_offset("http://f2".to_string(), Some(Offset(1)));
    assert_eq!(woken, vec!["w1"]);
    let woken = tracker.update_follower_max_offset("http://f2".to_string(), Some(Offset(5)));
    assert!(woken.is_empty());
}

#[test]
fn one_follower_reporting_twice_counts_once() {
    let mut tracker: Replication<u32> = Replication::new(2);
    tracker.register_wait(Offset(3), 7);
    assert!(tracker.update_follower_max_offset("a".to_string(), Some(Offset(3))).is_empty());
    assert!(tracker.update_follower_max_offset("a".to_string(), Some(Offset(9))).is_empty());
    assert_eq!(tracker.update_follower_max_offset("b".to_string(), Some(Offset(4))), vec![7]);
}

#[test]
fn smallest_targets_wake_first_and_larger_wait() {
    let mut tracker: Replication<u32> = Replication::new(1);
    tracker.register_wait(Offset(5), 5);
    tracker.register_wait(Offset(1), 1);
    tracker.register_wait(Offset(3), 3);
    tracker.register_wait(Offset(3), 33);
    let woken = tracker.update_follower_max_offset("a".to_string(), Some(Offset(3)));
    assert_eq!(woken, vec![1, 3, 33]);
    let woken = tracker.update_follower_max_offset("a".to_string(), Some(Offset(4)));
    assert!(woken.is_empty());
    let woken = tracker.update_follower_max_offset("b".to_string(), Some(Offset(5)));
    assert_eq!(woken, vec![5]);
}

#[test]
fn report_without_offset_changes_nothing() {
    let mut tracker: Replication<u32> = Replication::new(0);
    tracker.register_wait(Offset(0), 1);
    assert!(tracker.update_follower_max_offset("a".to_string(), None).is_empty());
    assert_eq!(tracker.update_follower_max_offset("a".to_string(), Some(Offset(0))), vec![1]);
}

#[test]
fn zero_required_replicas_wakes_every_wait() {
    let mut tracker: Replication<u32> = Replication::new(0);
    tracker.register_wait(Offset(100), 1);
    tracker.register_wait(Offset(200), 2);
    assert_eq!(tracker.required_replicas(), 0);
    let woken = tracker.update_follower_max_offset("a".to_string(), Some(Offset(0)));
    assert_eq!(woken, vec![1, 2]);
}

#[test]
fn woken_request_never_woken_again() {
    let mut tracker: Replication<u32> = Replication::new(1);
    tracker.register_wait(Offset(0), 1);
    assert_eq!(tracker.update_follower_max_offset("a".to_string(), Some(Offset(0))), vec![1]);
    assert!(tracker.update_follower_max_offset("b".to_string(), Some(Offset(0))).is_empty());
    assert!(tracker.update_follower_max_offset("a".to_string(), Some(Offset(1))).is_empty());
}
