use std::time::Duration;
use weaver_editor::transport::presence::PresenceTracker;

fn test_node_id(i: usize) -> String {
    format!("node{}", i)
}

#[test]
fn test_add_remove_collaborator() {
    let mut tracker = PresenceTracker::new();
    let node_id = test_node_id(0);

    tracker.add_collaborator(node_id.clone(), "did:plc:test".into(), "Alice".into());
    assert_eq!(tracker.len(), 1);
    assert!(tracker.contains(&node_id));

    let removed = tracker.remove_collaborator(&node_id);
    assert!(removed.is_some());
    assert_eq!(removed.unwrap().display_name, "Alice");
    assert!(tracker.is_empty());
}

#[test]
fn test_cursor_update() {
    let mut tracker = PresenceTracker::new();
    let node_id = test_node_id(1);

    tracker.add_collaborator(node_id.clone(), "did:plc:test".into(), "Bob".into());
    tracker.update_cursor(&node_id, 42, Some((40, 50)));

    let collab = tracker.get(&node_id).unwrap();
    let cursor = collab.cursor.as_ref().unwrap();
    assert_eq!(cursor.position, 42);
    assert_eq!(cursor.selection, Some((40, 50)));
}

#[test]
fn test_color_assignment() {
    let mut tracker = PresenceTracker::new();

    for i in 0..10 {
        let node_id = test_node_id(i);
        tracker.add_collaborator(node_id, format!("did:plc:test{}", i), format!("User{}", i));
    }

    // Each collaborator should have a colour
    for collab in tracker.collaborators() {
        assert!(collab.color != 0);
    }
}

#[test]
fn presence_colors_cycle_and_rejoin_replaces() {
    let mut tracker = PresenceTracker::new();
    for i in 0..9 {
        tracker.add_collaborator(test_node_id(i), "did".into(), "n".into());
    }
    let first = tracker.get(&test_node_id(0)).unwrap().color;
    let ninth = tracker.get(&test_node_id(8)).unwrap().color;
    assert_eq!(first, 0xFF6B6BFF);
    assert_eq!(ninth, first);
    assert_eq!(tracker.get(&test_node_id(1)).unwrap().color, 0x4ECDC4FF);
    // Rejoining replaces the entry and takes the next colour.
    tracker.add_collaborator(test_node_id(0), "did".into(), "again".into());
    assert_eq!(tracker.len(), 9);
    assert_eq!(tracker.get(&test_node_id(0)).unwrap().display_name, "again");
    assert_eq!(tracker.get(&test_node_id(0)).unwrap().color, 0x4ECDC4FF);
}

#[test]
fn presence_cursors_and_pruning() {
    let mut tracker = PresenceTracker::new();
    tracker.add_collaborator(test_node_id(0), "a".into(), "A".into());
    tracker.add_collaborator(test_node_id(1), "b".into(), "B".into());
    tracker.update_cursor(&test_node_id(1), 7, None);
    tracker.update_cursor(&"unknown".to_string(), 3, None);
    let cursors = tracker.cursors();
    assert_eq!(cursors.len(), 1);
    assert_eq!(cursors[0].0.display_name, "B");
    assert_eq!(cursors[0].1.position, 7);
    assert_eq!(cursors[0].1.color, tracker.get(&test_node_id(1)).unwrap().color);

    tracker.prune_stale_cursors(Duration::from_secs(3600));
    assert_eq!(tracker.cursors().len(), 1);
    let start = web_time::Instant::now();
    while start.elapsed() < Duration::from_millis(5) {}
    tracker.prune_stale_cursors(Duration::from_millis(1));
    assert!(tracker.cursors().is_empty());
    assert_eq!(tracker.len(), 2);
    assert!(tracker.remove_collaborator(&"unknown".to_string()).is_none());
}

#[test]
fn presence_clear_cursors_by_age() {
    let mut tracker = PresenceTracker::new();
    for i in 0..3 {
        tracker.add_collaborator(test_node_id(i), "d".into(), format!("U{}", i));
        tracker.update_cursor(&test_node_id(i), i, None);
    }
    let ages = vec![
        (test_node_id(0), 500u128),
        (test_node_id(1), 100u128),
        (test_node_id(0), 1u128),
        ("other".to_string(), 900u128),
    ];
    tracker.clear_cursors_older_than(&ages, 200);
    assert!(tracker.get(&test_node_id(0)).unwrap().cursor.is_none());
    assert!(tracker.get(&test_node_id(1)).unwrap().cursor.is_some());
    assert!(tracker.get(&test_node_id(2)).unwrap().cursor.is_some());
    assert_eq!(tracker.len(), 3);
    tracker.clear_cursors_older_than(&ages, 100);
    assert!(tracker.get(&test_node_id(1)).unwrap().cursor.is_some());
    tracker.clear_cursors_older_than(&ages, 99);
    assert!(tracker.get(&test_node_id(1)).unwrap().cursor.is_none());
    assert_eq!(tracker.cursors().len(), 1);
}
