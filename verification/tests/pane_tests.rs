use mochi::split_pane::{PaneManager, PaneNode, SplitDirection, HALF_RATIO};

#[test]
fn test_single_pane() {
    let mgr = PaneManager::new(0);
    assert_eq!(mgr.pane_count(), 1);
    assert_eq!(mgr.active_pane(), 0);
    assert_eq!(mgr.pane_ids(), vec![0]);
}

#[test]
fn test_split_horizontal() {
    let mut mgr = PaneManager::new(0);
    let new_id = mgr.split_active(SplitDirection::Horizontal);
    assert_eq!(new_id, Some(1));
    assert_eq!(mgr.pane_count(), 2);
    assert_eq!(mgr.pane_ids(), vec![0, 1]);
}

#[test]
fn test_split_vertical() {
    let mut mgr = PaneManager::new(0);
    let new_id = mgr.split_active(SplitDirection::Vertical);
    assert_eq!(new_id, Some(1));
    assert_eq!(mgr.pane_count(), 2);
    assert_eq!(mgr.pane_ids(), vec![0, 1]);
}

#[test]
fn test_nested_splits() {
    let mut mgr = PaneManager::new(0);
    mgr.split_active(SplitDirection::Horizontal);
    assert_eq!(mgr.pane_count(), 2);

    mgr.split_active(SplitDirection::Vertical);
    assert_eq!(mgr.pane_count(), 3);
    assert_eq!(mgr.pane_ids(), vec![0, 2, 1]);
}

#[test]
fn test_remove_pane() {
    let mut mgr = PaneManager::new(0);
    mgr.split_active(SplitDirection::Horizontal);
    assert_eq!(mgr.pane_count(), 2);

    assert!(mgr.remove_active());
    assert_eq!(mgr.pane_count(), 1);
    assert_eq!(mgr.pane_ids(), vec![1]);
    assert_eq!(mgr.active_pane(), 1);
}

#[test]
fn test_cannot_remove_last_pane() {
    let mut mgr = PaneManager::new(0);
    assert!(!mgr.remove_active());
    assert_eq!(mgr.pane_count(), 1);
}

#[test]
fn test_remove_from_nested() {
    let mut mgr = PaneManager::new(0);
    mgr.split_active(SplitDirection::Horizontal);
    mgr.split_active(SplitDirection::Vertical);
    assert_eq!(mgr.pane_count(), 3);

    mgr.remove_active();
    assert_eq!(mgr.pane_count(), 2);
    let ids = mgr.pane_ids();
    assert!(ids.contains(&1));
    assert!(ids.contains(&2));
}

#[test]
fn test_pane_manager_next_id() {
    let mut mgr = PaneManager::new(0);
    assert_eq!(mgr.next_id(), 1);
    assert_eq!(mgr.next_id(), 2);
    assert_eq!(mgr.next_id(), 3);
}

#[test]
fn test_split_nonexistent_pane() {
    let mut mgr = PaneManager::new(0);
    mgr.set_active_pane(999);
    let result = mgr.split_active(SplitDirection::Horizontal);
    assert!(result.is_none());
}

#[test]
fn pane_split_failure_keeps_next_id() {
    let mut mgr = PaneManager::new(5);
    mgr.set_active_pane(42);
    assert_eq!(mgr.split_active(SplitDirection::Vertical), None);
    mgr.set_active_pane(5);
    assert_eq!(mgr.split_active(SplitDirection::Vertical), Some(6));
    assert_eq!(mgr.pane_ids(), vec![5, 6]);
}

#[test]
fn pane_ids_stay_unique_after_splits_and_removals() {
    let mut mgr = PaneManager::new(0);
    mgr.split_active(SplitDirection::Horizontal);
    mgr.split_active(SplitDirection::Vertical);
    mgr.set_active_pane(1);
    mgr.split_active(SplitDirection::Vertical);
    assert_eq!(mgr.pane_ids(), vec![0, 2, 1, 3]);
    mgr.set_active_pane(2);
    assert!(mgr.remove_active());
    assert_eq!(mgr.pane_ids(), vec![0, 1, 3]);
    assert_eq!(mgr.active_pane(), 0);
    assert_eq!(mgr.split_active(SplitDirection::Horizontal), Some(4));
    assert_eq!(mgr.pane_ids(), vec![0, 4, 1, 3]);
}

#[test]
fn pane_split_is_even_and_second() {
    let mut node = PaneNode::leaf(7);
    assert!(node.split_pane(7, 8, SplitDirection::Horizontal));
    match &node {
        PaneNode::Split { direction, ratio, first, second } => {
            assert_eq!(*direction, SplitDirection::Horizontal);
            assert_eq!(*ratio, HALF_RATIO);
            assert_eq!(f64::from_bits(*ratio), 0.5);
            assert_eq!(first.pane_id(), Some(7));
            assert_eq!(second.pane_id(), Some(8));
        }
        PaneNode::Leaf { .. } => panic!("expected a split"),
    }
    assert!(!node.is_leaf());
    assert_eq!(node.pane_id(), None);
}

#[test]
fn pane_remove_missing_or_root_leaf() {
    let mut leaf = PaneNode::leaf(1);
    assert!(!leaf.remove_pane(1));
    assert_eq!(leaf.pane_ids(), vec![1]);

    let mut node = PaneNode::leaf(1);
    node.split_pane(1, 2, SplitDirection::Vertical);
    assert!(!node.remove_pane(9));
    assert_eq!(node.pane_ids(), vec![1, 2]);
    assert!(node.remove_pane(2));
    assert!(node.is_leaf());
    assert_eq!(node.pane_id(), Some(1));
}

#[test]
fn pane_root_mut_edits_tree() {
    let mut mgr = PaneManager::new(0);
    mgr.root_mut().split_pane(0, 10, SplitDirection::Vertical);
    assert_eq!(mgr.pane_ids(), vec![0, 10]);
    assert_eq!(mgr.root().pane_count(), 2);
}
