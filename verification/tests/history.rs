use photosquid::history::{History, MAX_HISTORY};

#[test]
fn undo_on_empty_history_gives_nothing() {
    let mut history: History<i32> = History::new();
    assert_eq!(history.undo(), None);
    assert_eq!(history.redo(), None);
}

#[test]
fn first_push_records_a_default_snapshot_to_undo_to() {
    let mut history: History<i32> = History::default();
    history.push(5);
    assert_eq!(history.undo(), Some(0));
    assert_eq!(history.undo(), None);
    assert_eq!(history.redo(), Some(5));
    assert_eq!(history.redo(), None);
}

#[test]
fn undo_then_redo_returns_to_the_same_snapshot() {
    let mut history: History<String> = History::new();
    history.push("a".to_string());
    history.push("b".to_string());
    history.push("c".to_string());
    assert_eq!(history.undo(), Some("b".to_string()));
    assert_eq!(history.undo(), Some("a".to_string()));
    assert_eq!(history.redo(), Some("b".to_string()));
    assert_eq!(history.redo(), Some("c".to_string()));
    assert_eq!(history.redo(), None);
}

#[test]
fn push_discards_the_redo_future() {
    let mut history: History<i32> = History::new();
    history.push(1);
    history.push(2);
    history.push(3);
    assert_eq!(history.undo(), Some(2));
    assert_eq!(history.undo(), Some(1));
    history.push(10);
    assert_eq!(history.redo(), None);
    assert_eq!(history.undo(), Some(1));
    assert_eq!(history.undo(), Some(0));
    assert_eq!(history.undo(), None);
}

#[test]
fn history_keeps_at_most_max_history_snapshots() {
    let mut history: History<usize> = History::new();
    for i in 1..=150 {
        history.push(i);
    }
    let mut undone = Vec::new();
    while let Some(value) = history.undo() {
        undone.push(value);
    }
    assert_eq!(undone.len(), MAX_HISTORY - 1);
    assert_eq!(undone[0], 149);
    assert_eq!(*undone.last().unwrap(), 51);
}

#[test]
fn undo_right_after_push_gives_back_the_previous_snapshot() {
    let mut history: History<u32> = History::new();
    history.push(5);
    history.push(6);
    history.push(7);
    assert_eq!(history.undo(), Some(6));
    history.push(9);
    assert_eq!(history.undo(), Some(6));
    assert_eq!(history.redo(), Some(9));
}

#[test]
fn history_position_stays_on_a_held_snapshot() {
    let mut history: History<u32> = History::new();
    assert_eq!(history.undo(), None);
    assert_eq!(history.redo(), None);
    for value in 0..(MAX_HISTORY as u32 + 5) {
        history.push(value);
    }
    let mut undone = 0;
    while history.undo().is_some() {
        undone += 1;
    }
    assert_eq!(undone, MAX_HISTORY - 1);
}
