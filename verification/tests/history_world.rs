use photosquid::app::{add_duplicates, add_history_marker, redo, selected_existing, undo};
use photosquid::history::History;
use photosquid::ocean::Ocean;
use photosquid::selection::{try_select, SelectProbe, Selection, TrySelectResult};
use photosquid::squid::{SquidLimbRef, SquidRef};

#[test]
fn ocean_clone_keeps_objects_layers_and_references() {
    let mut ocean: Ocean<String> = Ocean::default();
    let a = ocean.insert("a".to_string());
    let b = ocean.insert("b".to_string());
    let mut copy = ocean.clone();
    assert_eq!(copy.get(a), Some(&"a".to_string()));
    assert_eq!(copy.get(b), Some(&"b".to_string()));
    assert_eq!(copy.get_squids_highest(), vec![b, a]);
    assert_eq!(copy.remaining_references(), ocean.remaining_references());
    // The copy hands out the same next reference, and is independent of the original.
    let c = copy.insert("c".to_string());
    assert_eq!(ocean.get(c), None);
    assert_eq!(ocean.insert("d".to_string()), c);
}

#[test]
fn undo_and_redo_move_the_world_through_its_markers() {
    let mut ocean: Ocean<u32> = Ocean::default();
    let mut history: History<Ocean<u32>> = History::new();
    let a = ocean.insert(1);
    add_history_marker(&mut history, &ocean);
    let b = ocean.insert(2);
    add_history_marker(&mut history, &ocean);

    undo(&mut history, &mut ocean);
    assert_eq!(ocean.get(a), Some(&1));
    assert_eq!(ocean.get(b), None);
    assert_eq!(ocean.get_squids_highest(), vec![a]);

    undo(&mut history, &mut ocean);
    assert!(ocean.get_squids_highest().is_empty());
    // At the oldest snapshot, undo changes nothing.
    undo(&mut history, &mut ocean);
    assert!(ocean.get_squids_highest().is_empty());

    redo(&mut history, &mut ocean);
    redo(&mut history, &mut ocean);
    assert_eq!(ocean.get(b), Some(&2));
    assert_eq!(ocean.get_squids_highest(), vec![b, a]);
    // At the newest snapshot, redo changes nothing.
    redo(&mut history, &mut ocean);
    assert_eq!(ocean.get_squids_highest(), vec![b, a]);
}

fn probe(squid: u64, over_handle: bool, hit: bool) -> SelectProbe {
    SelectProbe {
        squid: SquidRef(squid),
        over_handle,
        hit: if hit { Some(Selection::new(SquidRef(squid), None)) } else { None },
    }
}

#[test]
fn try_select_takes_the_first_object_hit() {
    let probes = [probe(1, false, false), probe(2, false, true), probe(3, false, true)];
    assert_eq!(try_select(&probes, &[]), TrySelectResult::New(1));
}

#[test]
fn try_select_keeps_the_selection_when_hitting_a_selected_object() {
    let probes = [probe(1, false, false), probe(2, false, true)];
    assert_eq!(try_select(&probes, &[Selection::new(SquidRef(2), None)]), TrySelectResult::Preserve);
}

#[test]
fn try_select_keeps_the_selection_over_a_handle_of_a_selected_object() {
    let probes = [probe(1, true, false), probe(2, false, true)];
    assert_eq!(try_select(&probes, &[Selection::new(SquidRef(1), None)]), TrySelectResult::Preserve);
    // A handle of an object that is not selected does not count.
    assert_eq!(try_select(&probes, &[]), TrySelectResult::New(1));
}

#[test]
fn try_select_drops_the_selection_when_nothing_is_hit() {
    let probes = [probe(1, false, false), probe(2, true, false)];
    assert_eq!(try_select(&probes, &[Selection::new(SquidRef(5), None)]), TrySelectResult::Discard);
    assert_eq!(try_select(&[], &[]), TrySelectResult::Discard);
}

#[test]
fn duplicating_copies_the_existing_whole_selections_and_selects_the_copies() {
    let mut ocean: Ocean<u32> = Ocean::default();
    let a = ocean.insert(1);
    let b = ocean.insert(2);
    let c = ocean.insert(3);
    ocean.remove(c);
    let mut selections = vec![
        Selection::new(b, None),
        Selection::new(c, None),
        Selection::new(a, Some(SquidLimbRef(0))),
        Selection::new(a, None),
    ];
    let sources = selected_existing(&ocean, &selections);
    assert_eq!(sources, vec![b, a]);
    let copies: Vec<u32> = sources.iter().map(|squid| ocean.get(*squid).unwrap() + 10).collect();
    let created = add_duplicates(&mut ocean, &mut selections, copies);
    assert_eq!(created.len(), 2);
    assert_eq!(ocean.get(created[0]), Some(&12));
    assert_eq!(ocean.get(created[1]), Some(&11));
    assert_eq!(ocean.get_squids_highest(), vec![created[1], created[0], b, a]);
    assert_eq!(selections, vec![Selection::new(created[0], None), Selection::new(created[1], None)]);
}
