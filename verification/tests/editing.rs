use photosquid::app::{delete_selected, initiation_for, insert, prune_selection, InitiationKind, SaveMethod, Transform};
use photosquid::ocean::Ocean;
use photosquid::options::tab::layers::Entry;
use photosquid::options::tab::Layers;
use photosquid::selection::Selection;
use photosquid::squid::{SquidLimbRef, SquidRef};

#[test]
fn delete_selected_removes_whole_selections_and_clears() {
    let mut ocean: Ocean<u32> = Ocean::default();
    let a = ocean.insert(1);
    let b = ocean.insert(2);
    let c = ocean.insert(3);
    // `b` is only selected through one of its parts, so it stays.
    let mut selections = vec![Selection::new(a, None), Selection::new(b, Some(SquidLimbRef(0))), Selection::new(c, None)];
    delete_selected(&mut ocean, &mut selections);
    assert!(selections.is_empty());
    assert_eq!(ocean.get(a), None);
    assert_eq!(ocean.get(b), Some(&2));
    assert_eq!(ocean.get(c), None);
    assert_eq!(ocean.get_squids_highest(), vec![b]);
}

#[test]
fn delete_selected_with_nothing_selected_changes_nothing() {
    let mut ocean: Ocean<u32> = Ocean::default();
    let a = ocean.insert(1);
    let mut selections: Vec<Selection> = Vec::new();
    delete_selected(&mut ocean, &mut selections);
    assert_eq!(ocean.get(a), Some(&1));
    assert_eq!(ocean.get_squids_highest(), vec![a]);
}

#[test]
fn prune_selection_drops_selections_of_missing_objects() {
    let mut ocean: Ocean<u32> = Ocean::default();
    let a = ocean.insert(1);
    let b = ocean.insert(2);
    ocean.remove(a);
    let mut selections = vec![Selection::new(a, None), Selection::new(b, None), Selection::new(SquidRef(77), None)];
    prune_selection(&ocean, &mut selections);
    assert_eq!(selections, vec![Selection::new(b, None)]);
}

#[test]
fn insert_prunes_then_adds_on_top() {
    let mut ocean: Ocean<u32> = Ocean::default();
    let a = ocean.insert(1);
    let mut selections = vec![Selection::new(SquidRef(500), None), Selection::new(a, None)];
    let b = insert(&mut ocean, &mut selections, 2);
    assert_eq!(selections, vec![Selection::new(a, None)]);
    assert_eq!(ocean.get(b), Some(&2));
    assert_eq!(ocean.get_squids_highest(), vec![b, a]);
}

#[test]
fn transforms_start_on_each_object_by_default() {
    let selections = vec![Selection::new(SquidRef(1), None)];
    assert_eq!(initiation_for(Transform::Grab, false, &selections), (Some(InitiationKind::Translate), false));
    assert_eq!(initiation_for(Transform::Rotate, false, &selections), (Some(InitiationKind::Rotate), false));
    assert_eq!(initiation_for(Transform::Scale, false, &[]), (Some(InitiationKind::Scale), false));
}

#[test]
fn collective_transforms_need_a_whole_selection() {
    let selections = vec![Selection::new(SquidRef(1), None)];
    assert_eq!(initiation_for(Transform::Grab, true, &selections), (Some(InitiationKind::Spread), false));
    assert_eq!(initiation_for(Transform::Rotate, true, &selections), (Some(InitiationKind::Revolve), false));
    assert_eq!(initiation_for(Transform::Scale, true, &selections), (Some(InitiationKind::Dilate), false));
    let parts_only = vec![Selection::new(SquidRef(1), Some(SquidLimbRef(2)))];
    assert_eq!(initiation_for(Transform::Grab, true, &parts_only), (None, false));
    assert_eq!(initiation_for(Transform::Scale, true, &[]), (None, false));
}

#[test]
fn saving_asks_for_a_file_only_when_needed() {
    assert!(!SaveMethod::Save.asks_for_file(true));
    assert!(SaveMethod::Save.asks_for_file(false));
    assert!(SaveMethod::SaveAs.asks_for_file(true));
    assert!(SaveMethod::SaveAs.asks_for_file(false));
}

#[test]
fn layers_panel_lists_each_layer_then_its_objects() {
    let mut ocean: Ocean<u32> = Ocean::default();
    let a = ocean.insert(1);
    let b = ocean.insert(2);
    let mut panel = Layers::new();
    assert!(panel.entries().is_empty());
    panel.update(ocean.get_layers());
    assert_eq!(panel.entries(), &[Entry::LayerName(0), Entry::Child(b), Entry::Child(a)]);
}

#[test]
fn layers_panel_click_selects_the_object_of_the_row() {
    let mut ocean: Ocean<u32> = Ocean::default();
    let a = ocean.insert(1);
    let b = ocean.insert(2);
    let mut panel = Layers::new();
    panel.update(ocean.get_layers());

    let mut selections = vec![Selection::new(a, None)];
    panel.click_row(1, false, &mut selections);
    assert_eq!(selections, vec![Selection::new(b, None)]);

    panel.click_row(2, true, &mut selections);
    assert_eq!(selections, vec![Selection::new(b, None), Selection::new(a, None)]);

    // The layer's name and rows past the end do nothing.
    panel.click_row(0, false, &mut selections);
    panel.click_row(9, false, &mut selections);
    assert_eq!(selections, vec![Selection::new(b, None), Selection::new(a, None)]);
}
