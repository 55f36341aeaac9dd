use photosquid::ocean::{try_context_menu, Ocean};
use photosquid::squid::SquidRef;

#[test]
fn ocean_starts_with_one_empty_default_layer() {
    let ocean: Ocean<u32> = Ocean::default();
    let layers = ocean.get_layers();
    assert_eq!(layers.len(), 1);
    assert_eq!(layers[0].get_name(), "Default Layer");
    assert!(layers[0].squids.is_empty());
    assert!(ocean.get_squids_highest().is_empty());
    assert!(ocean.has_room());
}

#[test]
fn ocean_insert_stores_the_object_on_top_of_the_current_layer() {
    let mut ocean: Ocean<&str> = Ocean::default();
    let circle = ocean.insert("circle");
    let rect = ocean.insert("rect");
    assert_ne!(circle, rect);
    assert_eq!(ocean.get(circle), Some(&"circle"));
    assert_eq!(ocean.get(rect), Some(&"rect"));
    assert_eq!(ocean.get_layers()[0].squids, vec![rect, circle]);
    assert_eq!(ocean.get_squids_highest(), vec![rect, circle]);
    assert_eq!(ocean.get_squids_unordered(), vec![rect, circle]);
    assert_eq!(ocean.get_squids_lowest(), vec![circle, rect]);
}

#[test]
fn ocean_remove_forgets_the_object_and_its_mentions() {
    let mut ocean: Ocean<u32> = Ocean::default();
    let first = ocean.insert(1);
    let second = ocean.insert(2);
    let third = ocean.insert(3);
    ocean.remove(second);
    assert_eq!(ocean.get(second), None);
    assert_eq!(ocean.get(first), Some(&1));
    assert_eq!(ocean.get(third), Some(&3));
    assert_eq!(ocean.get_squids_highest(), vec![third, first]);
    // Removing it again, or removing a reference never handed out, changes nothing.
    ocean.remove(second);
    ocean.remove(SquidRef(999));
    assert_eq!(ocean.get_squids_highest(), vec![third, first]);
}

#[test]
fn ocean_references_are_never_handed_out_twice() {
    let mut ocean: Ocean<u32> = Ocean::default();
    let first = ocean.insert(1);
    ocean.remove(first);
    let second = ocean.insert(2);
    assert_ne!(first, second);
    assert_eq!(ocean.get(first), None);
    assert_eq!(ocean.get(second), Some(&2));
}

#[test]
fn ocean_remove_undoes_insert() {
    let mut ocean: Ocean<u32> = Ocean::default();
    let kept = ocean.insert(10);
    let before = ocean.get_squids_highest();
    let added = ocean.insert(20);
    ocean.remove(added);
    assert_eq!(ocean.get_squids_highest(), before);
    assert_eq!(ocean.get(kept), Some(&10));
    assert_eq!(ocean.get(added), None);
}

#[test]
fn ocean_get_mut_changes_the_object_in_place() {
    let mut ocean: Ocean<u32> = Ocean::default();
    let first = ocean.insert(1);
    let second = ocean.insert(2);
    if let Some(object) = ocean.get_mut(first) {
        *object = 100;
    }
    assert_eq!(ocean.get(first), Some(&100));
    assert_eq!(ocean.get(second), Some(&2));
    assert!(ocean.get_mut(SquidRef(999)).is_none());
    assert_eq!(ocean.get_squids_highest(), vec![second, first]);
}

#[test]
fn context_menu_comes_from_the_highest_object_offering_one() {
    assert_eq!(try_context_menu(&[false, true, true]), Some(1));
    assert_eq!(try_context_menu(&[true]), Some(0));
    assert_eq!(try_context_menu(&[false, false]), None);
    assert_eq!(try_context_menu(&[]), None);
}
