use photosquid::selection::{selected_squids, selection_contains, Selection};
use photosquid::squid::{SquidLimbRef, SquidRef};

#[test]
fn selection_contains_finds_whole_and_part_selections() {
    let selections = vec![Selection::new(SquidRef(1), None), Selection::new(SquidRef(2), Some(SquidLimbRef(5)))];
    assert!(selection_contains(&selections, SquidRef(1)));
    assert!(selection_contains(&selections, SquidRef(2)));
    assert!(!selection_contains(&selections, SquidRef(3)));
    assert!(!selection_contains(&[], SquidRef(1)));
}

#[test]
fn selected_squids_leaves_out_part_selections() {
    let selections = vec![
        Selection::new(SquidRef(4), None),
        Selection::new(SquidRef(2), Some(SquidLimbRef(1))),
        Selection::new(SquidRef(9), None),
    ];
    assert_eq!(selected_squids(&selections), vec![SquidRef(4), SquidRef(9)]);
    assert_eq!(selected_squids(&[]), Vec::<SquidRef>::new());
}

#[test]
fn selection_new_keeps_its_fields() {
    let selection = Selection::new(SquidRef(3), Some(SquidLimbRef(4)));
    assert_eq!(selection.squid_id, SquidRef(3));
    assert_eq!(selection.limb_id, Some(SquidLimbRef(4)));
}
