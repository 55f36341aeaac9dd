use photosquid::linear_set::LinearSet;

#[test]
fn insert_adds_only_new_items() {
    let mut set = LinearSet::new();
    assert!(set.insert(3));
    assert!(set.insert(4));
    assert!(!set.insert(3));
    assert!(set.contains(&3));
    assert!(set.contains(&4));
    assert!(!set.contains(&5));
}

#[test]
fn remove_reports_whether_the_item_was_held() {
    let mut set = LinearSet::new();
    set.insert("a".to_string());
    set.insert("b".to_string());
    assert!(set.remove(&"a".to_string()));
    assert!(!set.contains(&"a".to_string()));
    assert!(!set.remove(&"a".to_string()));
    assert!(set.contains(&"b".to_string()));
}

#[test]
fn removed_item_can_be_inserted_again() {
    let mut set = LinearSet::new();
    assert!(set.insert(1u8));
    assert!(set.remove(&1u8));
    assert!(set.insert(1u8));
    assert!(set.contains(&1u8));
}

#[test]
fn empty_set_holds_nothing_whatever_the_equality() {
    // A float's `==` is not plain equality (NaN), yet an empty set holds nothing.
    let mut set: LinearSet<f32> = LinearSet::new();
    assert!(!set.contains(&f32::NAN));
    assert!(!set.contains(&1.0));
    assert!(set.insert(f32::NAN));
    assert!(!set.contains(&f32::NAN));
}
