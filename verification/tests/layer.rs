use photosquid::layer::Layer;
use photosquid::squid::SquidRef;

#[test]
fn new_layer_is_empty() {
    let layer = Layer::new("Background".to_string());
    assert_eq!(layer.get_name(), "Background");
    assert!(layer.get_highest().is_empty());
    assert!(layer.get_lowest().is_empty());
}

#[test]
fn default_layer_name() {
    let layer = Layer::default();
    assert_eq!(layer.get_name(), "Default Layer");
    assert!(layer.squids.is_empty());
}

#[test]
fn added_objects_go_on_top() {
    let mut layer = Layer::default();
    layer.add(SquidRef(1));
    layer.add(SquidRef(2));
    layer.add(SquidRef(3));
    assert_eq!(layer.get_highest(), vec![SquidRef(3), SquidRef(2), SquidRef(1)]);
    assert_eq!(layer.get_lowest(), vec![SquidRef(1), SquidRef(2), SquidRef(3)]);
}

#[test]
fn remove_mention_removes_every_mention() {
    let mut layer = Layer::new("L".to_string());
    layer.add(SquidRef(1));
    layer.add(SquidRef(2));
    layer.add(SquidRef(1));
    layer.add(SquidRef(3));
    layer.remove_mention(SquidRef(1));
    assert_eq!(layer.get_highest(), vec![SquidRef(3), SquidRef(2)]);
    layer.remove_mention(SquidRef(1));
    assert_eq!(layer.get_highest(), vec![SquidRef(3), SquidRef(2)]);
}

#[test]
fn remove_mention_undoes_add() {
    let mut layer = Layer::new("L".to_string());
    layer.add(SquidRef(7));
    layer.add(SquidRef(8));
    let before = layer.get_highest();
    layer.add(SquidRef(9));
    layer.remove_mention(SquidRef(9));
    assert_eq!(layer.get_highest(), before);
}
