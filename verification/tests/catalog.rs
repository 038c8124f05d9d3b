use placement::{Entity, Resource};

#[test]
fn new_resource_is_bare() {
    let r = Resource::new(String::from("node1"));
    assert_eq!(r.id, "node1");
    assert_eq!(r.properties.len(), 0);
    assert_eq!(r.capacities.len(), 0);
}

#[test]
fn new_entity_is_bare() {
    let e = Entity::new(String::from("app1"));
    assert_eq!(e.id, "app1");
    assert_eq!(e.properties.len(), 0);
    assert_eq!(e.metrics.len(), 0);
    assert_eq!(e.move_cost, 0);
}

#[test]
fn resource_collects_properties() {
    let mut r = Resource::new(String::from("node1"));
    r.add_property(String::from("red"));
    r.add_property(String::from("ssd"));
    assert_eq!(r.id, "node1");
    assert_eq!(r.properties.len(), 2);
    assert!(r.properties.contains(&String::from("red")));
    assert!(r.properties.contains(&String::from("ssd")));
    assert!(!r.properties.contains(&String::from("blue")));
    assert_eq!(r.capacities.len(), 0);
}

#[test]
fn entity_collects_properties() {
    let mut e = Entity::new(String::from("app1"));
    e.add_property(String::from("red"));
    assert_eq!(e.properties.len(), 1);
    assert!(e.properties.contains(&String::from("red")));
    assert!(!e.properties.contains(&String::from("")));
    assert_eq!(e.metrics.len(), 0);
    assert_eq!(e.move_cost, 0);
}

#[test]
fn capacities_and_metrics_are_plain_fields() {
    let mut r = Resource::new(String::from("node1"));
    assert_eq!(r.capacities.insert(String::from("cpu"), 8), None);
    assert_eq!(r.capacities.get(&String::from("cpu")), Some(&8));

    let mut e = Entity::new(String::from("app1"));
    assert_eq!(e.metrics.insert(String::from("cpu"), 2), None);
    e.move_cost = 5;
    assert_eq!(e.metrics.get(&String::from("cpu")), Some(&2));
    assert_eq!(e.move_cost, 5);
}
