use placement::{
    Board, Entity, Error, IDPropertyRelation, IDRelation, IDRelationKind, Pending,
    PropertyRelation, PropertyRelationKind, Resource, StringMap,
};

fn text(s: &str) -> String {
    String::from(s)
}

fn resource(id: &str, properties: &[&str]) -> Resource {
    let mut r = Resource::new(text(id));
    for p in properties {
        r.add_property(text(p));
    }
    r
}

fn entity(id: &str, properties: &[&str]) -> Entity {
    let mut e = Entity::new(text(id));
    for p in properties {
        e.add_property(text(p));
    }
    e
}

fn property_relation(
    id: &str,
    kind: PropertyRelationKind,
    entity_property: &str,
    resource_property: &str,
) -> PropertyRelation {
    PropertyRelation {
        id: text(id),
        kind,
        entity_property: text(entity_property),
        resource_property: text(resource_property),
    }
}

fn id_relation(id: &str, kind: IDRelationKind, id1: &str, id2: &str) -> IDRelation {
    IDRelation { id: text(id), kind, id1: text(id1), id2: text(id2) }
}

/// Two nodes, `node1` tagged `red` and `node2` tagged `blue`.
fn two_node_board() -> Board {
    let mut b = Board::new();
    assert!(b.add_resource(resource("node1", &["red"])));
    assert!(b.add_resource(resource("node2", &["blue"])));
    b
}

#[test]
fn fabricclient_test() {
    assert!(true);
}

#[test]
fn board_test() {
    let mut r1 = Resource::new(String::from("node1"));
    r1.add_property(String::from("red"));
    let mut r2 = Resource::new(String::from("node2"));
    r2.add_property(String::from("blue"));

    let mut e1 = Entity::new(String::from("app1"));
    e1.add_property(String::from("red"));

    let mut b = Board::new();
    let ok = b.add_resource(r1);
    assert!(ok);
    let ok = b.add_resource(r2);
    assert!(ok);
    // violation. blue node has red app
    let ok = b.add_entity(String::from("node2"), e1);
    assert!(ok);

    let rel1 = PropertyRelation {
        id: String::from("color"),
        kind: placement::PropertyRelationKind::Affinity,
        entity_property: String::from("red"),
        resource_property: String::from("red"),
    };
    b.add_property_relation(rel1).expect("ok");

    let property_violation = b.check_violation();
    assert_eq!(property_violation.len(), 1);
    assert!(property_violation.contains(&String::from("color")));
}

#[test]
fn new_board_is_empty() {
    let b = Board::new();
    assert_eq!(b.resources.len(), 0);
    assert_eq!(b.entities.len(), 0);
    assert_eq!(b.id_relations.len(), 0);
    assert_eq!(b.property_relations.len(), 0);
    assert_eq!(b.id_property_relations.len(), 0);
    assert_eq!(b.assignment.len(), 0);
    assert_eq!(b.check_violation().len(), 0);
}

#[test]
fn pending_holds_what_waits_for_a_board() {
    let mut pending = Pending {
        entities: StringMap::new(),
        id_relations: StringMap::new(),
        property_relations: StringMap::new(),
        id_property_relations: StringMap::new(),
    };
    assert_eq!(pending.entities.insert(text("app1"), entity("app1", &["red"])).map(|e| e.id), None);
    let rel = property_relation("color", PropertyRelationKind::Affinity, "red", "red");
    assert!(pending.property_relations.insert(text("color"), rel).is_none());
    assert_eq!(pending.entities.len(), 1);
    assert_eq!(pending.property_relations.len(), 1);
    assert_eq!(pending.id_relations.len(), 0);
    assert_eq!(pending.id_property_relations.len(), 0);
}

#[test]
fn add_resource_twice_keeps_the_first_record() {
    let mut b = Board::new();
    assert!(b.add_resource(resource("node1", &["red"])));
    assert!(!b.add_resource(resource("node1", &["blue"])));
    assert_eq!(b.resources.len(), 1);
    let kept = b.resources.get(&text("node1")).expect("registered");
    assert_eq!(kept.id, "node1");
    assert!(kept.properties.contains(&text("red")));
    assert!(!kept.properties.contains(&text("blue")));
    assert_eq!(kept.properties.len(), 1);
}

#[test]
fn add_entity_registers_and_assigns_together() {
    let mut b = two_node_board();
    assert!(b.add_entity(text("node2"), entity("app1", &["red"])));
    assert!(b.entities.contains_key(&text("app1")));
    assert_eq!(b.entities.get(&text("app1")).expect("registered").id, "app1");
    assert_eq!(b.assignment.get(&text("app1")), Some(&text("node2")));
    assert_eq!(b.entities.len(), 1);
    assert_eq!(b.assignment.len(), 1);
}

#[test]
fn add_entity_needs_an_existing_resource() {
    let mut b = two_node_board();
    assert!(!b.add_entity(text("node3"), entity("app1", &[])));
    assert!(!b.entities.contains_key(&text("app1")));
    assert!(!b.assignment.contains_key(&text("app1")));
    assert_eq!(b.entities.len(), 0);
    assert_eq!(b.assignment.len(), 0);
}

#[test]
fn add_entity_refuses_a_registered_identifier() {
    let mut b = two_node_board();
    assert!(b.add_entity(text("node1"), entity("app1", &["red"])));
    assert!(!b.add_entity(text("node2"), entity("app1", &["blue"])));
    assert_eq!(b.assignment.get(&text("app1")), Some(&text("node1")));
    let kept = b.entities.get(&text("app1")).expect("registered");
    assert!(kept.properties.contains(&text("red")));
    assert!(!kept.properties.contains(&text("blue")));
    assert_eq!(b.entities.len(), 1);
}

#[test]
fn add_entity_refuses_an_assigned_identifier() {
    let mut b = two_node_board();
    assert_eq!(b.assignment.insert(text("app1"), text("node1")), None);
    assert!(!b.add_entity(text("node2"), entity("app1", &[])));
    assert!(!b.entities.contains_key(&text("app1")));
    assert_eq!(b.assignment.get(&text("app1")), Some(&text("node1")));
}

#[test]
fn id_relation_between_entities_needs_both() {
    let mut b = two_node_board();
    assert!(b.add_entity(text("node1"), entity("app1", &[])));

    let missing_second = id_relation("r1", IDRelationKind::EEAffinity, "app1", "app2");
    assert_eq!(b.add_id_relation(missing_second), Err(Error::NotFound));
    let missing_first = id_relation("r1", IDRelationKind::EEAntiAffinity, "app2", "app1");
    assert_eq!(b.add_id_relation(missing_first), Err(Error::NotFound));
    // A resource is no entity.
    let names_resource = id_relation("r1", IDRelationKind::EEAffinity, "app1", "node1");
    assert_eq!(b.add_id_relation(names_resource), Err(Error::NotFound));
    assert_eq!(b.id_relations.len(), 0);
    assert!(!b.id_relations.contains_key(&text("r1")));

    assert!(b.add_entity(text("node2"), entity("app2", &[])));
    let together = id_relation("r1", IDRelationKind::EEAffinity, "app1", "app2");
    assert_eq!(b.add_id_relation(together), Ok(()));
    let apart = id_relation("r2", IDRelationKind::EEAntiAffinity, "app2", "app1");
    assert_eq!(b.add_id_relation(apart), Ok(()));
    assert_eq!(b.id_relations.len(), 2);
    let stored = b.id_relations.get(&text("r1")).expect("stored");
    assert_eq!(stored.id1, "app1");
    assert_eq!(stored.id2, "app2");
    assert!(stored.kind == IDRelationKind::EEAffinity);
}

#[test]
fn id_relation_to_resource_needs_entity_and_resource() {
    let mut b = two_node_board();
    assert!(b.add_entity(text("node1"), entity("app1", &[])));

    let unknown_entity = id_relation("r1", IDRelationKind::ERAffinity, "app2", "node1");
    assert_eq!(b.add_id_relation(unknown_entity), Err(Error::NotFound));
    let unknown_resource = id_relation("r1", IDRelationKind::ERAntiAffinity, "app1", "node3");
    assert_eq!(b.add_id_relation(unknown_resource), Err(Error::NotFound));
    // An entity is no resource.
    let names_entity = id_relation("r1", IDRelationKind::ERAffinity, "app1", "app1");
    assert_eq!(b.add_id_relation(names_entity), Err(Error::NotFound));
    assert_eq!(b.id_relations.len(), 0);

    let pinned = id_relation("r1", IDRelationKind::ERAffinity, "app1", "node1");
    assert_eq!(b.add_id_relation(pinned), Ok(()));
    let banned = id_relation("r2", IDRelationKind::ERAntiAffinity, "app1", "node2");
    assert_eq!(b.add_id_relation(banned), Ok(()));
    assert_eq!(b.id_relations.len(), 2);
}

#[test]
fn id_relation_identifier_is_used_once() {
    let mut b = two_node_board();
    assert!(b.add_entity(text("node1"), entity("app1", &[])));
    let first = id_relation("r1", IDRelationKind::ERAffinity, "app1", "node1");
    assert_eq!(b.add_id_relation(first), Ok(()));

    let again = id_relation("r1", IDRelationKind::ERAntiAffinity, "app1", "node2");
    assert_eq!(b.add_id_relation(again), Err(Error::AlreadyExists));
    // A used identifier is reported before a missing subject.
    let again_unresolved = id_relation("r1", IDRelationKind::EEAffinity, "app8", "app9");
    assert_eq!(b.add_id_relation(again_unresolved), Err(Error::AlreadyExists));

    assert_eq!(b.id_relations.len(), 1);
    let stored = b.id_relations.get(&text("r1")).expect("stored");
    assert!(stored.kind == IDRelationKind::ERAffinity);
    assert_eq!(stored.id2, "node1");
}

#[test]
fn property_relation_identifier_is_used_once() {
    let mut b = Board::new();
    let first = property_relation("color", PropertyRelationKind::Affinity, "red", "red");
    assert_eq!(b.add_property_relation(first), Ok(()));
    let again = property_relation("color", PropertyRelationKind::AntiAffinity, "blue", "blue");
    assert_eq!(b.add_property_relation(again), Err(Error::AlreadyExists));
    assert_eq!(b.property_relations.len(), 1);
    let stored = b.property_relations.get(&text("color")).expect("stored");
    assert_eq!(stored.entity_property, "red");
    assert!(stored.kind == PropertyRelationKind::Affinity);
}

#[test]
fn property_relation_may_name_properties_nobody_carries() {
    let mut b = two_node_board();
    assert!(b.add_entity(text("node1"), entity("app1", &["red"])));
    let rel = property_relation("shape", PropertyRelationKind::Affinity, "round", "square");
    assert_eq!(b.add_property_relation(rel), Ok(()));
    assert!(b.property_relations.contains_key(&text("shape")));
    assert_eq!(b.check_violation().len(), 0);
}

#[test]
fn relation_kinds_keep_their_own_identifiers() {
    let mut b = two_node_board();
    assert!(b.add_entity(text("node1"), entity("app1", &[])));
    let by_id = id_relation("r", IDRelationKind::ERAffinity, "app1", "node1");
    assert_eq!(b.add_id_relation(by_id), Ok(()));
    let by_property = property_relation("r", PropertyRelationKind::Affinity, "red", "red");
    assert_eq!(b.add_property_relation(by_property), Ok(()));
    let by_both = IDPropertyRelation {
        id: text("r"),
        entity_id: text("app1"),
        kind: PropertyRelationKind::Affinity,
        resource_property: text("red"),
    };
    assert_eq!(b.add_id_property_relation(by_both), Ok(()));
    assert_eq!(b.id_relations.len(), 1);
    assert_eq!(b.property_relations.len(), 1);
    assert_eq!(b.id_property_relations.len(), 1);
}

#[test]
fn id_property_relation_needs_its_entity() {
    let mut b = two_node_board();
    let early = IDPropertyRelation {
        id: text("pin"),
        entity_id: text("app1"),
        kind: PropertyRelationKind::Affinity,
        resource_property: text("red"),
    };
    assert_eq!(b.add_id_property_relation(early), Err(Error::NotFound));
    assert_eq!(b.id_property_relations.len(), 0);
    assert!(!b.id_property_relations.contains_key(&text("pin")));

    assert!(b.add_entity(text("node1"), entity("app1", &[])));
    let late = IDPropertyRelation {
        id: text("pin"),
        entity_id: text("app1"),
        kind: PropertyRelationKind::AntiAffinity,
        resource_property: text("red"),
    };
    assert_eq!(b.add_id_property_relation(late), Ok(()));
    let stored = b.id_property_relations.get(&text("pin")).expect("stored");
    assert_eq!(stored.entity_id, "app1");
    assert_eq!(stored.resource_property, "red");
    assert!(stored.kind == PropertyRelationKind::AntiAffinity);
}

#[test]
fn id_property_relation_identifier_is_not_checked() {
    let mut b = two_node_board();
    assert!(b.add_entity(text("node1"), entity("app1", &[])));
    assert!(b.add_entity(text("node2"), entity("app2", &[])));
    let first = IDPropertyRelation {
        id: text("pin"),
        entity_id: text("app1"),
        kind: PropertyRelationKind::Affinity,
        resource_property: text("red"),
    };
    assert_eq!(b.add_id_property_relation(first), Ok(()));
    let second = IDPropertyRelation {
        id: text("pin"),
        entity_id: text("app2"),
        kind: PropertyRelationKind::AntiAffinity,
        resource_property: text("blue"),
    };
    assert_eq!(b.add_id_property_relation(second), Ok(()));
    assert_eq!(b.id_property_relations.len(), 1);
    let stored = b.id_property_relations.get(&text("pin")).expect("stored");
    assert_eq!(stored.entity_id, "app2");
    assert_eq!(stored.resource_property, "blue");

    // The entity is still looked up first.
    let dangling = IDPropertyRelation {
        id: text("pin"),
        entity_id: text("app3"),
        kind: PropertyRelationKind::Affinity,
        resource_property: text("red"),
    };
    assert_eq!(b.add_id_property_relation(dangling), Err(Error::NotFound));
    let stored = b.id_property_relations.get(&text("pin")).expect("stored");
    assert_eq!(stored.entity_id, "app2");
}

#[test]
fn red_app_on_blue_node_violates_color() {
    let mut b = two_node_board();
    assert!(b.add_entity(text("node2"), entity("app1", &["red"])));
    let rel = property_relation("color", PropertyRelationKind::Affinity, "red", "red");
    assert_eq!(b.add_property_relation(rel), Ok(()));

    let violated = b.check_violation();
    assert_eq!(violated.len(), 1);
    assert!(violated.contains(&text("color")));
    assert_eq!(violated.items(), &vec![text("color")]);
}

#[test]
fn red_app_on_red_node_violates_nothing() {
    let mut b = two_node_board();
    assert!(b.add_entity(text("node1"), entity("app1", &["red"])));
    let rel = property_relation("color", PropertyRelationKind::Affinity, "red", "red");
    assert_eq!(b.add_property_relation(rel), Ok(()));

    let violated = b.check_violation();
    assert_eq!(violated.len(), 0);
    assert!(!violated.contains(&text("color")));
    assert!(violated.items().is_empty());
}

#[test]
fn checking_twice_reports_the_same() {
    let mut b = two_node_board();
    assert!(b.add_entity(text("node2"), entity("app1", &["red"])));
    assert!(b.add_entity(text("node1"), entity("app2", &["blue"])));
    assert!(b.add_entity(text("node1"), entity("app3", &["red"])));
    for (id, p) in [("reds", "red"), ("blues", "blue"), ("greens", "green")] {
        let rel = property_relation(id, PropertyRelationKind::Affinity, p, p);
        assert_eq!(b.add_property_relation(rel), Ok(()));
    }

    let first = b.check_violation();
    let second = b.check_violation();
    assert_eq!(first.len(), 2);
    assert_eq!(second.len(), first.len());
    for id in ["reds", "blues", "greens", "color"] {
        assert_eq!(first.contains(&text(id)), second.contains(&text(id)));
    }
    assert!(first.contains(&text("reds")));
    assert!(first.contains(&text("blues")));
    assert!(!first.contains(&text("greens")));
}

#[test]
fn entity_without_the_property_is_never_blamed() {
    let mut b = two_node_board();
    // Neither entity carries `red`; one sits on a node without `red`.
    assert!(b.add_entity(text("node2"), entity("app1", &["blue"])));
    assert!(b.add_entity(text("node1"), entity("app2", &[])));
    let rel = property_relation("color", PropertyRelationKind::Affinity, "red", "red");
    assert_eq!(b.add_property_relation(rel), Ok(()));
    assert_eq!(b.check_violation().len(), 0);

    // A well placed carrier does not change that.
    assert!(b.add_entity(text("node1"), entity("app3", &["red"])));
    assert_eq!(b.check_violation().len(), 0);

    // Only a badly placed carrier does.
    assert!(b.add_entity(text("node2"), entity("app4", &["red"])));
    let violated = b.check_violation();
    assert_eq!(violated.len(), 1);
    assert!(violated.contains(&text("color")));
}

#[test]
fn relation_broken_by_two_entities_is_reported_once() {
    let mut b = two_node_board();
    assert!(b.add_entity(text("node2"), entity("app1", &["red"])));
    assert!(b.add_entity(text("node2"), entity("app2", &["red"])));
    let rel = property_relation("color", PropertyRelationKind::Affinity, "red", "red");
    assert_eq!(b.add_property_relation(rel), Ok(()));

    let violated = b.check_violation();
    assert_eq!(violated.len(), 1);
    assert!(violated.contains(&text("color")));
}

#[test]
fn only_the_broken_relations_are_reported() {
    let mut b = two_node_board();
    assert!(b.add_entity(text("node2"), entity("app1", &["red", "fast"])));
    let color = property_relation("color", PropertyRelationKind::Affinity, "red", "red");
    assert_eq!(b.add_property_relation(color), Ok(()));
    // `fast` entities want a `blue` node, and `app1` sits on one.
    let speed = property_relation("speed", PropertyRelationKind::Affinity, "fast", "blue");
    assert_eq!(b.add_property_relation(speed), Ok(()));

    let violated = b.check_violation();
    assert_eq!(violated.len(), 1);
    assert!(violated.contains(&text("color")));
    assert!(!violated.contains(&text("speed")));
}

#[test]
fn check_does_not_consult_the_kind() {
    let mut b = two_node_board();
    assert!(b.add_entity(text("node2"), entity("app1", &["red"])));
    let lacks = property_relation("lacks", PropertyRelationKind::AntiAffinity, "red", "red");
    assert_eq!(b.add_property_relation(lacks), Ok(()));
    let carries = property_relation("carries", PropertyRelationKind::AntiAffinity, "red", "blue");
    assert_eq!(b.add_property_relation(carries), Ok(()));

    let violated = b.check_violation();
    assert_eq!(violated.len(), 1);
    assert!(violated.contains(&text("lacks")));
    assert!(!violated.contains(&text("carries")));
}

#[test]
fn identifier_relations_are_not_evaluated() {
    let mut b = two_node_board();
    assert!(b.add_entity(text("node2"), entity("app1", &["red"])));
    let pinned = id_relation("pinned", IDRelationKind::ERAffinity, "app1", "node1");
    assert_eq!(b.add_id_relation(pinned), Ok(()));
    let wants_red = IDPropertyRelation {
        id: text("wants-red"),
        entity_id: text("app1"),
        kind: PropertyRelationKind::Affinity,
        resource_property: text("red"),
    };
    assert_eq!(b.add_id_property_relation(wants_red), Ok(()));
    assert_eq!(b.check_violation().len(), 0);
}

#[test]
fn moving_the_entity_clears_the_violation() {
    let mut b = two_node_board();
    assert!(b.add_entity(text("node2"), entity("app1", &["red"])));
    let rel = property_relation("color", PropertyRelationKind::Affinity, "red", "red");
    assert_eq!(b.add_property_relation(rel), Ok(()));
    assert_eq!(b.check_violation().len(), 1);

    assert_eq!(b.assignment.insert(text("app1"), text("node1")), Some(text("node2")));
    assert_eq!(b.assignment.len(), 1);
    assert_eq!(b.check_violation().len(), 0);
}

#[test]
fn failed_insertions_leave_a_usable_board() {
    let mut b = two_node_board();
    assert!(!b.add_resource(resource("node2", &[])));
    assert!(!b.add_entity(text("nowhere"), entity("app1", &["red"])));
    let dangling = id_relation("r1", IDRelationKind::EEAffinity, "app1", "app2");
    assert_eq!(b.add_id_relation(dangling), Err(Error::NotFound));
    assert!(b.add_entity(text("node2"), entity("app1", &["red"])));
    let rel = property_relation("color", PropertyRelationKind::Affinity, "red", "red");
    assert_eq!(b.add_property_relation(rel), Ok(()));

    assert_eq!(b.resources.len(), 2);
    assert_eq!(b.entities.len(), 1);
    assert_eq!(b.assignment.len(), 1);
    assert_eq!(b.id_relations.len(), 0);
    let violated = b.check_violation();
    assert_eq!(violated.len(), 1);
    assert!(violated.contains(&text("color")));
}
