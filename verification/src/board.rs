//! The board: the registry that owns the catalog, the declared relations and
//! the assignment, and guards what enters them.

use crate::catalog::{Entity, Resource};
use crate::error::Error;
use crate::laws::{
    lemma_add_entity_keeps_consistency, lemma_add_id_property_relation_keeps_consistency,
    lemma_add_id_relation_keeps_consistency, lemma_add_property_relation_keeps_consistency,
    lemma_add_resource_keeps_consistency, lemma_empty_is_consistent,
};
use crate::model::BoardView;
use crate::relation::{IDPropertyRelation, IDRelation, IDRelationKind, PropertyRelation};
use crate::string_map::StringMap;
use crate::string_set::StringSet;
use vstd::prelude::*;

verus! {

/// The registry of a placement problem.
///
/// `resources`, `entities` and the three relation maps are keyed by
/// identifier. `assignment` maps the identifier of an entity to the
/// identifier of the resource it is placed on.
pub struct Board {
    pub resources: StringMap<Resource>,
    pub entities: StringMap<Entity>,
    pub id_relations: StringMap<IDRelation>,
    pub property_relations: StringMap<PropertyRelation>,
    pub id_property_relations: StringMap<IDPropertyRelation>,
    pub assignment: StringMap<String>,
}

impl View for Board {
    type V = BoardView;

    open spec fn view(&self) -> BoardView {
        BoardView {
            resources: self.resources@.map_values(|r: Resource| r@),
            entities: self.entities@.map_values(|e: Entity| e@),
            id_relations: self.id_relations@.map_values(|rel: IDRelation| rel@),
            property_relations: self.property_relations@.map_values(|rel: PropertyRelation| rel@),
            id_property_relations: self.id_property_relations@.map_values(
                |rel: IDPropertyRelation| rel@,
            ),
            assignment: self.assignment@.map_values(|id: String| id@),
        }
    }
}

/// Entities and relations that wait to be merged into a board.
pub struct Pending {
    pub entities: StringMap<Entity>,
    pub id_relations: StringMap<IDRelation>,
    pub property_relations: StringMap<PropertyRelation>,
    pub id_property_relations: StringMap<IDPropertyRelation>,
}

/// Storing a value under a key and then taking views is the same as taking
/// views and then storing the value's view.
proof fn lemma_insert_then_view<V, W>(m: Map<Seq<char>, V>, f: spec_fn(V) -> W, k: Seq<char>, v: V)
    ensures
        m.insert(k, v).map_values(f) == m.map_values(f).insert(k, f(v)),
{
}

/// Values listed in key order cover the map: each listed value is stored
/// under some key, and each key's value is listed.
proof fn lemma_values_cover<V>(m: Map<Seq<char>, V>, order: Seq<Seq<char>>, all: Seq<V>)
    requires
        order.to_set() == m.dom(),
        all.len() == order.len(),
        forall|i: int| 0 <= i < all.len() ==> all[i] == m[#[trigger] order[i]],
    ensures
        forall|i: int| 0 <= i < all.len() ==> m.contains_value(#[trigger] all[i]),
        forall|k: Seq<char>| #[trigger] m.contains_key(k) ==> all.contains(m[k]),
{
    assert forall|i: int| 0 <= i < all.len() implies m.contains_value(#[trigger] all[i]) by {
        assert(m.dom().contains(order[i]) && m[order[i]] == all[i]);
    }
    assert forall|k: Seq<char>| #[trigger] m.contains_key(k) implies all.contains(m[k]) by {
        let i = order.index_of(k);
        assert(all[i] == m[k]);
    }
}

impl Board {
    /// A board that holds nothing.
    pub fn new() -> (board: Board)
        ensures
            board@ == BoardView::empty(),
            board@.consistent(),
    {
        let board = Board {
            resources: StringMap::new(),
            entities: StringMap::new(),
            id_relations: StringMap::new(),
            property_relations: StringMap::new(),
            id_property_relations: StringMap::new(),
            assignment: StringMap::new(),
        };
        proof {
            assert(board@.resources =~= Map::empty());
            assert(board@.entities =~= Map::empty());
            assert(board@.id_relations =~= Map::empty());
            assert(board@.property_relations =~= Map::empty());
            assert(board@.id_property_relations =~= Map::empty());
            assert(board@.assignment =~= Map::empty());
            lemma_empty_is_consistent();
        }
        board
    }

    /// Registers `resource` under its identifier. Returns `false`, and
    /// leaves the board as it was, when a resource with that identifier is
    /// registered already.
    pub fn add_resource(&mut self, resource: Resource) -> (ok: bool)
        ensures
            ok == old(self)@.admits_resource(resource@),
            final(self)@ == old(self)@.add_resource(resource@),
            old(self)@.consistent() ==> final(self)@.consistent(),
    {
        if self.resources.contains_key(&resource.id) {
            return false;
        }
        proof {
            if self@.consistent() {
                lemma_add_resource_keeps_consistency(self@, resource@);
            }
            lemma_insert_then_view(
                self.resources@,
                |r: Resource| r@,
                resource.id@,
                resource,
            );
        }
        self.resources.insert(resource.id.clone(), resource);
        true
    }

    /// Registers `entity` under its identifier and places it on the
    /// resource named `resource_id`, both or neither. Returns `false`, and
    /// leaves the board as it was, when no such resource is registered or
    /// when the entity's identifier is already assigned or registered.
    pub fn add_entity(&mut self, resource_id: String, entity: Entity) -> (ok: bool)
        ensures
            ok == old(self)@.admits_entity(resource_id@, entity@),
            final(self)@ == old(self)@.add_entity(resource_id@, entity@),
            ok ==> final(self)@.entities.contains_key(entity.id@)
                && final(self)@.assignment.contains_key(entity.id@)
                && final(self)@.assignment[entity.id@] == resource_id@,
            old(self)@.consistent() ==> final(self)@.consistent(),
    {
        if !self.resources.contains_key(&resource_id) {
            return false;
        }
        let entity_id = entity.id.clone();
        if self.assignment.contains_key(&entity_id) {
            return false;
        }
        if self.entities.contains_key(&entity_id) {
            return false;
        }
        proof {
            if self@.consistent() {
                lemma_add_entity_keeps_consistency(self@, resource_id@, entity@);
            }
            lemma_insert_then_view(self.entities@, |e: Entity| e@, entity.id@, entity);
            lemma_insert_then_view(
                self.assignment@,
                |id: String| id@,
                entity.id@,
                resource_id,
            );
        }
        self.entities.insert(entity_id.clone(), entity);
        self.assignment.insert(entity_id, resource_id);
        true
    }

    /// Declares `relation` under its identifier.
    ///
    /// Fails with `AlreadyExists` when an identifier relation is stored
    /// under that identifier. Otherwise fails with `NotFound` unless the
    /// catalog holds what the relation names: two entities for the `EE`
    /// kinds, an entity and a resource for the `ER` kinds. A failure leaves
    /// the board as it was.
    pub fn add_id_relation(&mut self, relation: IDRelation) -> (result: Result<(), Error>)
        ensures
            result == old(self)@.check_id_relation(relation@),
            final(self)@ == old(self)@.add_id_relation(relation@),
            old(self)@.consistent() ==> final(self)@.consistent(),
    {
        proof {
            if self@.consistent() {
                lemma_add_id_relation_keeps_consistency(self@, relation@);
            }
        }
        if self.id_relations.contains_key(&relation.id) {
            return Err(Error::AlreadyExists);
        }
        if relation.kind == IDRelationKind::EEAffinity
            || relation.kind == IDRelationKind::EEAntiAffinity {
            if !self.entities.contains_key(&relation.id1)
                || !self.entities.contains_key(&relation.id2) {
                return Err(Error::NotFound);
            }
        }
        if relation.kind == IDRelationKind::ERAffinity
            || relation.kind == IDRelationKind::ERAntiAffinity {
            if !self.entities.contains_key(&relation.id1) {
                return Err(Error::NotFound);
            }
            if !self.resources.contains_key(&relation.id2) {
                return Err(Error::NotFound);
            }
        }
        proof {
            lemma_insert_then_view(
                self.id_relations@,
                |rel: IDRelation| rel@,
                relation.id@,
                relation,
            );
        }
        self.id_relations.insert(relation.id.clone(), relation);
        Ok(())
    }

    /// Declares `relation` under its identifier.
    ///
    /// Fails with `AlreadyExists`, and leaves the board as it was, when a
    /// property relation is stored under that identifier. The properties
    /// that the relation names are not looked up: it applies to whichever
    /// entities and resources carry them when the board is checked.
    pub fn add_property_relation(&mut self, relation: PropertyRelation) -> (result: Result<
        (),
        Error,
    >)
        ensures
            result == old(self)@.check_property_relation(relation@),
            final(self)@ == old(self)@.add_property_relation(relation@),
            old(self)@.consistent() ==> final(self)@.consistent(),
    {
        proof {
            if self@.consistent() {
                lemma_add_property_relation_keeps_consistency(self@, relation@);
            }
        }
        if self.property_relations.contains_key(&relation.id) {
            return Err(Error::AlreadyExists);
        }
        proof {
            lemma_insert_then_view(
                self.property_relations@,
                |rel: PropertyRelation| rel@,
                relation.id@,
                relation,
            );
        }
        self.property_relations.insert(relation.id.clone(), relation);
        Ok(())
    }

    /// Declares `relation` under its identifier.
    ///
    /// Fails with `NotFound`, and leaves the board as it was, unless the
    /// entity that the relation names is registered. The relation's
    /// identifier is not checked for uniqueness: there is no `AlreadyExists`
    /// outcome, and a relation of this kind stored under the same identifier
    /// is replaced.
    pub fn add_id_property_relation(&mut self, relation: IDPropertyRelation) -> (result: Result<
        (),
        Error,
    >)
        ensures
            result == old(self)@.check_id_property_relation(relation@),
            final(self)@ == old(self)@.add_id_property_relation(relation@),
            old(self)@.consistent() ==> final(self)@.consistent(),
    {
        proof {
            if self@.consistent() {
                lemma_add_id_property_relation_keeps_consistency(self@, relation@);
            }
        }
        if !self.entities.contains_key(&relation.entity_id) {
            return Err(Error::NotFound);
        }
        proof {
            lemma_insert_then_view(
                self.id_property_relations@,
                |rel: IDPropertyRelation| rel@,
                relation.id@,
                relation,
            );
        }
        self.id_property_relations.insert(relation.id.clone(), relation);
        Ok(())
    }

    /// Whether one of `entities` breaks `relation` on this board.
    fn broken_by_any(&self, relation: &PropertyRelation, entities: &Vec<Entity>) -> (broken: bool)
        requires
            forall|j: int|
                0 <= j < entities@.len() && (#[trigger] entities@[j])@.properties.contains(
                    relation@.entity_property,
                ) ==> self@.placed(entities@[j]@),
        ensures
            broken == exists|j: int|
                0 <= j < entities@.len() && self@.breaks(relation@, (#[trigger] entities@[j])@),
    {
        let mut broken = false;
        let mut j: usize = 0;
        while j < entities.len()
            invariant
                j <= entities@.len(),
                forall|a: int|
                    0 <= a < entities@.len() && (#[trigger] entities@[a])@.properties.contains(
                        relation@.entity_property,
                    ) ==> self@.placed(entities@[a]@),
                broken == exists|a: int|
                    0 <= a < j && self@.breaks(relation@, (#[trigger] entities@[a])@),
            decreases entities@.len() - j,
        {
            let entity = &entities[j];
            if entity.properties.contains(&relation.entity_property) {
                let resource_id = self.assignment.get(&entity.id).unwrap();
                let resource = self.resources.get(resource_id).unwrap();
                if !resource.properties.contains(&relation.resource_property) {
                    broken = true;
                }
            }
            j += 1;
        }
        broken
    }

    /// The identifiers of the property relations that the current
    /// assignment violates.
    ///
    /// A property relation is violated when some registered entity carries
    /// its entity property while the resource that the entity is assigned to
    /// does not carry its resource property. The relation's kind is not
    /// consulted, and a relation that several entities break is reported
    /// once. Identifier relations and identifier-property relations are not
    /// evaluated.
    ///
    /// Every entity that a property relation applies to must be assigned to
    /// a registered resource, as it is on every consistent board.
    pub fn check_violation(&self) -> (violated: StringSet)
        requires
            self@.placements_resolve(),
        ensures
            violated@ == self@.violated_relations(),
    {
        let relations = self.property_relations.values();
        let entities = self.entities.values();
        proof {
            lemma_values_cover(
                self.property_relations@,
                self.property_relations.key_order(),
                relations@,
            );
            lemma_values_cover(self.entities@, self.entities.key_order(), entities@);
        }
        let mut violated = StringSet::new();
        let mut i: usize = 0;
        while i < relations.len()
            invariant
                i <= relations@.len(),
                self@.placements_resolve(),
                forall|a: int|
                    0 <= a < relations@.len() ==> self.property_relations@.contains_value(
                        #[trigger] relations@[a],
                    ),
                forall|k: Seq<char>| #[trigger]
                    self.property_relations@.contains_key(k) ==> relations@.contains(
                        self.property_relations@[k],
                    ),
                forall|b: int|
                    0 <= b < entities@.len() ==> self.entities@.contains_value(
                        #[trigger] entities@[b],
                    ),
                forall|k: Seq<char>| #[trigger]
                    self.entities@.contains_key(k) ==> entities@.contains(self.entities@[k]),
                forall|id: Seq<char>|
                    violated@.contains(id) <==> exists|a: int|
                        0 <= a < i && (#[trigger] relations@[a])@.id == id && self@.is_violated(
                            relations@[a]@,
                        ),
            decreases relations@.len() - i,
        {
            let relation = &relations[i];
            proof {
                self.lemma_scan_decides(relation, entities);
            }
            if self.broken_by_any(relation, entities) {
                violated.insert(relation.id.clone());
            }
            i += 1;
        }
        proof {
            assert forall|id: Seq<char>|
                violated@.contains(id) <==> self@.violated_relations().contains(id) by {
                if violated@.contains(id) {
                    let a = choose|a: int|
                        0 <= a < i && (#[trigger] relations@[a])@.id == id && self@.is_violated(
                            relations@[a]@,
                        );
                    let k = choose|k: Seq<char>|
                        self.property_relations@.contains_key(k) && self.property_relations@[k]
                            == relations@[a];
                    assert(self@.property_relations.contains_key(k));
                }
                if self@.violated_relations().contains(id) {
                    let k = choose|k: Seq<char>| #[trigger]
                        self@.property_relations.contains_key(k) && self@.property_relations[k].id
                            == id && self@.is_violated(self@.property_relations[k]);
                    let a = relations@.index_of(self.property_relations@[k]);
                    assert(relations@[a]@.id == id && self@.is_violated(relations@[a]@));
                }
            }
        }
        violated
    }

    /// Scanning the stored entities decides whether `relation` is violated,
    /// and the scan never meets an entity without a registered resource.
    proof fn lemma_scan_decides(&self, relation: &PropertyRelation, entities: &Vec<Entity>)
        requires
            self@.placements_resolve(),
            self.property_relations@.contains_value(*relation),
            forall|b: int|
                0 <= b < entities@.len() ==> self.entities@.contains_value(#[trigger] entities@[b]),
            forall|k: Seq<char>| #[trigger]
                self.entities@.contains_key(k) ==> entities@.contains(self.entities@[k]),
        ensures
            forall|j: int|
                0 <= j < entities@.len() && (#[trigger] entities@[j])@.properties.contains(
                    relation@.entity_property,
                ) ==> self@.placed(entities@[j]@),
            self@.is_violated(relation@) <==> exists|j: int|
                0 <= j < entities@.len() && self@.breaks(relation@, (#[trigger] entities@[j])@),
    {
        let r = choose|r: Seq<char>|
            self.property_relations@.contains_key(r) && self.property_relations@[r] == *relation;
        assert(self@.property_relations.contains_key(r));
        assert forall|j: int|
            0 <= j < entities@.len() && (#[trigger] entities@[j])@.properties.contains(
                relation@.entity_property,
            ) implies self@.placed(entities@[j]@) by {
            let k = choose|k: Seq<char>|
                self.entities@.contains_key(k) && self.entities@[k] == entities@[j];
            assert(self@.entities.contains_key(k));
        }
        if self@.is_violated(relation@) {
            let k = choose|k: Seq<char>| #[trigger]
                self@.entities.contains_key(k) && self@.breaks(relation@, self@.entities[k]);
            let j = entities@.index_of(self.entities@[k]);
            assert(self@.breaks(relation@, entities@[j]@));
        }
        if exists|j: int|
            0 <= j < entities@.len() && self@.breaks(relation@, (#[trigger] entities@[j])@) {
            let j = choose|j: int|
                0 <= j < entities@.len() && self@.breaks(relation@, (#[trigger] entities@[j])@);
            let k = choose|k: Seq<char>|
                self.entities@.contains_key(k) && self.entities@[k] == entities@[j];
            assert(self@.entities.contains_key(k));
        }
    }
}

} // verus!
