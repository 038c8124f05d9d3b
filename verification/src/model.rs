//! The mathematical model of a board: its state as maps and sets, what each
//! operation makes of that state, and which states are consistent.

use crate::catalog::{EntityView, ResourceView};
use crate::error::Error;
use crate::relation::{IDPropertyRelationView, IDRelationView, PropertyRelationView};
use vstd::prelude::*;

verus! {

/// The state of a board as plain mathematical values.
///
/// Every map is keyed by identifier. `assignment` maps the identifier of an
/// entity to the identifier of the resource it is placed on.
pub struct BoardView {
    pub resources: Map<Seq<char>, ResourceView>,
    pub entities: Map<Seq<char>, EntityView>,
    pub id_relations: Map<Seq<char>, IDRelationView>,
    pub property_relations: Map<Seq<char>, PropertyRelationView>,
    pub id_property_relations: Map<Seq<char>, IDPropertyRelationView>,
    pub assignment: Map<Seq<char>, Seq<char>>,
}

impl BoardView {
    /// The board that holds nothing.
    pub open spec fn empty() -> BoardView {
        BoardView {
            resources: Map::empty(),
            entities: Map::empty(),
            id_relations: Map::empty(),
            property_relations: Map::empty(),
            id_property_relations: Map::empty(),
            assignment: Map::empty(),
        }
    }

    /// Whether the board takes the resource `r`: its identifier must be new
    /// among the resources.
    pub open spec fn admits_resource(self, r: ResourceView) -> bool {
        !self.resources.contains_key(r.id)
    }

    /// The board after it was offered the resource `r`: `r` is stored under
    /// its identifier if the board takes it, and nothing changes otherwise.
    pub open spec fn add_resource(self, r: ResourceView) -> BoardView {
        if self.admits_resource(r) {
            BoardView { resources: self.resources.insert(r.id, r), ..self }
        } else {
            self
        }
    }

    /// Whether the board takes the entity `e` for placement on the resource
    /// named `resource_id`: the resource must exist, and the entity's
    /// identifier must be new both to the assignment and among the entities.
    pub open spec fn admits_entity(self, resource_id: Seq<char>, e: EntityView) -> bool {
        &&& self.resources.contains_key(resource_id)
        &&& !self.assignment.contains_key(e.id)
        &&& !self.entities.contains_key(e.id)
    }

    /// The board after it was offered the entity `e` for placement on the
    /// resource named `resource_id`: if the board takes it, `e` is stored
    /// under its identifier and assigned to that resource in one step, and
    /// nothing changes otherwise.
    pub open spec fn add_entity(self, resource_id: Seq<char>, e: EntityView) -> BoardView {
        if self.admits_entity(resource_id, e) {
            BoardView {
                entities: self.entities.insert(e.id, e),
                assignment: self.assignment.insert(e.id, resource_id),
                ..self
            }
        } else {
            self
        }
    }

    /// Whether the catalog holds what the relation `rel` names: two entities
    /// for the `EE` kinds, an entity and a resource for the `ER` kinds.
    pub open spec fn resolves(self, rel: IDRelationView) -> bool {
        if rel.kind.between_entities() {
            self.entities.contains_key(rel.id1) && self.entities.contains_key(rel.id2)
        } else {
            self.entities.contains_key(rel.id1) && self.resources.contains_key(rel.id2)
        }
    }

    /// The verdict on declaring the relation `rel`: a used identifier is
    /// reported first, then a name that the catalog lacks.
    pub open spec fn check_id_relation(self, rel: IDRelationView) -> Result<(), Error> {
        if self.id_relations.contains_key(rel.id) {
            Err(Error::AlreadyExists)
        } else if !self.resolves(rel) {
            Err(Error::NotFound)
        } else {
            Ok(())
        }
    }

    /// The board after the relation `rel` was declared: stored under its
    /// identifier if the verdict is `Ok`, and nothing changes otherwise.
    pub open spec fn add_id_relation(self, rel: IDRelationView) -> BoardView {
        if self.check_id_relation(rel) is Ok {
            BoardView { id_relations: self.id_relations.insert(rel.id, rel), ..self }
        } else {
            self
        }
    }

    /// The verdict on declaring the relation `rel`: only a used identifier
    /// is refused. The properties it names are not looked up.
    pub open spec fn check_property_relation(self, rel: PropertyRelationView) -> Result<
        (),
        Error,
    > {
        if self.property_relations.contains_key(rel.id) {
            Err(Error::AlreadyExists)
        } else {
            Ok(())
        }
    }

    /// The board after the relation `rel` was declared: stored under its
    /// identifier if the verdict is `Ok`, and nothing changes otherwise.
    pub open spec fn add_property_relation(self, rel: PropertyRelationView) -> BoardView {
        if self.check_property_relation(rel) is Ok {
            BoardView { property_relations: self.property_relations.insert(rel.id, rel), ..self }
        } else {
            self
        }
    }

    /// The verdict on declaring the relation `rel`: the entity it names must
    /// exist. The relation's identifier is not looked up.
    pub open spec fn check_id_property_relation(self, rel: IDPropertyRelationView) -> Result<
        (),
        Error,
    > {
        if !self.entities.contains_key(rel.entity_id) {
            Err(Error::NotFound)
        } else {
            Ok(())
        }
    }

    /// The board after the relation `rel` was declared: stored under its
    /// identifier, in place of any relation stored there before, if the
    /// verdict is `Ok`, and nothing changes otherwise.
    pub open spec fn add_id_property_relation(self, rel: IDPropertyRelationView) -> BoardView {
        if self.check_id_property_relation(rel) is Ok {
            BoardView {
                id_property_relations: self.id_property_relations.insert(rel.id, rel),
                ..self
            }
        } else {
            self
        }
    }

    /// Whether the entity `e` is assigned to a resource that the catalog
    /// holds.
    pub open spec fn placed(self, e: EntityView) -> bool {
        &&& self.assignment.contains_key(e.id)
        &&& self.resources.contains_key(self.assignment[e.id])
    }

    /// The resource that the entity `e` is assigned to.
    pub open spec fn host(self, e: EntityView) -> ResourceView {
        self.resources[self.assignment[e.id]]
    }

    /// Whether the entity `e` breaks the relation `rel`: it carries the
    /// relation's entity property and the resource it is assigned to does
    /// not carry the relation's resource property. The relation's kind is
    /// not consulted.
    pub open spec fn breaks(self, rel: PropertyRelationView, e: EntityView) -> bool {
        &&& e.properties.contains(rel.entity_property)
        &&& !self.host(e).properties.contains(rel.resource_property)
    }

    /// Whether some entity of the catalog breaks the relation `rel`.
    pub open spec fn is_violated(self, rel: PropertyRelationView) -> bool {
        exists|k: Seq<char>| #[trigger]
            self.entities.contains_key(k) && self.breaks(rel, self.entities[k])
    }

    /// The identifiers of the declared property relations that some entity
    /// breaks.
    pub open spec fn violated_relations(self) -> Set<Seq<char>> {
        Set::new(
            |id: Seq<char>|
                exists|k: Seq<char>| #[trigger]
                    self.property_relations.contains_key(k) && self.property_relations[k].id == id
                        && self.is_violated(self.property_relations[k]),
        )
    }

    /// Whether every entity that a declared property relation applies to is
    /// assigned to a resource that the catalog holds.
    pub open spec fn placements_resolve(self) -> bool {
        forall|r: Seq<char>, k: Seq<char>|
            #![trigger self.property_relations.contains_key(r), self.entities.contains_key(k)]
            self.property_relations.contains_key(r) && self.entities.contains_key(k)
                && self.entities[k].properties.contains(self.property_relations[r].entity_property)
                ==> self.placed(self.entities[k])
    }

    /// Whether every record is stored under its own identifier.
    pub open spec fn keyed_by_id(self) -> bool {
        &&& forall|k: Seq<char>| #[trigger]
            self.resources.contains_key(k) ==> self.resources[k].id == k
        &&& forall|k: Seq<char>| #[trigger]
            self.entities.contains_key(k) ==> self.entities[k].id == k
        &&& forall|k: Seq<char>| #[trigger]
            self.id_relations.contains_key(k) ==> self.id_relations[k].id == k
        &&& forall|k: Seq<char>| #[trigger]
            self.property_relations.contains_key(k) ==> self.property_relations[k].id == k
        &&& forall|k: Seq<char>| #[trigger]
            self.id_property_relations.contains_key(k) ==> self.id_property_relations[k].id == k
    }

    /// Whether the assignment covers exactly the entities of the catalog and
    /// sends each to a resource of the catalog.
    pub open spec fn fully_assigned(self) -> bool {
        &&& self.assignment.dom() == self.entities.dom()
        &&& forall|k: Seq<char>| #[trigger]
            self.assignment.contains_key(k) ==> self.resources.contains_key(self.assignment[k])
    }

    /// Whether every stored relation names only members of the catalog.
    pub open spec fn references_resolve(self) -> bool {
        &&& forall|k: Seq<char>| #[trigger]
            self.id_relations.contains_key(k) ==> self.resolves(self.id_relations[k])
        &&& forall|k: Seq<char>| #[trigger]
            self.id_property_relations.contains_key(k) ==> self.entities.contains_key(
                self.id_property_relations[k].entity_id,
            )
    }

    /// The consistency that the operations of a board keep: records are
    /// stored under their own identifiers, every entity is assigned to an
    /// existing resource and nothing else is, and relations name only
    /// members of the catalog.
    pub open spec fn consistent(self) -> bool {
        &&& self.keyed_by_id()
        &&& self.fully_assigned()
        &&& self.references_resolve()
    }
}

} // verus!
