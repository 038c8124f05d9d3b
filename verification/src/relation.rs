//! The three kinds of relation that can be declared on a board.

use vstd::prelude::*;

verus! {

/// The polarity and scope of a relation between two identified members.
///
/// `EE` kinds relate two entities, `ER` kinds an entity and a resource.
#[derive(PartialEq, Eq, Structural, Clone, Copy, Debug)]
pub enum IDRelationKind {
    EEAffinity,
    EEAntiAffinity,
    ERAffinity,
    ERAntiAffinity,
}

impl IDRelationKind {
    /// Whether both ends of a relation of this kind are entities.
    pub open spec fn between_entities(self) -> bool {
        self == IDRelationKind::EEAffinity || self == IDRelationKind::EEAntiAffinity
    }
}

/// What an [`IDRelation`] holds, as plain mathematical values.
pub struct IDRelationView {
    pub id: Seq<char>,
    pub kind: IDRelationKind,
    pub id1: Seq<char>,
    pub id2: Seq<char>,
}

/// A relation between two members of the catalog, named by identifier.
///
/// `id1` names an entity. `id2` names an entity for the `EE` kinds and a
/// resource for the `ER` kinds.
pub struct IDRelation {
    pub id: String,
    pub kind: IDRelationKind,
    pub id1: String,
    pub id2: String,
}

impl View for IDRelation {
    type V = IDRelationView;

    open spec fn view(&self) -> IDRelationView {
        IDRelationView { id: self.id@, kind: self.kind, id1: self.id1@, id2: self.id2@ }
    }
}

/// The polarity of a relation that names a property.
#[derive(PartialEq, Eq, Structural, Clone, Copy, Debug)]
pub enum PropertyRelationKind {
    Affinity,
    AntiAffinity,
}

/// What a [`PropertyRelation`] holds, as plain mathematical values.
pub struct PropertyRelationView {
    pub id: Seq<char>,
    pub kind: PropertyRelationKind,
    pub entity_property: Seq<char>,
    pub resource_property: Seq<char>,
}

/// A relation between every entity that carries `entity_property` and the
/// resource it is placed on, which is asked about `resource_property`.
pub struct PropertyRelation {
    pub id: String,
    pub kind: PropertyRelationKind,
    pub entity_property: String,
    pub resource_property: String,
}

impl View for PropertyRelation {
    type V = PropertyRelationView;

    open spec fn view(&self) -> PropertyRelationView {
        PropertyRelationView {
            id: self.id@,
            kind: self.kind,
            entity_property: self.entity_property@,
            resource_property: self.resource_property@,
        }
    }
}

/// What an [`IDPropertyRelation`] holds, as plain mathematical values.
pub struct IDPropertyRelationView {
    pub id: Seq<char>,
    pub entity_id: Seq<char>,
    pub kind: PropertyRelationKind,
    pub resource_property: Seq<char>,
}

/// A relation between one entity, named by identifier, and the resource it
/// is placed on, which is asked about `resource_property`.
pub struct IDPropertyRelation {
    pub id: String,
    pub entity_id: String,
    pub kind: PropertyRelationKind,
    pub resource_property: String,
}

impl View for IDPropertyRelation {
    type V = IDPropertyRelationView;

    open spec fn view(&self) -> IDPropertyRelationView {
        IDPropertyRelationView {
            id: self.id@,
            entity_id: self.entity_id@,
            kind: self.kind,
            resource_property: self.resource_property@,
        }
    }
}

} // verus!
