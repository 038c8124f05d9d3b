//! The catalog records: resources, which entities are placed on, and
//! entities, which are placed.

use crate::string_map::StringMap;
use crate::string_set::StringSet;
use vstd::prelude::*;

verus! {

/// What a [`Resource`] holds, as plain mathematical values.
pub struct ResourceView {
    pub id: Seq<char>,
    pub properties: Set<Seq<char>>,
    pub capacities: Map<Seq<char>, i64>,
}

impl ResourceView {
    /// The resource named `id` with no property and no capacity.
    pub open spec fn bare(id: Seq<char>) -> ResourceView {
        ResourceView { id, properties: Set::empty(), capacities: Map::empty() }
    }

    /// This resource with the property `p` added.
    pub open spec fn with_property(self, p: Seq<char>) -> ResourceView {
        ResourceView { properties: self.properties.insert(p), ..self }
    }
}

/// A placement target.
///
/// `capacities` maps the name of a capacity dimension to the amount the
/// resource offers. The amounts are descriptive: no operation reads them.
pub struct Resource {
    pub id: String,
    pub properties: StringSet,
    pub capacities: StringMap<i64>,
}

impl View for Resource {
    type V = ResourceView;

    open spec fn view(&self) -> ResourceView {
        ResourceView {
            id: self.id@,
            properties: self.properties@,
            capacities: self.capacities@,
        }
    }
}

impl Resource {
    /// A resource named `id` with no property and no capacity.
    pub fn new(id: String) -> (resource: Resource)
        ensures
            resource@ == ResourceView::bare(id@),
    {
        Resource { id, properties: StringSet::new(), capacities: StringMap::new() }
    }

    /// Tags the resource with the property `p`, which it must not carry yet.
    pub fn add_property(&mut self, p: String)
        requires
            !old(self)@.properties.contains(p@),
        ensures
            final(self)@ == old(self)@.with_property(p@),
    {
        self.properties.insert(p);
    }
}

/// What an [`Entity`] holds, as plain mathematical values.
pub struct EntityView {
    pub id: Seq<char>,
    pub properties: Set<Seq<char>>,
    pub metrics: Map<Seq<char>, i64>,
    pub move_cost: i64,
}

impl EntityView {
    /// The entity named `id` with no property, no metric and move cost zero.
    pub open spec fn bare(id: Seq<char>) -> EntityView {
        EntityView { id, properties: Set::empty(), metrics: Map::empty(), move_cost: 0 }
    }

    /// This entity with the property `p` added.
    pub open spec fn with_property(self, p: Seq<char>) -> EntityView {
        EntityView { properties: self.properties.insert(p), ..self }
    }
}

/// A placement subject, bound to one resource at a time.
///
/// `metrics` maps a metric's name to its value and `move_cost` ranks the
/// entity among candidates for relocation, lower first. Both are
/// descriptive: no operation reads them.
pub struct Entity {
    pub id: String,
    pub properties: StringSet,
    pub metrics: StringMap<i64>,
    pub move_cost: i64,
}

impl View for Entity {
    type V = EntityView;

    open spec fn view(&self) -> EntityView {
        EntityView {
            id: self.id@,
            properties: self.properties@,
            metrics: self.metrics@,
            move_cost: self.move_cost,
        }
    }
}

impl Entity {
    /// An entity named `id` with no property, no metric and move cost zero.
    pub fn new(id: String) -> (entity: Entity)
        ensures
            entity@ == EntityView::bare(id@),
    {
        Entity { id, properties: StringSet::new(), metrics: StringMap::new(), move_cost: 0 }
    }

    /// Tags the entity with the property `p`, which it must not carry yet.
    pub fn add_property(&mut self, p: String)
        requires
            !old(self)@.properties.contains(p@),
        ensures
            final(self)@ == old(self)@.with_property(p@),
    {
        self.properties.insert(p);
    }
}

} // verus!
