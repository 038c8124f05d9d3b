//! What holds of every board, proved over the model of its operations.

use crate::board::Board;
use crate::catalog::{EntityView, ResourceView};
use crate::error::Error;
use crate::model::BoardView;
use crate::relation::{IDPropertyRelationView, IDRelationView, PropertyRelationView};
use crate::string_set::StringSet;
use vstd::prelude::*;

verus! {

/// The empty board is consistent.
pub proof fn lemma_empty_is_consistent()
    ensures
        BoardView::empty().consistent(),
{
}

/// Offering a resource to a consistent board leaves it consistent, whether
/// the board takes the resource or not.
pub proof fn lemma_add_resource_keeps_consistency(board: BoardView, r: ResourceView)
    requires
        board.consistent(),
    ensures
        board.add_resource(r).consistent(),
{
}

/// Offering an entity to a consistent board leaves it consistent, whether
/// the board takes the entity or not.
pub proof fn lemma_add_entity_keeps_consistency(
    board: BoardView,
    resource_id: Seq<char>,
    e: EntityView,
)
    requires
        board.consistent(),
    ensures
        board.add_entity(resource_id, e).consistent(),
{
}

/// Declaring an identifier relation on a consistent board leaves it
/// consistent, whatever the verdict.
pub proof fn lemma_add_id_relation_keeps_consistency(board: BoardView, rel: IDRelationView)
    requires
        board.consistent(),
    ensures
        board.add_id_relation(rel).consistent(),
{
}

/// Declaring a property relation on a consistent board leaves it
/// consistent, whatever the verdict.
pub proof fn lemma_add_property_relation_keeps_consistency(
    board: BoardView,
    rel: PropertyRelationView,
)
    requires
        board.consistent(),
    ensures
        board.add_property_relation(rel).consistent(),
{
}

/// Declaring an identifier-property relation on a consistent board leaves
/// it consistent, whatever the verdict.
pub proof fn lemma_add_id_property_relation_keeps_consistency(
    board: BoardView,
    rel: IDPropertyRelationView,
)
    requires
        board.consistent(),
    ensures
        board.add_id_property_relation(rel).consistent(),
{
}

/// On a consistent board every entity is assigned to a registered
/// resource, so the board can be checked for violations.
pub proof fn lemma_consistent_board_can_be_checked(board: BoardView)
    requires
        board.consistent(),
    ensures
        board.placements_resolve(),
        forall|k: Seq<char>| #[trigger]
            board.entities.contains_key(k) ==> board.placed(board.entities[k]),
{
}

/// Moving a registered entity to a registered resource keeps a consistent
/// board consistent.
pub proof fn lemma_reassignment_keeps_consistency(
    board: BoardView,
    entity_id: Seq<char>,
    resource_id: Seq<char>,
)
    requires
        board.consistent(),
        board.entities.contains_key(entity_id),
        board.resources.contains_key(resource_id),
    ensures
        (BoardView { assignment: board.assignment.insert(entity_id, resource_id), ..board })
            .consistent(),
{
    let after = BoardView { assignment: board.assignment.insert(entity_id, resource_id), ..board };
    assert(after.assignment.dom() =~= after.entities.dom());
}

/// On a consistent board the violated relations are reported under the
/// identifiers they were declared with: an identifier is reported exactly
/// when a property relation is stored under it and some entity breaks that
/// relation.
pub proof fn lemma_violations_by_identifier(board: BoardView, id: Seq<char>)
    requires
        board.consistent(),
    ensures
        board.violated_relations().contains(id) <==> board.property_relations.contains_key(id)
            && board.is_violated(board.property_relations[id]),
{
}

/// Resource identifiers are unique: once a resource has been offered under
/// an identifier, a second resource with that identifier is refused and the
/// board, the stored record included, stays as it was.
pub proof fn lemma_resource_id_taken_once(
    board: BoardView,
    first: ResourceView,
    second: ResourceView,
)
    requires
        first.id == second.id,
    ensures
        !board.add_resource(first).admits_resource(second),
        board.add_resource(first).add_resource(second) == board.add_resource(first),
        board.add_resource(first).add_resource(second).resources[first.id] == board.add_resource(
            first,
        ).resources[first.id],
{
}

/// An entity that the board takes is registered and assigned in the same
/// step: right afterwards the catalog holds it and the assignment sends its
/// identifier to the resource it was offered for.
pub proof fn lemma_entity_enters_assigned(board: BoardView, resource_id: Seq<char>, e: EntityView)
    requires
        board.admits_entity(resource_id, e),
    ensures
        board.add_entity(resource_id, e).entities.contains_key(e.id),
        board.add_entity(resource_id, e).entities[e.id] == e,
        board.add_entity(resource_id, e).assignment.contains_key(e.id),
        board.add_entity(resource_id, e).assignment[e.id] == resource_id,
{
}

/// An identifier relation with a new identifier that names an entity or a
/// resource missing from the catalog is refused with `NotFound`, and the
/// board stays as it was.
pub proof fn lemma_id_relation_needs_its_subjects(board: BoardView, rel: IDRelationView)
    requires
        !board.id_relations.contains_key(rel.id),
        !board.entities.contains_key(rel.id1) || (rel.kind.between_entities()
            && !board.entities.contains_key(rel.id2)) || (!rel.kind.between_entities()
            && !board.resources.contains_key(rel.id2)),
    ensures
        board.check_id_relation(rel) == Err::<(), Error>(Error::NotFound),
        board.add_id_relation(rel) == board,
{
}

/// An identifier-property relation that names an entity missing from the
/// catalog is refused with `NotFound`, and the board stays as it was.
pub proof fn lemma_id_property_relation_needs_its_entity(
    board: BoardView,
    rel: IDPropertyRelationView,
)
    requires
        !board.entities.contains_key(rel.entity_id),
    ensures
        board.check_id_property_relation(rel) == Err::<(), Error>(Error::NotFound),
        board.add_id_property_relation(rel) == board,
{
}

/// Checking a board twice without changing it in between reports the same
/// relations both times: what a check reports is determined by the board.
pub proof fn lemma_check_is_repeatable(board: Board, first: StringSet, second: StringSet)
    requires
        first@ == board@.violated_relations(),
        second@ == board@.violated_relations(),
    ensures
        first@ == second@,
{
}

/// An entity that does not carry a relation's entity property does not
/// break the relation, whatever the resource it is assigned to carries.
pub proof fn lemma_unrelated_entity_breaks_nothing(
    board: BoardView,
    rel: PropertyRelationView,
    e: EntityView,
)
    requires
        !e.properties.contains(rel.entity_property),
    ensures
        !board.breaks(rel, e),
{
}

/// A violated relation has a culprit: a registered entity that carries the
/// relation's entity property.
pub proof fn lemma_violation_has_a_culprit(board: BoardView, rel: PropertyRelationView)
    requires
        board.is_violated(rel),
    ensures
        exists|k: Seq<char>| #[trigger]
            board.entities.contains_key(k) && board.entities[k].properties.contains(
                rel.entity_property,
            ),
{
}

/// Registering an entity that does not carry a relation's entity property
/// changes nothing about that relation: it is violated afterwards exactly
/// when it was before, wherever the entity is placed.
pub proof fn lemma_unrelated_entity_changes_nothing(
    board: BoardView,
    rel: PropertyRelationView,
    resource_id: Seq<char>,
    e: EntityView,
)
    requires
        board.consistent(),
        !e.properties.contains(rel.entity_property),
    ensures
        board.add_entity(resource_id, e).is_violated(rel) == board.is_violated(rel),
{
    let after = board.add_entity(resource_id, e);
    if board.admits_entity(resource_id, e) {
        if board.is_violated(rel) {
            let k = choose|k: Seq<char>| #[trigger]
                board.entities.contains_key(k) && board.breaks(rel, board.entities[k]);
            assert(after.entities.contains_key(k) && after.breaks(rel, after.entities[k]));
        }
        if after.is_violated(rel) {
            let k = choose|k: Seq<char>| #[trigger]
                after.entities.contains_key(k) && after.breaks(rel, after.entities[k]);
            assert(board.entities.contains_key(k) && board.breaks(rel, board.entities[k]));
        }
    }
}

} // verus!
