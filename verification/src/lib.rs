//! Placement boards.
//!
//! A [`Board`] registers resources, places entities on them and records the
//! relations declared between them. It guards what enters the registry, so
//! that every entity is assigned to an existing resource and every relation
//! names existing members, and it reports which property relations the
//! current assignment violates.
//!
//! Every operation is specified over [`BoardView`], the state of a board as
//! mathematical maps and sets. [`model`] says what each operation makes of
//! that state, and [`laws`] proves what follows for every board.

pub mod board;
pub mod catalog;
pub mod error;
pub mod laws;
pub mod model;
pub mod relation;
pub mod string_map;
pub mod string_set;

pub use crate::board::{Board, Pending};
pub use crate::catalog::{Entity, EntityView, Resource, ResourceView};
pub use crate::error::Error;
pub use crate::model::BoardView;
pub use crate::relation::{
    IDPropertyRelation, IDPropertyRelationView, IDRelation, IDRelationKind, IDRelationView,
    PropertyRelation, PropertyRelationKind, PropertyRelationView,
};
pub use crate::string_map::StringMap;
pub use crate::string_set::StringSet;
