//! Generator of step-by-step construction wizards for a root type.
//!
//! A set of type declarations (product types and sum types) is turned into a
//! dependency graph, the graph into the table of decisions that a driver has
//! to take, the table into a builder schema, and the schema into source text.
//!
//! - `field`, `pickable`, `sculptable_struct`: the declaration model, and
//!   what is written for one declaration;
//! - `syntax`, `attribute`: declarations as a parser hands them over, and the
//!   marker attributes;
//! - `graph`: the dependency graph and its one root;
//! - `table`, `resolve`: the decision table and the walk that writes it;
//! - `wizard`, `driver`, `value`: the state machine that takes the decisions,
//!   the loop that asks the callbacks, and the value that comes out;
//! - `schema`, `emit`, `generate`: the builder schema, the emitted text, and
//!   the whole run;
//! - `sheet`: a wizard written by hand for one declaration set.

pub mod attribute;
pub mod driver;
pub mod emit;
pub mod field;
pub mod format;
pub mod generate;
pub mod graph;
pub mod pickable;
pub mod resolve;
pub mod schema;
pub mod sculptable_struct;
pub mod sheet;
pub mod syntax;
pub mod table;
pub mod value;
pub mod wizard;
