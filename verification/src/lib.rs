//! Schema processing for a subgraph: the declaration model, validation, the
//! interface indices, full-text index definitions, type imports, the API
//! schema and the coercion of entity identifiers.

pub mod api_schema;
pub mod ast;
pub mod fulltext;
pub mod import;
pub mod index;
pub mod schema;
pub mod store;
pub mod text;
pub mod validation;
pub mod validity;

use vstd::prelude::*;

verus! {

/// Reserved name: the type that stands for the schema itself.
pub const SCHEMA_TYPE_NAME: &'static str = "_Schema_";

/// Reserved name: the type of the meta field of the root query type.
pub const META_FIELD_TYPE: &'static str = "_Meta_";

/// Reserved name: the meta field of the root query type.
pub const META_FIELD_NAME: &'static str = "_meta";

/// Reserved name: the type that describes the block a query ran against.
pub const BLOCK_FIELD_TYPE: &'static str = "_Block_";

} // verus!
