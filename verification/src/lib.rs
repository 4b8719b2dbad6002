//! Planning layer of a schema derive: it classifies a type definition by its
//! shape, decides under which name (if any) the schema is registered, plans
//! the bounds of the generic parameters and assembles the generated
//! `ToSchema` implementation.

pub mod bound;
pub mod diag;
pub mod feature;
pub mod generics;
pub mod property;
pub mod registry;
pub mod shape;
pub mod symbol;
pub mod text;
pub mod to_schema;
pub mod tokens;
