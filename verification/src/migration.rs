//! From two datamodels to the changes that turn the database of the one
//! into the database of the other.

pub mod calculate;
pub mod infer;
pub mod renames;
pub mod render;
pub mod schema;
pub mod steps;
pub mod support;
