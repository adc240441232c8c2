//! Checks on a datamodel that no single declaration can be held to, and the
//! directives that shape its models and fields.

pub mod directive;
pub mod lift;
pub mod resolve;
pub mod standardise;
pub mod validate;

pub use validate::Validator;
