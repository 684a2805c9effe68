//! Configuration profiles.
pub mod validate;

pub use validate::Validator;
