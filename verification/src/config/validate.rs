//! Validation of a configuration after it has been read.
use vstd::prelude::*;

verus! {

/// The failure that `anyhow` carries.
#[verifier::external_type_specification]
#[verifier::external_body]
pub struct ExAnyError(anyhow::Error);

/// A configuration that can tell whether it is valid.
///
/// Each kind of configuration decides for itself what makes it valid; a
/// profile is used only where `validate` returns `Ok`.
pub trait Validator {
    fn validate(&self) -> Result<(), anyhow::Error>;
}

} // verus!
