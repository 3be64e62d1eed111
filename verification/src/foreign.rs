//! Types of std and of outside crates that values of this library carry
//! without looking inside.
use vstd::prelude::*;

verus! {

/// `std::io::Error`, carried as the cause of file errors.
#[verifier::external_type_specification]
#[verifier::external_body]
pub struct ExIoError(std::io::Error);

/// `serde_json::Error`, carried as the cause of configuration parse errors.
#[verifier::external_type_specification]
#[verifier::external_body]
pub struct ExJsonError(serde_json::Error);

} // verus!
