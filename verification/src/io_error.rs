//! The I/O error type of `std`, carried by the errors of the boundaries that
//! read files or run programs.
use vstd::prelude::*;

verus! {

#[verifier::external_type_specification]
#[verifier::external_body]
pub struct ExIoError(std::io::Error);

} // verus!
