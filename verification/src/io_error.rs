//! Errors that the file-handling programs report through `std::io`.
use vstd::prelude::*;

verus! {

#[verifier::external_type_specification]
#[verifier::external_body]
pub struct ExIoError(std::io::Error);

/// Whether the kind of an I/O error is `std::io::ErrorKind::Other`.
pub uninterp spec fn io_error_kind_is_other(e: std::io::Error) -> bool;

/// The text of the payload that an I/O error made from a message carries.
pub uninterp spec fn io_error_payload(e: std::io::Error) -> Seq<char>;

/// Calls `std::io::Error::new(std::io::ErrorKind::Other, message)`.  Its
/// documentation says that the error has the kind it was made with and
/// carries the message as its payload; nothing else of the error is stated.
#[verifier::external_body]
pub(crate) fn other_io_error(message: &str) -> (e: std::io::Error)
    ensures
        io_error_kind_is_other(e),
        io_error_payload(e) == message@,
{
    std::io::Error::new(std::io::ErrorKind::Other, message)
}

} // verus!
