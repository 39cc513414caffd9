//! Passing terminal errors on: the conversion every styled printing front
//! end uses when the terminal backend fails.

use vstd::prelude::*;

verus! {

/// The error type of the `term` crate, declared so that its values can pass
/// through this library's signatures. Relies on `term::Error` as that crate
/// defines it.
#[verifier::external_type_specification]
#[verifier::external_body]
pub struct ExTermError(term::Error);

/// The error type of std's input/output, declared so that its values can
/// pass through this library's signatures. Relies on `std::io::Error` as
/// std defines it.
#[verifier::external_type_specification]
#[verifier::external_body]
pub struct ExIoError(std::io::Error);

/// Relies on `term::Error`: its `Io` variant carries the underlying
/// input/output error. Hands that error out, or gives the value back whole
/// when it is any other variant.
#[verifier::external_body]
fn term_error_io_part(te: term::Error) -> (r: Result<std::io::Error, term::Error>) {
    match te {
        term::Error::Io(why) => Ok(why),
        other => Err(other),
    }
}

/// Relies on `std::io::Error::new`: wraps a terminal error, which describes
/// itself, as a plain input/output error.
#[verifier::external_body]
fn io_error_other(te: term::Error) -> (r: std::io::Error) {
    std::io::Error::new(std::io::ErrorKind::Other, te)
}

/// Converts a terminal error into an input/output error: an `Io` error is
/// handed out as it is, any other error is wrapped whole.
pub fn term_error_to_io_error(te: term::Error) -> std::io::Error {
    match term_error_io_part(te) {
        Ok(e) => e,
        Err(t) => io_error_other(t),
    }
}

} // verus!
