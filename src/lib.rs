//! Loading kernel instrumentation programs: the section grammar of program images, the
//! parser that reads them into modules, map materialization, relocation, the requests made
//! to load and attach programs, and the streams of events they emit.
use vstd::prelude::*;

pub mod events;
pub mod loader;
pub mod maps;
pub mod parser;
pub mod relocate;
pub mod section;
pub mod tools;

verus! {

#[verifier::external_type_specification]
#[verifier::external_body]
pub struct ExIoError(std::io::Error);

/// An error raised by a command-line operation, carrying its message.
pub struct CommandError(pub String);

/// Relies on the `Display` impl of `std::io::Error` for the error's message.
#[verifier::external_body]
fn io_error_message(e: &std::io::Error) -> (r: String) {
    format!("{}", e)
}

impl From<std::io::Error> for CommandError {
    fn from(e: std::io::Error) -> (r: CommandError) {
        CommandError(io_error_message(&e))
    }
}

impl vstd::std_specs::convert::FromSpecImpl<std::io::Error> for CommandError {
    open spec fn obeys_from_spec() -> bool {
        false
    }

    open spec fn from_spec(v: std::io::Error) -> CommandError {
        arbitrary()
    }
}

} // verus!
