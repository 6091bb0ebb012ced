//! Errors of the core function library.
use vstd::prelude::*;
use vstd::string::*;
use crate::execution::error::{ExecutionError, known_text};

verus! {

#[verifier::external_type_specification]
#[verifier::external_body]
pub struct ExIoError(std::io::Error);

/// `std::io::Error`'s `Display`.  The text depends on the operating system's
/// description of the error, so nothing is claimed of it.
#[verifier::external_body]
fn io_error_text(e: &std::io::Error) -> String {
    e.to_string()
}

#[derive(Debug)]
pub enum CoreError {
    Execution(ExecutionError),
    NotFound(String),
    Io(std::io::Error),
}

/// `s` begins with `prefix`.
pub open spec fn begins_with(s: Seq<char>, prefix: Seq<char>) -> bool {
    prefix.len() <= s.len() && s.subrange(0, prefix.len() as int) == prefix
}

impl CoreError {
    /// The human-readable form of the error.
    pub fn message(&self) -> (r: String)
        ensures
            match self {
                CoreError::Execution(e) => begins_with(r@, "execution error: "@) && (known_text(
                    *e,
                ) matches Some(t) ==> r@ == "execution error: "@ + t),
                CoreError::NotFound(name) => r@ == "function not found: "@ + name@,
                CoreError::Io(_) => begins_with(r@, "io error: "@),
            },
    {
        let mut out = String::new();
        match self {
            CoreError::Execution(e) => {
                out.append("execution error: ");
                let ghost head = out@;
                let t = e.message();
                out.append(t.as_str());
                assert(out@.subrange(0, head.len() as int) =~= head);
            },
            CoreError::NotFound(name) => {
                out.append("function not found: ");
                out.append(name.as_str());
            },
            CoreError::Io(e) => {
                out.append("io error: ");
                let ghost head = out@;
                let t = io_error_text(e);
                out.append(t.as_str());
                assert(out@.subrange(0, head.len() as int) =~= head);
            },
        }
        out
    }
}

} // verus!
