//! Errors of the Clojure execution engine.
use vstd::prelude::*;
use vstd::string::*;

verus! {

#[verifier::external_type_specification]
#[verifier::external_body]
pub struct ExSerdeJsonError(serde_json::Error);

/// `serde_json::Error`'s `Display`.  What serde_json writes there depends on
/// the failure, which is opaque here, so nothing is claimed of the text.
#[verifier::external_body]
fn serde_error_text(e: &serde_json::Error) -> String {
    e.to_string()
}

#[derive(Debug)]
pub enum ExecutionError {
    Parse { location: String, message: String },
    Eval(String),
    Uninitialized,
    Timeout,
    RuntimeGone,
    Serde(serde_json::Error),
}

/// The message of `e`, where the library knows it: for every error but a
/// serde_json failure, whose text serde_json writes.
pub open spec fn known_text(e: ExecutionError) -> Option<Seq<char>> {
    match e {
        ExecutionError::Parse { location, message } => Some(
            "parse error at "@ + location@ + ": "@ + message@,
        ),
        ExecutionError::Eval(m) => Some("eval error: "@ + m@),
        ExecutionError::Uninitialized => Some("runtime not initialized"@),
        ExecutionError::Timeout => Some("timeout"@),
        ExecutionError::RuntimeGone => Some("clojure runtime thread is no longer running"@),
        ExecutionError::Serde(_) => None,
    }
}

impl ExecutionError {
    /// The human-readable form of the error.
    pub fn message(&self) -> (r: String)
        ensures
            known_text(*self) matches Some(t) ==> r@ == t,
            match self {
                ExecutionError::Parse { location, message } => r@ == "parse error at "@ + location@
                    + ": "@ + message@,
                ExecutionError::Eval(m) => r@ == "eval error: "@ + m@,
                ExecutionError::Uninitialized => r@ == "runtime not initialized"@,
                ExecutionError::Timeout => r@ == "timeout"@,
                ExecutionError::RuntimeGone => r@ == "clojure runtime thread is no longer running"@,
                ExecutionError::Serde(_) => r@.len() >= "serialization error: "@.len() && r@.subrange(
                    0,
                    "serialization error: "@.len() as int,
                ) == "serialization error: "@,
            },
    {
        let mut out = String::new();
        match self {
            ExecutionError::Parse { location, message } => {
                out.append("parse error at ");
                out.append(location.as_str());
                out.append(": ");
                out.append(message.as_str());
            },
            ExecutionError::Eval(m) => {
                out.append("eval error: ");
                out.append(m.as_str());
            },
            ExecutionError::Uninitialized => {
                out.append("runtime not initialized");
            },
            ExecutionError::Timeout => {
                out.append("timeout");
            },
            ExecutionError::RuntimeGone => {
                out.append("clojure runtime thread is no longer running");
            },
            ExecutionError::Serde(e) => {
                out.append("serialization error: ");
                let ghost head = out@;
                let t = serde_error_text(e);
                out.append(t.as_str());
                assert(out@.subrange(0, head.len() as int) =~= head);
            },
        }
        out
    }
}

} // verus!
