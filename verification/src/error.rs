//! Common error wrapper.

use crate::text::push_str;
use vstd::prelude::*;
use vstd::string::StringExecFns;

verus! {

/// What can end a session before its summary. Each variant carries the
/// message of its cause.
#[derive(Clone, Debug)]
pub enum TcpingError {
    /// Input or output failed.
    Io(String),
    /// A task of the runtime could not be joined.
    Join(String),
    /// Anything else, such as a target that cannot be read.
    Other(String),
}

impl TcpingError {
    /// The message as it is shown.
    pub open spec fn text(&self) -> Seq<char> {
        match self {
            TcpingError::Io(m) => "I/O error: "@ + m@,
            TcpingError::Join(m) => "Tokio join error: "@ + m@,
            TcpingError::Other(m) => m@,
        }
    }

    /// The message as it is shown.
    pub fn to_string(&self) -> (r: String)
        ensures
            r@ == self.text(),
    {
        match self {
            TcpingError::Io(m) => {
                let mut r = String::from_str("I/O error: ");
                push_str(&mut r, m.as_str());
                r
            },
            TcpingError::Join(m) => {
                let mut r = String::from_str("Tokio join error: ");
                push_str(&mut r, m.as_str());
                r
            },
            TcpingError::Other(m) => m.clone(),
        }
    }
}

} // verus!
