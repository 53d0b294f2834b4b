//! What can go wrong in a session.

use crate::protocol::Status;
use vstd::prelude::*;

verus! {

/// The failures a [`Plugin`](crate::Plugin) reports.
#[derive(Debug, Clone, PartialEq, Eq)]
pub enum Error {
    /// The transport failed, or the stream ended or broke inside a reply.
    Network(String),
    /// A reply is not well-formed XML, lacks what its kind requires, or
    /// holds a value that does not read as its type.
    Xml(String),
    /// The simulator answered the greeting or the registration with a
    /// status other than the expected one.
    InvalidResponse(Status),
}

} // verus!
