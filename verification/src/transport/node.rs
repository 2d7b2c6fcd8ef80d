//! Errors of the collaboration node.
use vstd::prelude::*;

verus! {

/// Why the collaboration node failed.
#[derive(Debug)]
pub enum TransportError {
    /// The endpoint could not be bound; holds the cause's message.
    Bind(String),
    /// The gossip protocol failed; holds the cause's message.
    Gossip(String),
}

impl TransportError {
    /// The error's message.
    pub fn message(&self) -> (r: String)
        ensures
            r@ == match self {
                TransportError::Bind(_) => "failed to bind endpoint"@,
                TransportError::Gossip(_) => "gossip error"@,
            },
    {
        match self {
            TransportError::Bind(_) => "failed to bind endpoint".to_owned(),
            TransportError::Gossip(_) => "gossip error".to_owned(),
        }
    }
}

} // verus!
