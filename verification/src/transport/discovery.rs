//! Errors of peer discovery.
use crate::strings::string_push_str;
use vstd::prelude::*;

verus! {

/// Why peer discovery failed.
#[derive(Debug)]
pub enum DiscoveryError {
    /// A node ID that does not parse; holds the text given.
    InvalidNodeId(String),
    /// Session records could not be fetched; holds the cause's message.
    FetchError(String),
}

impl DiscoveryError {
    /// The error's message.
    pub fn message(&self) -> (r: String)
        ensures
            r@ == match self {
                DiscoveryError::InvalidNodeId(id) => "invalid node ID: "@ + id@,
                DiscoveryError::FetchError(_) => "failed to fetch session records"@,
            },
    {
        match self {
            DiscoveryError::InvalidNodeId(id) => {
                let mut m = "invalid node ID: ".to_owned();
                string_push_str(&mut m, id.as_str());
                m
            },
            DiscoveryError::FetchError(_) => "failed to fetch session records".to_owned(),
        }
    }
}

} // verus!
