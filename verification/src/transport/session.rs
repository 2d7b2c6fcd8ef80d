//! Topics and errors of a collaboration session.
use vstd::prelude::*;
use vstd::string::StringSliceAdditionalSpecFns;

verus! {

/// Why a collaboration session failed.
#[derive(Debug)]
pub enum SessionError {
    /// Subscribing to the topic failed; holds the cause's message.
    Subscribe(String),
    /// Broadcasting a message failed; holds the cause's message.
    Broadcast(String),
    /// A message could not be decoded; holds the cause's message.
    Decode(String),
    /// The session is closed.
    Closed,
}

impl SessionError {
    /// The error's message.
    pub fn message(&self) -> (r: String)
        ensures
            r@ == match self {
                SessionError::Subscribe(_) => "failed to subscribe to topic"@,
                SessionError::Broadcast(_) => "failed to broadcast message"@,
                SessionError::Decode(_) => "failed to decode message"@,
                SessionError::Closed => "session closed"@,
            },
    {
        match self {
            SessionError::Subscribe(_) => "failed to subscribe to topic".to_owned(),
            SessionError::Broadcast(_) => "failed to broadcast message".to_owned(),
            SessionError::Decode(_) => "failed to decode message".to_owned(),
            SessionError::Closed => "session closed".to_owned(),
        }
    }
}

/// The BLAKE3 digest of `data`, as `blake3::hash` computes it.
pub uninterp spec fn blake3_digest(data: Seq<u8>) -> Seq<u8>;

/// Hashes bytes with `blake3::hash` and hands back the digest's 32 bytes.
///
/// The digest is named, not stated: it is a function of the input bytes alone.
#[verifier::external_body]
fn blake3_hash(data: &[u8]) -> (r: [u8; 32])
    ensures
        r@ == blake3_digest(data@),
{
    *blake3::hash(data).as_bytes()
}

/// Derive a topic ID from a resource URI.
///
/// The BLAKE3 hash of the AT-URI's bytes gives a stable 32-byte topic ID.
/// Format: `at://{did}/{collection}/{rkey}`
pub fn topic_from_uri(uri: &str) -> (r: [u8; 32])
    ensures
        r@ == blake3_digest(uri.spec_bytes()),
{
    blake3_hash(uri.as_bytes())
}

} // verus!
