//! Presence types for main thread rendering.
//!
//! These types use String node IDs, so that they can be used without the
//! networking layer.
use vstd::prelude::*;

verus! {

/// A remote collaborator's cursor for rendering.
#[derive(Debug)]
pub struct RemoteCursorInfo {
    /// Node ID as string (z-base32 encoded)
    pub node_id: String,
    /// Character offset in the document
    pub position: usize,
    /// Selection range (anchor, head) if any
    pub selection: Option<(usize, usize)>,
    /// Assigned colour (RGBA)
    pub color: u32,
}

impl Clone for RemoteCursorInfo {
    fn clone(&self) -> (r: Self)
        ensures
            r == *self,
    {
        RemoteCursorInfo {
            node_id: self.node_id.clone(),
            position: self.position,
            selection: self.selection,
            color: self.color,
        }
    }
}

/// Collaborator info for presence display.
#[derive(Debug)]
pub struct CollaboratorInfo {
    /// Node ID as string
    pub node_id: String,
    /// The collaborator's DID
    pub did: String,
    /// Display name for UI
    pub display_name: String,
    /// Assigned colour (RGBA)
    pub color: u32,
    /// Current cursor position (if known)
    pub cursor_position: Option<usize>,
    /// Current selection (if any)
    pub selection: Option<(usize, usize)>,
}

impl Clone for CollaboratorInfo {
    fn clone(&self) -> (r: Self)
        ensures
            r == *self,
    {
        CollaboratorInfo {
            node_id: self.node_id.clone(),
            did: self.did.clone(),
            display_name: self.display_name.clone(),
            color: self.color,
            cursor_position: self.cursor_position,
            selection: self.selection,
        }
    }
}

/// Presence update sent from worker to main thread.
#[derive(Debug)]
pub struct PresenceSnapshot {
    /// All known collaborators
    pub collaborators: Vec<CollaboratorInfo>,
    /// Number of connected peers
    pub peer_count: usize,
}

impl Default for PresenceSnapshot {
    fn default() -> (r: Self)
        ensures
            r.collaborators@.len() == 0,
            r.peer_count == 0,
    {
        PresenceSnapshot { collaborators: Vec::new(), peer_count: 0 }
    }
}

} // verus!
