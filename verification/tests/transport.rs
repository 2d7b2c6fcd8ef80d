use weaver_editor::constellation::get_default_cursor_limit;
use weaver_editor::oauth::make_redirect_uris;
use weaver_editor::transport::discovery::DiscoveryError;
use weaver_editor::transport::node::TransportError;
use weaver_editor::transport::presence_types::PresenceSnapshot;
use weaver_editor::transport::session::{topic_from_uri, SessionError};

#[test]
fn transport_error_messages() {
    assert_eq!(DiscoveryError::InvalidNodeId("xyz".to_string()).message(), "invalid node ID: xyz");
    assert_eq!(DiscoveryError::FetchError("io".to_string()).message(), "failed to fetch session records");
    assert_eq!(TransportError::Bind("x".to_string()).message(), "failed to bind endpoint");
    assert_eq!(TransportError::Gossip("x".to_string()).message(), "gossip error");
    assert_eq!(SessionError::Closed.message(), "session closed");
    assert_eq!(SessionError::Decode("x".to_string()).message(), "failed to decode message");
}

#[test]
fn transport_presence_snapshot_default() {
    let s = PresenceSnapshot::default();
    assert!(s.collaborators.is_empty());
    assert_eq!(s.peer_count, 0);
}

#[test]
fn settings_defaults() {
    assert_eq!(get_default_cursor_limit(), 16);
    assert_eq!(
        make_redirect_uris("https://weaver.example"),
        Some(vec!["https://weaver.example/oauth/callback".to_string()])
    );
}

#[test]
fn topic_is_blake3_of_uri() {
    let uri = "at://did:plc:abc/sh.weaver.notebook.entry/3kxyz";
    let topic = topic_from_uri(uri);
    assert_eq!(topic, *blake3::hash(uri.as_bytes()).as_bytes());
    assert_eq!(topic, topic_from_uri(uri));
    assert_ne!(topic, topic_from_uri("at://did:plc:abc/sh.weaver.notebook.entry/3kxy0"));
    assert_ne!(&topic[..], uri.as_bytes().get(..32).unwrap_or(&[]));
}
