use weaver_editor::filestore::{
    config_format, is_session_file, is_state_file, ConfigFormat, FileStore,
    SimpleJsonFileSessionStore,
};
use weaver_editor::telemetry::{LogLevel, TelemetryConfig};

#[test]
fn config_format_by_extension() {
    assert_eq!(config_format(Some("json")), ConfigFormat::Json);
    assert_eq!(config_format(Some("toml")), ConfigFormat::Toml);
    assert_eq!(config_format(Some("yaml")), ConfigFormat::Unsupported);
    assert_eq!(config_format(Some("JSON")), ConfigFormat::Unsupported);
    assert_eq!(config_format(None), ConfigFormat::Unsupported);
}

#[test]
fn file_store_format_from_path() {
    assert_eq!(FileStore::new("/home/me/.config/weaver.json").format(), ConfigFormat::Json);
    assert_eq!(FileStore::new("weaver.toml").format(), ConfigFormat::Toml);
    assert_eq!(FileStore::new("weaver").format(), ConfigFormat::Unsupported);
    assert_eq!(FileStore::new("weaver.toml").path_str(), "weaver.toml");
}

#[test]
fn session_store_file_names() {
    let store = SimpleJsonFileSessionStore::new("/tmp/sessions");
    assert_eq!(store.dir_str(), "/tmp/sessions");
    assert_eq!(
        SimpleJsonFileSessionStore::session_file_name("did:plc:abc"),
        "did:plc:abc_session.json"
    );
    assert_eq!(SimpleJsonFileSessionStore::state_file_name("k1"), "k1_state.json");
}

#[test]
fn telemetry_levels() {
    let debug = TelemetryConfig::from_settings("weaver-index".to_string(), None, true);
    assert_eq!(debug.console_level, LogLevel::Debug);
    assert_eq!(debug.default_filter(), "debug");
    assert_eq!(debug.service_name, "weaver-index");
    let release = TelemetryConfig::from_settings(
        "weaver-app".to_string(),
        Some("http://localhost:3100".to_string()),
        false,
    );
    assert_eq!(release.console_level, LogLevel::Info);
    assert_eq!(release.default_filter(), "info");
    assert_eq!(release.loki_url.as_deref(), Some("http://localhost:3100"));
    assert_eq!(LogLevel::Warn.as_str(), "WARN");
}

#[test]
fn session_and_state_files_never_collide() {
    for key in ["a", "did:plc:x", "x_session", ""] {
        for other in ["a", "did:plc:x", "x_session", ""] {
            assert_ne!(
                SimpleJsonFileSessionStore::session_file_name(key),
                SimpleJsonFileSessionStore::state_file_name(other)
            );
        }
    }
}

#[test]
fn session_and_state_files_are_told_apart() {
    let session = SimpleJsonFileSessionStore::session_file_name("did:plc:abc");
    let state = SimpleJsonFileSessionStore::state_file_name("k");
    assert!(is_session_file(&session));
    assert!(!is_state_file(&session));
    assert!(is_state_file(&state));
    assert!(!is_session_file(&state));
    assert!(!is_session_file("notes.json"));
    assert!(!is_state_file("_state.jso"));
    assert!(is_state_file("_state.json"));
}

#[test]
fn file_store_format_of_bare_names() {
    assert_eq!(FileStore::new("settings.backup.json").format(), ConfigFormat::Json);
    assert_eq!(FileStore::new(".json").format(), ConfigFormat::Unsupported);
    assert_eq!(FileStore::new("json").format(), ConfigFormat::Unsupported);
    assert_eq!(FileStore::new("weaver.json.").format(), ConfigFormat::Unsupported);
    assert_eq!(FileStore::new("..").format(), ConfigFormat::Unsupported);
}
