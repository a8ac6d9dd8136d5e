use zotero_mcp::config::{Config, EnvValues, TransportMode};

fn env(api_key: Option<&str>) -> EnvValues {
    EnvValues {
        api_key: api_key.map(|s| s.to_string()),
        library_id: None,
        library_type: None,
        webdav_url: None,
        webdav_username: None,
        webdav_password: None,
        port: None,
        transport: None,
    }
}

#[test]
fn test_missing_api_key_returns_error() {
    let result = Config::from_values(env(None));
    assert!(result.is_err());
    assert!(result.unwrap_err().contains("ZOTERO_API_KEY"));
}

#[test]
fn blank_api_key_is_missing() {
    assert!(Config::from_values(env(Some("   "))).is_err());
}

#[test]
fn test_defaults() {
    let config = Config::from_values(env(Some("test_key_123"))).unwrap();
    assert_eq!(config.zotero_api_key, "test_key_123");
    assert_eq!(config.zotero_library_id, None);
    assert_eq!(config.zotero_library_type, "user");
    assert_eq!(config.port, 3000);
    assert_eq!(config.transport, TransportMode::Stdio);
    assert!(!config.webdav_configured());
}

#[test]
fn test_library_type_group() {
    let mut e = env(Some("key"));
    e.library_type = Some("group".to_string());
    let config = Config::from_values(e).unwrap();
    assert_eq!(config.zotero_library_type, "group");
}

#[test]
fn test_library_type_defaults_to_user() {
    let mut e = env(Some("key"));
    e.library_type = Some("GROUP".to_string());
    let config = Config::from_values(e).unwrap();
    assert_eq!(config.zotero_library_type, "group");
    let mut e = env(Some("key"));
    e.library_type = Some("team".to_string());
    assert_eq!(Config::from_values(e).unwrap().zotero_library_type, "user");
}

#[test]
fn test_port_and_transport() {
    let mut e = env(Some("key"));
    e.port = Some("8080".to_string());
    e.transport = Some("http".to_string());
    let config = Config::from_values(e).unwrap();
    assert_eq!(config.port, 8080);
    assert_eq!(config.transport, TransportMode::Http);
}

#[test]
fn unreadable_port_falls_back() {
    let mut e = env(Some("key"));
    e.port = Some("99999".to_string());
    assert_eq!(Config::from_values(e).unwrap().port, 3000);
}

#[test]
fn test_webdav_configured() {
    let mut e = env(Some("key"));
    e.webdav_url = Some("https://dav.example.com".to_string());
    e.webdav_username = Some("user".to_string());
    e.webdav_password = Some("pass".to_string());
    let config = Config::from_values(e).unwrap();
    assert!(config.webdav_configured());
    assert_eq!(config.webdav_url.as_deref(), Some("https://dav.example.com"));
}
