use justrans::config::{
    bind_address_of, body_limit_of, default_port, default_storage_dir, default_theme,
    default_upload_chunk_size_mb, ConfigData, ServerConfig,
};

#[test]
fn test_default_config() {
    let config = ServerConfig::default();
    assert_eq!(config.port, 8080);
    assert_eq!(config.upload_chunk_size_mb, 5);
}

#[test]
fn default_config_data_has_documented_values() {
    let config = ConfigData::default();
    assert_eq!(config.server.port, 8080);
    assert_eq!(config.server.upload_chunk_size_mb, 5);
    assert!(config.server.bind_all_interfaces);
    assert_eq!(config.display.theme, "light");
    assert_eq!(config.storage.storage_dir, "uploads");
    assert_eq!(default_port(), 8080);
    assert_eq!(default_upload_chunk_size_mb(), 5);
    assert_eq!(default_theme(), "light");
    assert_eq!(default_storage_dir(), "uploads");
}

#[test]
fn config_clone_keeps_every_field() {
    let mut config = ConfigData::default();
    config.server.port = 9000;
    config.server.upload_chunk_size_mb = 7;
    config.server.bind_all_interfaces = false;
    config.display.theme = "dark".to_string();
    config.storage.storage_dir = "/tmp/share".to_string();
    let copy = config.clone();
    assert_eq!(copy.server.port, 9000);
    assert_eq!(copy.server.upload_chunk_size_mb, 7);
    assert!(!copy.server.bind_all_interfaces);
    assert_eq!(copy.display.theme, "dark");
    assert_eq!(copy.storage.storage_dir, "/tmp/share");
}

#[test]
fn body_limit_is_one_megabyte_above_the_chunk_size() {
    assert_eq!(body_limit_of(5), 6 * 1024 * 1024);
    assert_eq!(body_limit_of(0), 1024 * 1024);
    assert_eq!(body_limit_of(1), 2_097_152);
}

#[test]
fn body_limit_saturates_at_the_largest_size() {
    assert_eq!(body_limit_of(u64::MAX), usize::MAX);
    assert_eq!(body_limit_of(u64::MAX - 1), usize::MAX);
}

#[test]
fn bind_address_follows_the_scope() {
    assert_eq!(bind_address_of(true), "0.0.0.0");
    assert_eq!(bind_address_of(false), "127.0.0.1");
}

#[test]
fn config_response_carries_the_chunk_size() {
    let mut config = ConfigData::default();
    assert_eq!(config.response().upload_chunk_size_mb, 5);
    config.server.upload_chunk_size_mb = 12;
    assert_eq!(config.response().upload_chunk_size_mb, 12);
}
