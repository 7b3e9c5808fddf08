use watcher_server::config::{config, Config, ConfigCell, DEFAULT_PORT};

#[test]
fn defaults_fill_missing_values() {
    let c = Config::from_options(None, None, "assets".to_string());
    assert_eq!(c.address, "0.0.0.0");
    assert_eq!(c.port, 8000);
    assert_eq!(DEFAULT_PORT, 8000);
    assert_eq!(c.assets_dir, "assets");
}

#[test]
fn given_values_win_over_defaults() {
    let c = Config::from_options(Some("127.0.0.1".to_string()), Some(9001), "/srv/a".to_string());
    assert_eq!(c.address, "127.0.0.1");
    assert_eq!(c.port, 9001);
    assert_eq!(c.assets_dir, "/srv/a");
}

#[test]
fn listen_address_joins_address_and_port() {
    let c = Config::from_options(None, None, "a".to_string());
    assert_eq!(c.listen_address(), "0.0.0.0:8000");
    let c = Config::from_options(Some("localhost".to_string()), Some(0), "a".to_string());
    assert_eq!(c.listen_address(), "localhost:0");
    let c = Config::from_options(Some("h".to_string()), Some(65535), "a".to_string());
    assert_eq!(c.listen_address(), "h:65535");
}

#[test]
fn configuration_is_parsed_once() {
    let mut cell = ConfigCell::new();
    assert!(!cell.is_initialized());
    let mut calls = 0;
    let first = config(&mut cell, || {
        calls += 1;
        Config::from_options(None, Some(1), "first".to_string())
    });
    assert_eq!(calls, 1);
    assert!(cell.is_initialized());
    let second = config(&mut cell, || Config::from_options(None, Some(2), "second".to_string()));
    assert_eq!(first.port, 1);
    assert_eq!(second.port, 1);
    assert_eq!(second.assets_dir, "first");
}
