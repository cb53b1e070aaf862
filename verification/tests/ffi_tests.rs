use localref::config::{rest_addr_text, csc_addr_text, ConfigFile, LocalrefConfig};
use localref::error::LocalrefError;
use localref::ffi::{AppSettings, DaemonConfig, DesktopUiSettings, FfiError};

fn default_config() -> LocalrefConfig {
    let file = ConfigFile::default();
    let rest = Ok(rest_addr_text(&file).to_string());
    let csc = Ok(csc_addr_text(&file).to_string());
    LocalrefConfig::from_config_file("/cfg/config.toml", file, Some("/home/u"), rest, csc).unwrap()
}

#[test]
fn library_errors_map_to_ffi_kinds() {
    let io = LocalrefError::Io { path: "/x".to_string(), message: "denied".to_string() };
    assert_eq!(
        FfiError::from_error(io),
        FfiError::Io { msg: "filesystem operation failed at /x: denied".to_string() }
    );
    assert_eq!(
        FfiError::from_error(LocalrefError::MissingField("item".to_string())),
        FfiError::NotFound { msg: "item".to_string() }
    );
    assert_eq!(
        FfiError::from_error(LocalrefError::Conflict("rev".to_string())),
        FfiError::Conflict { msg: "rev".to_string() }
    );
    assert_eq!(
        FfiError::from_error(LocalrefError::Unsupported("paused".to_string())),
        FfiError::Unsupported { msg: "paused".to_string() }
    );
    assert_eq!(
        FfiError::from_error(LocalrefError::Rule("bad query".to_string())),
        FfiError::Internal { msg: "rule error: bad query".to_string() }
    );
    let invalid = LocalrefError::InvalidPathComponent { component: "a:b".to_string(), reason: "nope".to_string() };
    assert_eq!(
        FfiError::from_error(invalid),
        FfiError::InvalidInput { msg: "invalid path component `a:b`: nope".to_string() }
    );
}

#[test]
fn ffi_error_texts() {
    assert_eq!(FfiError::NotFound { msg: "x".to_string() }.message(), "not found: x");
    assert_eq!(FfiError::Plugin { msg: "timeout".to_string() }.message(), "plugin error: timeout");
}

#[test]
fn daemon_config_carries_the_configured_addresses() {
    let config = default_config();
    let daemon = DaemonConfig::from_config(&config);
    assert_eq!(daemon.library_root, "/home/u/.localref/libroot");
    assert_eq!(daemon.rest_addr, "127.0.0.1:24817");
    assert_eq!(daemon.csc_addr, "127.0.0.1:23119");
    assert_eq!(daemon.rest_endpoint, "http://127.0.0.1:24817");
    assert_eq!(daemon.plugins_dir, "/home/u/.localref/libroot/.localref/plugins");
}

#[test]
fn app_settings_validate_and_round_trip() {
    let config = default_config();
    let mut settings = AppSettings::from_config(&config);
    assert_eq!(settings.config_path, "/cfg/config.toml");
    assert_eq!(settings.repo_name, "Localref");
    settings.repo_name = "  Lab  ".to_string();
    settings.library_root = " /data/lib ".to_string();
    settings.rest_endpoint = "https://lab.example/".to_string();
    settings.start_hidden = false;
    let updated = settings
        .clone()
        .apply(config.clone(), Ok("127.0.0.1:1".to_string()), Ok("127.0.0.1:2".to_string()))
        .unwrap();
    let back = AppSettings::from_config(&updated);
    assert_eq!(back.repo_name, "Lab");
    assert_eq!(back.library_root, "/data/lib");
    assert_eq!(updated.plugins_dir(), "/data/lib/.localref/plugins");
    assert_eq!(back.rest_addr, "127.0.0.1:1");
    assert_eq!(back.rest_endpoint, "https://lab.example");
    assert_eq!(back.csc_addr, "127.0.0.1:2");
    assert!(!back.start_hidden);

    let mut blank_root = settings.clone();
    blank_root.library_root = "  ".to_string();
    assert_eq!(
        blank_root.apply(config.clone(), Ok("a".to_string()), Ok("b".to_string())).unwrap_err(),
        FfiError::InvalidInput { msg: "library_root must not be empty".to_string() }
    );
    assert_eq!(
        settings.clone().apply(config.clone(), Err("bad".to_string()), Ok("b".to_string())).unwrap_err(),
        FfiError::InvalidInput { msg: "rest.addr must be a socket address: bad".to_string() }
    );
    let mut bad_endpoint = settings;
    bad_endpoint.rest_endpoint = "lab.example".to_string();
    assert_eq!(
        bad_endpoint.apply(config, Ok("a".to_string()), Ok("b".to_string())).unwrap_err(),
        FfiError::InvalidInput { msg: "rest.endpoint must start with http:// or https://".to_string() }
    );
}

#[test]
fn desktop_ui_settings_round_trip() {
    let mut config = default_config();
    let defaults = DesktopUiSettings::from_config(&config);
    assert!(defaults.author_visible && defaults.venue_visible && defaults.year_visible && defaults.type_visible);
    assert!(!defaults.categories_visible);
    assert_eq!(defaults.detail_width, 420);

    let wanted = DesktopUiSettings {
        author_visible: false,
        venue_visible: true,
        year_visible: false,
        type_visible: false,
        categories_visible: true,
        detail_width: 9999,
    };
    wanted.apply(&mut config);
    assert_eq!(config.desktop_visible_columns(), &["Venue", "Categories"]);
    let back = DesktopUiSettings::from_config(&config);
    assert_eq!(back, DesktopUiSettings { detail_width: 620, ..wanted });
}
