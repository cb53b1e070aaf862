use localref::config::{
    csc_addr_text, escape_toml_basic, rest_addr_text, ConfigFile, CscConfigFile, DesktopConfigFile,
    LocalrefConfig, LoggingConfigFile, RestConfigFile,
};

/// Read configuration file text into its parsed fields.
fn parse_file(text: &str) -> ConfigFile {
    let table: toml::Table = toml::from_str(text).expect("valid TOML");
    let string = |t: &toml::Table, key: &str| t.get(key).and_then(|v| v.as_str()).map(str::to_string);
    let sub = |key: &str| table.get(key).and_then(|v| v.as_table()).cloned();
    ConfigFile {
        workspace_name: string(&table, "workspace_name").or_else(|| string(&table, "repo_name")),
        library_root: string(&table, "library_root"),
        rest: sub("rest").map(|t| RestConfigFile { addr: string(&t, "addr"), endpoint: string(&t, "endpoint") }),
        csc: sub("csc").map(|t| CscConfigFile { addr: string(&t, "addr") }),
        desktop: sub("desktop").map(|t| DesktopConfigFile {
            start_hidden: t.get("start_hidden").and_then(|v| v.as_bool()),
            quiet_start: t.get("quiet_start").and_then(|v| v.as_bool()),
            visible_columns: t.get("visible_columns").and_then(|v| v.as_array()).map(|a| {
                a.iter().filter_map(|v| v.as_str().map(str::to_string)).collect()
            }),
            detail_width: t.get("detail_width").and_then(|v| v.as_integer()).map(|w| w as u32),
        }),
        logging: sub("logging").map(|t| LoggingConfigFile {
            max_file_bytes: t.get("max_file_bytes").and_then(|v| v.as_integer()).map(|w| w as u64),
            backup_count: t.get("backup_count").and_then(|v| v.as_integer()).map(|w| w as u32),
        }),
    }
}

/// Load a configuration from file text; addresses are taken as written.
fn load(text: &str) -> Result<LocalrefConfig, String> {
    let file = parse_file(text);
    let rest = Ok(rest_addr_text(&file).to_string());
    let csc = Ok(csc_addr_text(&file).to_string());
    LocalrefConfig::from_config_file("/cfg/config.toml", file, Some("/home/u"), rest, csc)
}

#[test]
fn missing_config_file_is_created_with_documented_defaults() {
    let config = load("").unwrap();
    assert_eq!(config.source_path(), "/cfg/config.toml");
    assert_eq!(config.workspace_name(), "Localref");
    assert_eq!(config.library_root(), "/home/u/.localref/libroot");
    assert_eq!(config.plugins_dir(), "/home/u/.localref/libroot/.localref/plugins");
    assert_eq!(config.rest_addr(), "127.0.0.1:24817");
    assert_eq!(config.rest_endpoint(), "http://127.0.0.1:24817");
    assert_eq!(config.csc_addr(), "127.0.0.1:23119");
    assert!(config.desktop_start_hidden());
    assert!(config.desktop_quiet_start());
    assert_eq!(config.desktop_visible_columns(), &["Author", "Venue", "Year", "Type"]);
    assert_eq!(config.desktop_detail_width(), 420);
    assert_eq!(config.log_max_file_bytes(), 10485760);
    assert_eq!(config.log_backup_count(), 2);
    let written = config.to_toml();
    assert!(written.contains("workspace_name = \"Localref\""));
    assert!(written.contains("library_root = "));
    assert!(written.contains("[rest]"));
    assert!(written.contains("[csc]"));
    assert!(written.contains("[desktop]"));
    assert!(written.contains("start_hidden = true"));
    assert!(written.contains("quiet_start = true"));
    assert!(written.contains("[logging]"));
    assert!(written.contains("max_file_bytes = 10485760"));
    assert!(written.contains("backup_count = 2"));
}

#[test]
fn config_file_overrides_runtime_options() {
    let config = load(
        r#"
library_root = "D:/LocalrefLibrary"
workspace_name = "Research Vault"

[rest]
addr = "127.0.0.1:3001"
endpoint = "http://localhost:3001"

[csc]
addr = "127.0.0.1:3002"

[desktop]
start_hidden = false
quiet_start = false
visible_columns = ["Author", "Categories", "Unknown"]
detail_width = 580

[logging]
max_file_bytes = 20971520
backup_count = 4
"#,
    )
    .unwrap();
    assert_eq!(config.workspace_name(), "Research Vault");
    assert_eq!(config.library_root(), "D:/LocalrefLibrary");
    assert_eq!(config.plugins_dir(), "D:/LocalrefLibrary/.localref/plugins");
    assert_eq!(config.rest_addr(), "127.0.0.1:3001");
    assert_eq!(config.rest_endpoint(), "http://localhost:3001");
    assert_eq!(config.csc_addr(), "127.0.0.1:3002");
    assert!(!config.desktop_start_hidden());
    assert!(!config.desktop_quiet_start());
    assert_eq!(config.desktop_visible_columns(), &["Author", "Categories"]);
    assert_eq!(config.desktop_detail_width(), 580);
    assert_eq!(config.log_max_file_bytes(), 20 * 1024 * 1024);
    assert_eq!(config.log_backup_count(), 4);
}

#[test]
fn invalid_socket_address_fails_loudly() {
    let file = parse_file("[rest]\naddr = \"not an addr\"\n");
    let error = LocalrefConfig::from_config_file(
        "/cfg/config.toml",
        file,
        Some("/home/u"),
        Err("invalid socket address syntax".to_string()),
        Ok("127.0.0.1:23119".to_string()),
    )
    .unwrap_err();
    assert!(error.contains("rest.addr must be a socket address"));
}

#[test]
fn invalid_logging_limits_fail_loudly() {
    let error = load("[logging]\nmax_file_bytes = 1024\nbackup_count = 11\n").unwrap_err();
    assert!(error.contains("logging.max_file_bytes must be at least 65536"));
}

#[test]
fn excessive_log_backup_count_fails_loudly() {
    let error = load("[logging]\nmax_file_bytes = 10485760\nbackup_count = 11\n").unwrap_err();
    assert!(error.contains("logging.backup_count must be between 0 and 10"));
}

#[test]
fn save_round_trips_all_fields() {
    let original = load(
        r#"
library_root = "D:/Vault"
workspace_name = "Round Trip"

[rest]
addr = "127.0.0.1:3001"
endpoint = "http://localhost:3001"

[csc]
addr = "127.0.0.1:3002"

[desktop]
start_hidden = false
quiet_start = false
"#,
    )
    .unwrap();
    let reloaded = load(&original.to_toml()).unwrap();
    assert_eq!(original, reloaded);
}

#[test]
fn save_round_trips_library_root_with_apostrophe() {
    // A user name holding an apostrophe must survive save and reload.
    let mut config = load("").unwrap();
    let root = r"C:\Users\O'Brien\.localref\libroot";
    config.set_library_root(root);
    config.set_workspace_name("O'Brien's \"Vault\"").unwrap();

    let reloaded = load(&config.to_toml()).unwrap();
    assert_eq!(reloaded.library_root(), root);
    assert_eq!(reloaded.workspace_name(), "O'Brien's \"Vault\"");
    assert_eq!(config, reloaded);
}

#[test]
fn set_library_root_rederives_plugins_dir() {
    let mut config = load("").unwrap();
    config.set_library_root("E:/NewLib");
    assert_eq!(config.library_root(), "E:/NewLib");
    assert_eq!(config.plugins_dir(), "E:/NewLib/.localref/plugins");
}

#[test]
fn editable_settings_validate_and_round_trip() {
    let mut config = load("").unwrap();
    config.set_workspace_name("Research Library").unwrap();
    config.set_library_root("/tmp/library");
    config.set_rest_addr(Ok("127.0.0.1:25000".to_string())).unwrap();
    config.set_rest_endpoint("http://127.0.0.1:25000/").unwrap();
    config.set_csc_addr(Ok("127.0.0.1:24000".to_string())).unwrap();
    config.set_desktop_start_hidden(false);
    config.set_desktop_quiet_start(false);
    config.set_desktop_visible_columns(vec!["Venue".to_string(), "Categories".to_string()]);
    config.set_desktop_detail_width(700);

    let loaded = load(&config.to_toml()).unwrap();
    assert_eq!(loaded.workspace_name(), "Research Library");
    assert_eq!(loaded.rest_addr(), "127.0.0.1:25000");
    assert_eq!(loaded.rest_endpoint(), "http://127.0.0.1:25000");
    assert_eq!(loaded.csc_addr(), "127.0.0.1:24000");
    assert!(!loaded.desktop_start_hidden());
    assert!(!loaded.desktop_quiet_start());
    assert_eq!(loaded.desktop_visible_columns(), &["Venue", "Categories"]);
    assert_eq!(loaded.desktop_detail_width(), 620);
}

#[test]
fn legacy_repo_name_is_migrated_to_workspace_name_on_save() {
    let config = load("repo_name = \"Legacy Library\"\n").unwrap();
    assert_eq!(config.workspace_name(), "Legacy Library");
    let written = config.to_toml();
    assert!(written.contains("workspace_name = \"Legacy Library\""));
    assert!(!written.contains("repo_name"));
}

#[test]
fn setters_refuse_bad_values_and_keep_the_configuration() {
    let mut config = load("").unwrap();
    let before = config.clone();
    assert_eq!(config.set_workspace_name("   ").unwrap_err(), "workspace_name must not be empty");
    assert_eq!(
        config.set_rest_endpoint("ftp://x").unwrap_err(),
        "rest.endpoint must start with http:// or https://"
    );
    assert_eq!(
        config.set_csc_addr(Err("bad".to_string())).unwrap_err(),
        "csc.addr must be a socket address: bad"
    );
    assert_eq!(config, before);
    config.set_desktop_detail_width(10);
    assert_eq!(config.desktop_detail_width(), 340);
}

#[test]
fn missing_home_without_library_root_is_refused() {
    let error = LocalrefConfig::from_config_file(
        "/cfg/config.toml",
        ConfigFile::default(),
        None,
        Ok("127.0.0.1:24817".to_string()),
        Ok("127.0.0.1:23119".to_string()),
    )
    .unwrap_err();
    assert_eq!(error, "LOCALREF_CONFIG is not set and no home directory was found");
}

#[test]
fn toml_basic_strings_are_escaped() {
    assert_eq!(escape_toml_basic("a\"b\\c"), "a\\\"b\\\\c");
    assert_eq!(escape_toml_basic("line\nnext"), "line\\nnext");
}
