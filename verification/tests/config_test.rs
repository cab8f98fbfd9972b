use metalps_lib::cli_config;
use metalps_lib::exporter_config;
use metalps_lib::types::SortKey;
use metalps_lib::{LogFormat, LogLevel};

fn cli(level: Option<&str>, interval: Option<u64>, sort: Option<&str>) -> cli_config::CliRaw {
    cli_config::CliRaw {
        log_level: level.map(|s| s.to_string()),
        log_format: None,
        config: None,
        json: true,
        interval_ms: interval,
        pid: Some(42),
        sort: sort.map(|s| s.to_string()),
    }
}

#[test]
fn cli_config_defaults() {
    let c = cli_config::Config::from_cli_and_file(cli(None, None, None), cli_config::ConfigFileRaw::default())
        .unwrap();
    assert_eq!(c.log_level, LogLevel::Warn);
    assert_eq!(c.log_format, LogFormat::Text);
    assert_eq!(c.interval_ms, 1000);
    assert_eq!(c.sort, SortKey::GpuPercent);
    assert!(c.json_output);
    assert_eq!(c.pid_filter, Some(42));
}

#[test]
fn cli_config_precedence_and_minimum_interval() {
    let file = cli_config::ConfigFileRaw {
        log_level: Some("error".to_string()),
        log_format: Some("JSON".to_string()),
        interval_ms: Some(5),
        sort: Some("vram".to_string()),
    };
    let c = cli_config::Config::from_cli_and_file(cli(Some("Debug"), None, Some("pid")), file).unwrap();
    assert_eq!(c.log_level, LogLevel::Debug);
    assert_eq!(c.log_format, LogFormat::Json);
    assert_eq!(c.interval_ms, 100);
    assert_eq!(c.sort, SortKey::Pid);
}

#[test]
fn cli_config_errors() {
    let e = cli_config::Config::from_cli_and_file(cli(Some("loud"), None, None), Default::default())
        .unwrap_err();
    assert_eq!(
        e,
        cli_config::ConfigError::Validation(
            "Invalid log level: loud. Valid values are: trace, debug, info, warn, error".to_string()
        )
    );
    let file = cli_config::ConfigFileRaw { log_format: Some("xml".to_string()), ..Default::default() };
    let e = cli_config::Config::from_cli_and_file(cli(None, None, None), file).unwrap_err();
    assert_eq!(e.message(), "Configuration validation failed: Invalid log format: xml. Valid values are: text, json");
    let e = cli_config::Config::from_cli_and_file(cli(None, Some(250), Some("Size")), Default::default())
        .unwrap_err();
    assert_eq!(
        e,
        cli_config::ConfigError::Validation(
            "Unknown sort key: size. Valid values: gpu, time, vram, pid".to_string()
        )
    );
}

fn exporter_cli(listen: Option<&str>, level: Option<&str>) -> exporter_config::CliRaw {
    exporter_config::CliRaw {
        log_level: level.map(|s| s.to_string()),
        log_format: None,
        config: None,
        listen: listen.map(|s| s.to_string()),
        interval_ms: None,
    }
}

#[test]
fn test_config_defaults() {
    let config = exporter_config::Config::from_cli_and_file(
        exporter_cli(None, None),
        exporter_config::ConfigFileRaw::default(),
    )
    .unwrap();
    assert_eq!(config.interval_ms, 1000);
    assert_eq!(config.listen_address.to_string(), "127.0.0.1:9101");
    assert_eq!(config.log_level, LogLevel::Info);
    assert_eq!(config.log_format, LogFormat::Text);
}

#[test]
fn exporter_config_file_values_and_errors() {
    let file = exporter_config::ConfigFileRaw {
        log_level: Some("trace".to_string()),
        log_format: None,
        listen: Some("/run/metalps.sock".to_string()),
        interval_ms: Some(2500),
    };
    let c = exporter_config::Config::from_cli_and_file(exporter_cli(None, None), file).unwrap();
    assert_eq!(c.interval_ms, 2500);
    assert_eq!(c.log_level, LogLevel::Trace);
    assert_eq!(c.listen_address.to_string(), "/run/metalps.sock");

    let e = exporter_config::Config::from_cli_and_file(
        exporter_cli(Some("not an address"), None),
        Default::default(),
    )
    .unwrap_err();
    assert_eq!(
        e,
        exporter_config::ConfigError::InvalidListenAddress {
            address: "not an address".to_string(),
            reason: "Invalid tokio-listener address type",
        }
    );
    assert_eq!(e.message(), "Invalid listen address 'not an address': Invalid tokio-listener address type");

    let e = exporter_config::Config::from_cli_and_file(
        exporter_cli(Some("not an address"), Some("chatty")),
        Default::default(),
    )
    .unwrap_err();
    assert_eq!(
        e,
        exporter_config::ConfigError::Validation(
            "Invalid log level: chatty. Valid values are: trace, debug, info, warn, error".to_string()
        )
    );
}
