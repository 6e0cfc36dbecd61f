use quiz_buzzer::app_config::{config_file_path, AppConfig};

#[test]
fn config_path_of_run_mode() {
    assert_eq!(config_file_path(Some("prod")), "../config/config_prod.toml");
    assert_eq!(config_file_path(None), "../config/config_dev.toml");
}

#[test]
fn port_is_cut_to_sixteen_bits() {
    let config = AppConfig { host_ip: "127.0.0.1".to_string(), host_port: 8000 };
    assert_eq!(config.port(), 8000);
    let config = AppConfig { host_ip: "127.0.0.1".to_string(), host_port: 65536 + 80 };
    assert_eq!(config.port(), 80);
    let config = AppConfig { host_ip: "127.0.0.1".to_string(), host_port: -1 };
    assert_eq!(config.port(), 65535);
}
