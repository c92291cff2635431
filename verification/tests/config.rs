use halpid::config::Config;

#[test]
fn test_default_config() {
    let config = Config::default();
    assert_eq!(config.i2c_bus, 1);
    assert_eq!(config.i2c_addr, 0x6D);
    assert_eq!(config.blackout_time_limit_ms, 5000);
    assert_eq!(config.blackout_voltage_limit_uv, 9_000_000);
    assert_eq!(config.socket, None);
    assert_eq!(config.socket_group, "adm");
    assert_eq!(config.poweroff, "/sbin/poweroff");
}

#[test]
fn test_validate_valid_config() {
    let config = Config::default();
    assert!(config.validate().is_ok());
}

#[test]
fn test_validate_invalid_blackout_time() {
    let config = Config {
        blackout_time_limit_ms: 0,
        ..Default::default()
    };
    assert!(config.validate().is_err());

    let config = Config {
        blackout_time_limit_ms: 5_000_000,
        ..Default::default()
    };
    assert!(config.validate().is_err());
}

#[test]
fn test_validate_invalid_blackout_voltage() {
    let config = Config {
        blackout_voltage_limit_uv: 3_000_000,
        ..Default::default()
    };
    assert!(config.validate().is_err());

    let config = Config {
        blackout_voltage_limit_uv: 20_000_000,
        ..Default::default()
    };
    assert!(config.validate().is_err());
}

#[test]
fn test_validate_invalid_i2c_bus() {
    let config = Config {
        i2c_bus: 11,
        ..Default::default()
    };
    assert!(config.validate().is_err());
}

#[test]
fn test_config_merge() {
    let mut base = Config::default();
    let override_config = Config {
        i2c_bus: 3,
        blackout_time_limit_ms: 20_000,
        ..Default::default()
    };

    base.merge(override_config);

    assert_eq!(base.i2c_bus, 3);
    assert_eq!(base.blackout_time_limit_ms, 20_000);
    assert_eq!(base.socket_group, "adm"); // unchanged
}

#[test]
fn test_config_merge_keeps_explicit_fields() {
    let mut base = Config {
        socket: Some(String::from("/tmp/a.sock")),
        socket_group: String::from("users"),
        ..Default::default()
    };
    let override_config = Config::default();
    base.merge(override_config);
    // Default-valued fields in the override do not clobber explicit ones.
    assert_eq!(base.socket, Some(String::from("/tmp/a.sock")));
    assert_eq!(base.socket_group, "users");

    let override_config = Config {
        socket: Some(String::from("/tmp/b.sock")),
        poweroff: String::from(""),
        ..Default::default()
    };
    base.merge(override_config);
    assert_eq!(base.socket, Some(String::from("/tmp/b.sock")));
    assert_eq!(base.poweroff, "");
}
