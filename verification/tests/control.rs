use halpid::control::{
    ConfigKey, StandbyRequest, ValueKey, ValueReading, config_key_from_name,
    measurement_value, parse_datetime, requires_device_access, standby_wakeup_timestamp,
    usb_apply_changes, usb_port_enabled, usb_with_port, value_key_from_name,
};
use halpid::types::{Measurements, PowerState};

#[test]
fn test_value_key_names() {
    assert_eq!(value_key_from_name("daemon_version"), Some(ValueKey::DaemonVersion));
    assert_eq!(value_key_from_name("hardware_version"), Some(ValueKey::HardwareVersion));
    assert_eq!(value_key_from_name("V_in"), Some(ValueKey::DcInVoltage));
    assert_eq!(value_key_from_name("V_cap"), Some(ValueKey::SupercapVoltage));
    assert_eq!(value_key_from_name("I_in"), Some(ValueKey::InputCurrent));
    assert_eq!(value_key_from_name("T_mcu"), Some(ValueKey::McuTemperature));
    assert_eq!(value_key_from_name("T_pcb"), Some(ValueKey::PcbTemperature));
    assert_eq!(value_key_from_name("state"), Some(ValueKey::State));
    assert_eq!(value_key_from_name("watchdog_elapsed"), Some(ValueKey::WatchdogElapsed));
    assert_eq!(value_key_from_name("invalid_key"), None);
    assert_eq!(value_key_from_name(""), None);
}

#[test]
fn test_requires_device_access() {
    assert!(!requires_device_access("daemon_version"));
    assert!(requires_device_access("hardware_version"));
    assert!(requires_device_access("firmware_version"));
    assert!(requires_device_access("device_id"));
    assert!(requires_device_access("V_in"));
    assert!(requires_device_access("state"));
    assert!(requires_device_access("watchdog_elapsed"));
    assert!(!requires_device_access("invalid_key"));
}

#[test]
fn test_config_key_names() {
    assert_eq!(config_key_from_name("watchdog_timeout"), Some(ConfigKey::WatchdogTimeout));
    assert_eq!(config_key_from_name("power_on_threshold"), Some(ConfigKey::PowerOnThreshold));
    assert_eq!(
        config_key_from_name("solo_power_off_threshold"),
        Some(ConfigKey::SoloPowerOffThreshold)
    );
    assert_eq!(config_key_from_name("led_brightness"), Some(ConfigKey::LedBrightness));
    assert_eq!(config_key_from_name("auto_restart"), Some(ConfigKey::AutoRestart));
    assert_eq!(
        config_key_from_name("solo_depleting_timeout"),
        Some(ConfigKey::SoloDepletingTimeout)
    );
    assert_eq!(config_key_from_name("bogus"), None);
}

#[test]
fn test_usb_with_port() {
    assert_eq!(usb_with_port(0b0000, 2, true), 0b0100);
    assert_eq!(usb_with_port(0b1111, 2, false), 0b1011);
    assert_eq!(usb_with_port(0b0100, 2, true), 0b0100);
    assert!(usb_port_enabled(0b0100, 2));
    assert!(!usb_port_enabled(0b0100, 0));
}

#[test]
fn test_usb_partial_update() {
    // Ports absent from the request keep their state; named ones take the
    // requested value.
    let bits = 0b0101;
    let next = usb_apply_changes(bits, None, Some(true), None, Some(false));
    assert_eq!(next, 0b0111);
    assert!(usb_port_enabled(next, 0)); // untouched, was on
    assert!(usb_port_enabled(next, 1)); // switched on
    assert!(usb_port_enabled(next, 2)); // untouched, was on
    assert!(!usb_port_enabled(next, 3)); // switched off (was off)

    let next = usb_apply_changes(bits, None, None, None, None);
    assert_eq!(next, bits);
}

#[test]
fn test_standby_with_delay() {
    let req = StandbyRequest::Delay { delay: 300 };
    assert_eq!(standby_wakeup_timestamp(&req, 1000), Ok(1300));
}

#[test]
fn test_standby_with_datetime() {
    let req = StandbyRequest::Datetime { datetime: String::from("2025-11-08T12:00:00Z") };
    assert_eq!(standby_wakeup_timestamp(&req, 0), Ok(1762603200));
}

#[test]
fn test_parse_datetime_rfc3339() {
    let result = parse_datetime("2025-11-08T12:00:00Z");
    assert!(result.is_ok());
    assert_eq!(result.unwrap(), 1762603200);
}

#[test]
fn test_parse_datetime_local_format() {
    let result = parse_datetime("2025-11-08 12:00:00");
    assert!(result.is_ok());
}

#[test]
fn test_parse_datetime_invalid() {
    let result = parse_datetime("not a date");
    assert!(result.is_err());
}

#[test]
fn test_default_socket_path_value() {
    assert_eq!(halpid::control::DEFAULT_SOCKET_PATH, "/run/halpid/halpid.sock");
}

#[test]
fn test_measurement_value_selection() {
    let m = Measurements {
        dcin_voltage: 12_000_000,
        supercap_voltage: 10_200_000,
        input_current: 1_500_000,
        mcu_temperature: 298_150_000,
        pcb_temperature: 303_150_000,
        power_state: PowerState::OperationalCoOp,
        watchdog_elapsed_ds: 25,
    };
    assert_eq!(
        measurement_value(&m, ValueKey::DcInVoltage),
        Some(ValueReading::MicroVolts(12_000_000))
    );
    assert_eq!(
        measurement_value(&m, ValueKey::McuTemperature),
        Some(ValueReading::MicroCelsius(25_000_000))
    );
    assert_eq!(
        measurement_value(&m, ValueKey::State),
        Some(ValueReading::State(PowerState::OperationalCoOp))
    );
    assert_eq!(
        measurement_value(&m, ValueKey::WatchdogElapsed),
        Some(ValueReading::Deciseconds(25))
    );
    assert_eq!(measurement_value(&m, ValueKey::DaemonVersion), None);
    assert_eq!(measurement_value(&m, ValueKey::DeviceId), None);
}
