use halpid::types::{Measurements, PowerState, Version, hex_string};

#[test]
fn test_version_release() {
    let version = Version::new(3, 1, 2);
    assert_eq!(version.display_string(), "3.1.2");
    assert!(version.is_release());
    assert!(!version.is_unavailable());
}

#[test]
fn test_version_alpha() {
    let version = Version::new_alpha(3, 1, 2, 5);
    assert_eq!(version.display_string(), "3.1.2-a5");
    assert!(!version.is_release());
    assert!(!version.is_unavailable());
}

#[test]
fn test_version_from_bytes() {
    let bytes = [3, 1, 2, 255];
    let version = Version::from_bytes(bytes);
    assert_eq!(version.display_string(), "3.1.2");

    let bytes_alpha = [3, 1, 2, 5];
    let version_alpha = Version::from_bytes(bytes_alpha);
    assert_eq!(version_alpha.display_string(), "3.1.2-a5");
}

#[test]
fn test_version_unavailable() {
    let version = Version::from_bytes([255, 0, 0, 0]);
    assert_eq!(version.display_string(), "N/A");
    assert!(version.is_unavailable());
}

#[test]
fn test_version_multi_digit_components() {
    let version = Version::new(12, 0, 255);
    assert_eq!(version.display_string(), "12.0.255");
    let version = Version::new_alpha(100, 20, 3, 0);
    assert_eq!(version.display_string(), "100.20.3-a0");
}

#[test]
fn test_power_state_from_byte() {
    assert_eq!(PowerState::from_byte(0), Some(PowerState::PowerOff));
    assert_eq!(PowerState::from_byte(3), Some(PowerState::OperationalSolo));
    assert_eq!(PowerState::from_byte(13), Some(PowerState::Standby));
    assert_eq!(PowerState::from_byte(99), None);
}

#[test]
fn test_power_state_name() {
    assert_eq!(PowerState::PowerOff.name(), "PowerOff");
    assert_eq!(PowerState::OperationalSolo.name(), "OperationalSolo");
    assert_eq!(PowerState::Standby.name(), "Standby");
}

#[test]
fn test_power_state_display() {
    assert_eq!(PowerState::PowerOff.display_string(), "PowerOff");
    assert_eq!(PowerState::OperationalCoOp.display_string(), "OperationalCoOp");
}

#[test]
fn test_measurements_temperature_conversion() {
    let measurements = Measurements {
        dcin_voltage: 12_500_000,
        supercap_voltage: 10_200_000,
        input_current: 1_500_000,
        mcu_temperature: 298_150_000,
        pcb_temperature: 303_150_000,
        power_state: PowerState::OperationalSolo,
        watchdog_elapsed_ds: 25,
    };

    assert_eq!(measurements.mcu_temperature_celsius(), 25_000_000);
    assert_eq!(measurements.pcb_temperature_celsius(), 30_000_000);
}

#[test]
fn test_hex_string() {
    assert_eq!(hex_string(&[0xbe, 0xef]), "beef");
    assert_eq!(hex_string(&[0x00, 0x01, 0x0a, 0xff]), "00010aff");
    assert_eq!(hex_string(&[]), "");
}
