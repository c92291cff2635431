//! Decision logic of the control plane.
//!
//! The HTTP layer of the application crate does nothing but move JSON in
//! and out; which key names which value, how a controller-side
//! configuration write is dispatched and range-checked, how the USB
//! bitmask is edited read-modify-write, and how a standby wakeup time is
//! computed are all decided here.

use vstd::prelude::*;

use crate::bus::Tx;
use crate::device::{HalpiDevice, spec_logged_analog_read, spec_read, spec_wrote};
use crate::errors::I2cError;
use crate::protocol;
use crate::protocol::{spec_encode_u32, spec_encode_word, spec_micro_to_analog_word};

verus! {

/// Default path of the UNIX control socket.
pub const DEFAULT_SOCKET_PATH: &'static str = "/run/halpid/halpid.sock";

/// Relies on str's PartialEq: two string slices are equal exactly when
/// their character sequences are.
#[verifier::external_body]
fn str_eq(a: &str, b: &str) -> (r: bool)
    ensures
        r == (a@ == b@),
{
    a == b
}

// ============================================================================
// Value keys
// ============================================================================

/// The values the control plane can report.
#[derive(Debug, Clone, Copy, PartialEq, Eq, Structural)]
pub enum ValueKey {
    DaemonVersion,
    HardwareVersion,
    FirmwareVersion,
    DeviceId,
    DcInVoltage,
    SupercapVoltage,
    InputCurrent,
    McuTemperature,
    PcbTemperature,
    State,
    WatchdogElapsed,
}

/// The value key a request path names, if any. The names are the stable
/// key set of the values endpoint.
pub open spec fn spec_value_key(s: Seq<char>) -> Option<ValueKey> {
    if s == "daemon_version"@ { Some(ValueKey::DaemonVersion) }
    else if s == "hardware_version"@ { Some(ValueKey::HardwareVersion) }
    else if s == "firmware_version"@ { Some(ValueKey::FirmwareVersion) }
    else if s == "device_id"@ { Some(ValueKey::DeviceId) }
    else if s == "V_in"@ { Some(ValueKey::DcInVoltage) }
    else if s == "V_cap"@ { Some(ValueKey::SupercapVoltage) }
    else if s == "I_in"@ { Some(ValueKey::InputCurrent) }
    else if s == "T_mcu"@ { Some(ValueKey::McuTemperature) }
    else if s == "T_pcb"@ { Some(ValueKey::PcbTemperature) }
    else if s == "state"@ { Some(ValueKey::State) }
    else if s == "watchdog_elapsed"@ { Some(ValueKey::WatchdogElapsed) }
    else { None }
}

/// Resolve a request path to a value key; unknown keys are absent.
pub fn value_key_from_name(key: &str) -> (r: Option<ValueKey>)
    ensures
        r == spec_value_key(key@),
{
    if str_eq(key, "daemon_version") { Some(ValueKey::DaemonVersion) }
    else if str_eq(key, "hardware_version") { Some(ValueKey::HardwareVersion) }
    else if str_eq(key, "firmware_version") { Some(ValueKey::FirmwareVersion) }
    else if str_eq(key, "device_id") { Some(ValueKey::DeviceId) }
    else if str_eq(key, "V_in") { Some(ValueKey::DcInVoltage) }
    else if str_eq(key, "V_cap") { Some(ValueKey::SupercapVoltage) }
    else if str_eq(key, "I_in") { Some(ValueKey::InputCurrent) }
    else if str_eq(key, "T_mcu") { Some(ValueKey::McuTemperature) }
    else if str_eq(key, "T_pcb") { Some(ValueKey::PcbTemperature) }
    else if str_eq(key, "state") { Some(ValueKey::State) }
    else if str_eq(key, "watchdog_elapsed") { Some(ValueKey::WatchdogElapsed) }
    else { None }
}

/// Whether answering for this key takes a device transaction; the daemon
/// version is the one value answered from the process itself, and unknown
/// keys take none.
pub fn requires_device_access(key: &str) -> (r: bool)
    ensures
        r == (spec_value_key(key@) matches Some(k) && k != ValueKey::DaemonVersion),
{
    match value_key_from_name(key) {
        Some(ValueKey::DaemonVersion) => false,
        Some(_) => true,
        None => false,
    }
}

/// One value as the control plane reports it, in the library's units.
#[derive(Debug, Clone, Copy, PartialEq, Eq, Structural)]
pub enum ValueReading {
    MicroVolts(u32),
    MicroAmps(u32),
    MicroCelsius(i64),
    State(crate::types::PowerState),
    /// Watchdog elapsed time, tenths of a second
    Deciseconds(u8),
}

/// The reading a measurement snapshot holds for a value key; keys answered
/// from somewhere other than the snapshot (versions, the device id, the
/// daemon version) have none.
pub open spec fn spec_measurement_value(m: crate::types::Measurements, key: ValueKey)
    -> Option<ValueReading> {
    match key {
        ValueKey::DcInVoltage => Some(ValueReading::MicroVolts(m.dcin_voltage)),
        ValueKey::SupercapVoltage => Some(ValueReading::MicroVolts(m.supercap_voltage)),
        ValueKey::InputCurrent => Some(ValueReading::MicroAmps(m.input_current)),
        ValueKey::McuTemperature => Some(ValueReading::MicroCelsius(
            (m.mcu_temperature - crate::protocol::KELVIN_OFFSET_U) as i64)),
        ValueKey::PcbTemperature => Some(ValueReading::MicroCelsius(
            (m.pcb_temperature - crate::protocol::KELVIN_OFFSET_U) as i64)),
        ValueKey::State => Some(ValueReading::State(m.power_state)),
        ValueKey::WatchdogElapsed => Some(ValueReading::Deciseconds(m.watchdog_elapsed_ds)),
        _ => None,
    }
}

/// Select the reading a value key names from a measurement snapshot;
/// temperatures come out in microdegrees Celsius.
pub fn measurement_value(m: &crate::types::Measurements, key: ValueKey)
    -> (r: Option<ValueReading>)
    ensures
        r == spec_measurement_value(*m, key),
{
    match key {
        ValueKey::DcInVoltage => Some(ValueReading::MicroVolts(m.dcin_voltage)),
        ValueKey::SupercapVoltage => Some(ValueReading::MicroVolts(m.supercap_voltage)),
        ValueKey::InputCurrent => Some(ValueReading::MicroAmps(m.input_current)),
        ValueKey::McuTemperature => Some(ValueReading::MicroCelsius(m.mcu_temperature_celsius())),
        ValueKey::PcbTemperature => Some(ValueReading::MicroCelsius(m.pcb_temperature_celsius())),
        ValueKey::State => Some(ValueReading::State(m.power_state)),
        ValueKey::WatchdogElapsed => Some(ValueReading::Deciseconds(m.watchdog_elapsed_ds)),
        _ => None,
    }
}

// ============================================================================
// Controller-side configuration
// ============================================================================

/// The controller-held configuration values the control plane can read and
/// write.
#[derive(Debug, Clone, Copy, PartialEq, Eq, Structural)]
pub enum ConfigKey {
    /// Watchdog timeout, milliseconds
    WatchdogTimeout,
    /// Power-on threshold, microvolts
    PowerOnThreshold,
    /// Solo power-off threshold, microvolts
    SoloPowerOffThreshold,
    /// LED brightness, 0-255
    LedBrightness,
    /// Auto-restart flag
    AutoRestart,
    /// Solo-depleting timeout, milliseconds
    SoloDepletingTimeout,
}

/// A plain value offered for a configuration write: an unsigned number in
/// the key's unit, or a boolean.
#[derive(Debug, Clone, Copy, PartialEq, Eq, Structural)]
pub enum ConfigValue {
    Unsigned(u64),
    Flag(bool),
}

/// The configuration key a request path names, if any.
pub open spec fn spec_config_key(s: Seq<char>) -> Option<ConfigKey> {
    if s == "watchdog_timeout"@ { Some(ConfigKey::WatchdogTimeout) }
    else if s == "power_on_threshold"@ { Some(ConfigKey::PowerOnThreshold) }
    else if s == "solo_power_off_threshold"@ { Some(ConfigKey::SoloPowerOffThreshold) }
    else if s == "led_brightness"@ { Some(ConfigKey::LedBrightness) }
    else if s == "auto_restart"@ { Some(ConfigKey::AutoRestart) }
    else if s == "solo_depleting_timeout"@ { Some(ConfigKey::SoloDepletingTimeout) }
    else { None }
}

/// Resolve a request path to a configuration key; unknown keys are absent.
pub fn config_key_from_name(key: &str) -> (r: Option<ConfigKey>)
    ensures
        r == spec_config_key(key@),
{
    if str_eq(key, "watchdog_timeout") { Some(ConfigKey::WatchdogTimeout) }
    else if str_eq(key, "power_on_threshold") { Some(ConfigKey::PowerOnThreshold) }
    else if str_eq(key, "solo_power_off_threshold") { Some(ConfigKey::SoloPowerOffThreshold) }
    else if str_eq(key, "led_brightness") { Some(ConfigKey::LedBrightness) }
    else if str_eq(key, "auto_restart") { Some(ConfigKey::AutoRestart) }
    else if str_eq(key, "solo_depleting_timeout") { Some(ConfigKey::SoloDepletingTimeout) }
    else { None }
}

/// A value fits a key: the right shape, and within the register's range.
pub open spec fn spec_config_value_fits(key: ConfigKey, value: ConfigValue) -> bool {
    match key {
        ConfigKey::WatchdogTimeout => value matches ConfigValue::Unsigned(v) && v <= u16::MAX,
        ConfigKey::PowerOnThreshold => value matches ConfigValue::Unsigned(v)
            && v <= u32::MAX,
        ConfigKey::SoloPowerOffThreshold => value matches ConfigValue::Unsigned(v)
            && v <= u32::MAX,
        ConfigKey::LedBrightness => value matches ConfigValue::Unsigned(v) && v <= 255,
        ConfigKey::AutoRestart => value is Flag,
        ConfigKey::SoloDepletingTimeout => value matches ConfigValue::Unsigned(v)
            && v <= u32::MAX,
    }
}

/// The register a configuration key lives in.
pub open spec fn spec_config_reg(key: ConfigKey) -> u8 {
    match key {
        ConfigKey::WatchdogTimeout => protocol::REG_WATCHDOG_TIMEOUT,
        ConfigKey::PowerOnThreshold => protocol::REG_POWER_ON_THRESHOLD,
        ConfigKey::SoloPowerOffThreshold => protocol::REG_SOLO_POWEROFF_THRESHOLD,
        ConfigKey::LedBrightness => protocol::REG_LED_BRIGHTNESS,
        ConfigKey::AutoRestart => protocol::REG_AUTO_RESTART,
        ConfigKey::SoloDepletingTimeout => protocol::REG_SOLO_DEPLETING_TIMEOUT,
    }
}

/// The payload a fitting value is written as: thresholds are scaled to the
/// supercap full scale, the rest are encoded in their register's width.
pub open spec fn spec_config_payload(key: ConfigKey, value: ConfigValue) -> Seq<u8>
    recommends
        spec_config_value_fits(key, value),
{
    match key {
        ConfigKey::WatchdogTimeout => spec_encode_word(value->Unsigned_0 as u16),
        ConfigKey::PowerOnThreshold => spec_encode_word(spec_micro_to_analog_word(
            value->Unsigned_0 as u32, protocol::VCAP_MAX_UV)),
        ConfigKey::SoloPowerOffThreshold => spec_encode_word(spec_micro_to_analog_word(
            value->Unsigned_0 as u32, protocol::VCAP_MAX_UV)),
        ConfigKey::LedBrightness => seq![value->Unsigned_0 as u8],
        ConfigKey::AutoRestart => seq![if value->Flag_0 { 1u8 } else { 0u8 }],
        ConfigKey::SoloDepletingTimeout => spec_encode_u32(value->Unsigned_0 as u32),
    }
}

/// Errors of a control-plane request.
#[derive(Debug, Clone, Copy, PartialEq, Eq, Structural)]
pub enum ControlError {
    /// The offered value has the wrong shape or is out of range
    InvalidValue,
    /// The device transaction failed
    Bus(I2cError),
}

/// Write one controller-side configuration value.
///
/// A value of the wrong shape or out of range is rejected without touching
/// the bus; otherwise exactly one write operation of the key's register
/// with the encoded payload runs.
pub fn put_config_value(dev: &mut HalpiDevice, key: ConfigKey, value: ConfigValue)
    -> (r: Result<(), ControlError>)
    ensures
        crate::bus::spec_prefix(final(dev)@, old(dev)@),
        final(dev).firmware_cache() == old(dev).firmware_cache(),
        !spec_config_value_fits(key, value) ==> r == Result::<(), ControlError>::Err(
            ControlError::InvalidValue) && final(dev)@ == old(dev)@,
        spec_config_value_fits(key, value) ==> spec_wrote(old(dev)@, final(dev)@,
            spec_config_reg(key), spec_config_payload(key, value), r is Ok),
        spec_config_value_fits(key, value) && r is Err ==> r == Result::<(), ControlError>::Err(
            ControlError::Bus(I2cError::Write { reg: spec_config_reg(key) })),
    {
        proof {
            assert(old(dev)@.subrange(0, old(dev)@.len() as int) =~= old(dev)@);
        }
        let outcome: Result<(), I2cError> = match key {
            ConfigKey::WatchdogTimeout => {
                match value {
                    ConfigValue::Unsigned(v) => {
                        if v <= u16::MAX as u64 {
                            dev.set_watchdog_timeout(v as u16)
                        } else {
                            return Err(ControlError::InvalidValue);
                        }
                    },
                    _ => { return Err(ControlError::InvalidValue); },
                }
            },
            ConfigKey::PowerOnThreshold => {
                match value {
                    ConfigValue::Unsigned(v) => {
                        if v <= u32::MAX as u64 {
                            dev.set_power_on_threshold(v as u32)
                        } else {
                            return Err(ControlError::InvalidValue);
                        }
                    },
                    _ => { return Err(ControlError::InvalidValue); },
                }
            },
            ConfigKey::SoloPowerOffThreshold => {
                match value {
                    ConfigValue::Unsigned(v) => {
                        if v <= u32::MAX as u64 {
                            dev.set_solo_power_off_threshold(v as u32)
                        } else {
                            return Err(ControlError::InvalidValue);
                        }
                    },
                    _ => { return Err(ControlError::InvalidValue); },
                }
            },
            ConfigKey::LedBrightness => {
                match value {
                    ConfigValue::Unsigned(v) => {
                        if v <= 255 {
                            dev.set_led_brightness(v as u8)
                        } else {
                            return Err(ControlError::InvalidValue);
                        }
                    },
                    _ => { return Err(ControlError::InvalidValue); },
                }
            },
            ConfigKey::AutoRestart => {
                match value {
                    ConfigValue::Flag(b) => dev.set_auto_restart(b),
                    _ => { return Err(ControlError::InvalidValue); },
                }
            },
            ConfigKey::SoloDepletingTimeout => {
                match value {
                    ConfigValue::Unsigned(v) => {
                        if v <= u32::MAX as u64 {
                            dev.set_solo_depleting_timeout(v as u32)
                        } else {
                            return Err(ControlError::InvalidValue);
                        }
                    },
                    _ => { return Err(ControlError::InvalidValue); },
                }
            },
        };
        match outcome {
            Ok(_) => Ok(()),
            Err(_) => Err(ControlError::Bus(I2cError::Write { reg: config_reg(key) })),
        }
    }

/// The register a configuration key lives in.
fn config_reg(key: ConfigKey) -> (r: u8)
    ensures
        r == spec_config_reg(key),
{
    match key {
        ConfigKey::WatchdogTimeout => protocol::REG_WATCHDOG_TIMEOUT,
        ConfigKey::PowerOnThreshold => protocol::REG_POWER_ON_THRESHOLD,
        ConfigKey::SoloPowerOffThreshold => protocol::REG_SOLO_POWEROFF_THRESHOLD,
        ConfigKey::LedBrightness => protocol::REG_LED_BRIGHTNESS,
        ConfigKey::AutoRestart => protocol::REG_AUTO_RESTART,
        ConfigKey::SoloDepletingTimeout => protocol::REG_SOLO_DEPLETING_TIMEOUT,
    }
}

/// Read one controller-side configuration value, in the key's unit.
pub fn get_config_value(dev: &mut HalpiDevice, key: ConfigKey)
    -> (r: Result<ConfigValue, I2cError>)
    ensures
        crate::bus::spec_prefix(final(dev)@, old(dev)@),
        final(dev).firmware_cache() == old(dev).firmware_cache(),
        r matches Ok(v) ==> match key {
            ConfigKey::WatchdogTimeout => v matches ConfigValue::Unsigned(n) && n <= u16::MAX
                && spec_read(old(dev)@, final(dev)@, protocol::REG_WATCHDOG_TIMEOUT,
                    spec_encode_word(n as u16), true),
            ConfigKey::PowerOnThreshold => v matches ConfigValue::Unsigned(n)
                && n < protocol::VCAP_MAX_UV && spec_logged_analog_read(final(dev)@,
                    old(dev)@.len() as int, protocol::REG_POWER_ON_THRESHOLD,
                    protocol::VCAP_MAX_UV, n as u32),
            ConfigKey::SoloPowerOffThreshold => v matches ConfigValue::Unsigned(n)
                && n < protocol::VCAP_MAX_UV && spec_logged_analog_read(final(dev)@,
                    old(dev)@.len() as int, protocol::REG_SOLO_POWEROFF_THRESHOLD,
                    protocol::VCAP_MAX_UV, n as u32),
            ConfigKey::LedBrightness => v matches ConfigValue::Unsigned(n) && n <= 255
                && spec_read(old(dev)@, final(dev)@, protocol::REG_LED_BRIGHTNESS,
                    seq![n as u8], true),
            ConfigKey::AutoRestart => v matches ConfigValue::Flag(on)
                && (final(dev)@.last() matches crate::bus::Tx::WriteRead { reg, data, ok }
                    && reg == protocol::REG_AUTO_RESTART && ok && data.len() == 1
                    && on == (data[0] != 0)),
            ConfigKey::SoloDepletingTimeout => v matches ConfigValue::Unsigned(n)
                && n <= u32::MAX && spec_read(old(dev)@, final(dev)@,
                    protocol::REG_SOLO_DEPLETING_TIMEOUT, spec_encode_u32(n as u32), true),
        },
        r matches Err(e) ==> e == (I2cError::Read { reg: spec_config_reg(key) }),
{
    match key {
        ConfigKey::WatchdogTimeout => {
            match dev.get_watchdog_timeout() {
                Ok(v) => Ok(ConfigValue::Unsigned(v as u64)),
                Err(e) => Err(e),
            }
        },
        ConfigKey::PowerOnThreshold => {
            match dev.get_power_on_threshold() {
                Ok(v) => Ok(ConfigValue::Unsigned(v as u64)),
                Err(e) => Err(e),
            }
        },
        ConfigKey::SoloPowerOffThreshold => {
            match dev.get_solo_power_off_threshold() {
                Ok(v) => Ok(ConfigValue::Unsigned(v as u64)),
                Err(e) => Err(e),
            }
        },
        ConfigKey::LedBrightness => {
            match dev.get_led_brightness() {
                Ok(v) => Ok(ConfigValue::Unsigned(v as u64)),
                Err(e) => Err(e),
            }
        },
        ConfigKey::AutoRestart => {
            match dev.get_auto_restart() {
                Ok(v) => Ok(ConfigValue::Flag(v)),
                Err(e) => Err(e),
            }
        },
        ConfigKey::SoloDepletingTimeout => {
            match dev.get_solo_depleting_timeout() {
                Ok(v) => Ok(ConfigValue::Unsigned(v as u64)),
                Err(e) => Err(e),
            }
        },
    }
}

// ============================================================================
// USB port bitmask edits
// ============================================================================

/// Whether a port's bit is set in the bitmask.
pub open spec fn spec_usb_bit(bits: u8, port: u8) -> bool
    recommends
        port < 4,
{
    bits & (1u8 << port) != 0
}

/// The bitmask with one port's bit forced to a value.
pub open spec fn spec_usb_with_port(bits: u8, port: u8, enabled: bool) -> u8
    recommends
        port < 4,
{
    if enabled { bits | (1u8 << port) } else { bits & !(1u8 << port) }
}

/// Whether a port is enabled in the bitmask.
pub fn usb_port_enabled(bits: u8, port: u8) -> (r: bool)
    requires
        port < 4,
    ensures
        r == spec_usb_bit(bits, port),
{
    bits & (1u8 << port) != 0
}

/// Force one port's bit in the bitmask; the other ports are untouched.
pub fn usb_with_port(bits: u8, port: u8, enabled: bool) -> (r: u8)
    requires
        port < 4,
    ensures
        r == spec_usb_with_port(bits, port, enabled),
        spec_usb_bit(r, port) == enabled,
        forall|p: u8| p < 4 && p != port ==> spec_usb_bit(r, p) == spec_usb_bit(bits, p),
{
    let r: u8 = if enabled { bits | (1u8 << port) } else { bits & !(1u8 << port) };
    proof {
        assert((if enabled { bits | (1u8 << port) } else { bits & !(1u8 << port) }) & (1u8
            << port) == (if enabled { 1u8 << port } else { 0u8 })) by (bit_vector);
        assert(1u8 << port != 0) by (bit_vector)
            requires port < 4;
        assert forall|p: u8| p < 4 && p != port implies spec_usb_bit(r, p) == spec_usb_bit(
            bits, p) by {
            assert((if enabled { bits | (1u8 << port) } else { bits & !(1u8 << port) }) & (1u8
                << p) == bits & (1u8 << p)) by (bit_vector)
                requires p < 4 && port < 4 && p != port;
        }
    }
    r
}

/// Apply a partial update to the bitmask: each port named in the request
/// is forced to its requested value, and every port not named keeps its
/// current state, so independent clients controlling different ports do
/// not clobber each other.
pub fn usb_apply_changes(bits: u8, usb0: Option<bool>, usb1: Option<bool>, usb2: Option<bool>,
    usb3: Option<bool>) -> (r: u8)
    ensures
        spec_usb_bit(r, 0) == (match usb0 { Some(b) => b, None => spec_usb_bit(bits, 0) }),
        spec_usb_bit(r, 1) == (match usb1 { Some(b) => b, None => spec_usb_bit(bits, 1) }),
        spec_usb_bit(r, 2) == (match usb2 { Some(b) => b, None => spec_usb_bit(bits, 2) }),
        spec_usb_bit(r, 3) == (match usb3 { Some(b) => b, None => spec_usb_bit(bits, 3) }),
{
    let mut r = bits;
    if let Some(b) = usb0 {
        r = usb_with_port(r, 0, b);
    }
    if let Some(b) = usb1 {
        r = usb_with_port(r, 1, b);
    }
    if let Some(b) = usb2 {
        r = usb_with_port(r, 2, b);
    }
    if let Some(b) = usb3 {
        r = usb_with_port(r, 3, b);
    }
    r
}

/// A read-modify-write of the USB bitmask stands in the history: a
/// successful read carried the old mask, and the last entry writes it back
/// with the one port forced and the other three ports carried over
/// unchanged.
pub open spec fn spec_usb_rmw(h_old: Seq<Tx>, h_new: Seq<Tx>, port: u8, enabled: bool)
    -> bool {
    exists|i: int, cur: u8|
        #![trigger h_new[i], spec_usb_with_port(cur, port, enabled)]
        h_old.len() <= i < h_new.len() && h_new[i] == (crate::bus::Tx::WriteRead {
            reg: protocol::REG_USB_PORT_STATE, data: seq![cur], ok: true })
        && h_new.last() == (crate::bus::Tx::Write {
            reg: protocol::REG_USB_PORT_STATE,
            data: seq![spec_usb_with_port(cur, port, enabled) & 0x0F],
            ok: true,
        })
}

/// Read-modify-write one USB port: read the current bitmask, force the one
/// bit, write the result back. Ports other than the named one keep the
/// read-back state, so independent clients do not clobber each other.
pub fn set_usb_port(dev: &mut HalpiDevice, port: u8, enabled: bool) -> (r: Result<(), I2cError>)
    requires
        port < 4,
    ensures
        crate::bus::spec_prefix(final(dev)@, old(dev)@),
        final(dev).firmware_cache() == old(dev).firmware_cache(),
        r is Ok ==> spec_usb_rmw(old(dev)@, final(dev)@, port, enabled),
        r is Ok ==> (final(dev)@.last() matches crate::bus::Tx::Write { reg, data, ok }
            && reg == protocol::REG_USB_PORT_STATE && ok && data.len() == 1
            && spec_usb_bit(data[0], port) == enabled),
        r matches Err(e) ==> (e == (I2cError::Read { reg: protocol::REG_USB_PORT_STATE })
            || e == (I2cError::Write { reg: protocol::REG_USB_PORT_STATE })),
{
    let cur = match dev.get_usb_port_state() {
        Ok(b) => b,
        Err(e) => { return Err(e); },
    };
    let ghost h1 = dev@;
    let next = usb_with_port(cur, port, enabled);
    proof {
        assert((next & 0x0F) & (1u8 << port) == next & (1u8 << port)) by (bit_vector)
            requires port < 4;
    }
    let r = dev.set_usb_port_state(next);
    proof {
        crate::bus::lemma_prefix_trans(old(dev)@, h1, dev@);
        if r is Ok {
            crate::bus::lemma_prefix_preserves_index(h1, dev@, h1.len() - 1);
            assert(dev@[h1.len() - 1] == (crate::bus::Tx::WriteRead {
                reg: protocol::REG_USB_PORT_STATE, data: seq![cur], ok: true }));
            assert(dev@.last() == (crate::bus::Tx::Write {
                reg: protocol::REG_USB_PORT_STATE,
                data: seq![spec_usb_with_port(cur, port, enabled) & 0x0F], ok: true }));
        }
    }
    r
}

// ============================================================================
// Standby wakeup time
// ============================================================================

/// Request body of the standby endpoint: a delay in seconds, or an
/// ISO 8601 datetime.
#[derive(Debug, Clone, PartialEq, Eq)]
pub enum StandbyRequest {
    /// Standby with delay in seconds
    Delay { delay: u32 },
    /// Standby with specific datetime (ISO 8601 format)
    Datetime { datetime: String },
}

/// The Unix timestamp an RFC 3339 datetime denotes, if it parses: a
/// function of the characters alone. Its value is stated nowhere; the
/// tests hold it to the chrono crate.
pub uninterp spec fn rfc3339_timestamp(s: Seq<char>) -> Option<i64>;

/// Relies on chrono's DateTime::parse_from_rfc3339: parses an RFC 3339
/// datetime, whose timestamp is a function of the characters alone.
#[verifier::external_body]
fn parse_rfc3339_secs(s: &str) -> (r: Option<i64>)
    ensures
        r == rfc3339_timestamp(s@),
{
    chrono::DateTime::parse_from_rfc3339(s).ok().map(|dt| dt.timestamp())
}

/// Relies on chrono's NaiveDateTime parsing and Local.from_local_datetime:
/// interprets "YYYY-MM-DD HH:MM:SS" in the machine's local time zone, so
/// the result depends on the environment and nothing is promised of it.
#[verifier::external_body]
fn parse_local_naive_secs(s: &str) -> (r: Option<i64>) {
    let dt = chrono::NaiveDateTime::parse_from_str(s, "%Y-%m-%d %H:%M:%S").ok()?;
    match chrono::TimeZone::from_local_datetime(&chrono::Local, &dt) {
        chrono::LocalResult::Single(d) => Some(d.timestamp()),
        _ => None,
    }
}

/// Parse a datetime string to a Unix timestamp: RFC 3339 first, then the
/// plain "YYYY-MM-DD HH:MM:SS" local form. Timestamps before 1970 and
/// strings that parse as neither are rejected.
///
/// When the string is no RFC 3339 datetime, the fallback depends on the
/// machine's time zone, so all that is stated of it: either the local
/// parse yielded a non-negative timestamp, which is returned, or the one
/// rejection error comes back.
pub fn parse_datetime(datetime: &str) -> (r: Result<u64, ControlError>)
    ensures
        match rfc3339_timestamp(datetime@) {
            Some(t) => {
                &&& t >= 0 ==> r == Result::<u64, ControlError>::Ok(t as u64)
                &&& t < 0 ==> r == Result::<u64, ControlError>::Err(ControlError::InvalidValue)
            },
            None => r is Ok || r == Result::<u64, ControlError>::Err(
                ControlError::InvalidValue),
        },
{
    match parse_rfc3339_secs(datetime) {
        Some(t) => {
            if t >= 0 {
                Ok(t as u64)
            } else {
                Err(ControlError::InvalidValue)
            }
        },
        None => {
            match parse_local_naive_secs(datetime) {
                Some(t) => {
                    if t >= 0 {
                        Ok(t as u64)
                    } else {
                        Err(ControlError::InvalidValue)
                    }
                },
                None => Err(ControlError::InvalidValue),
            }
        },
    }
}

/// The wakeup Unix timestamp of a standby request: now plus the delay, or
/// the parsed datetime. A delay that would overflow the clock is
/// rejected.
pub fn standby_wakeup_timestamp(req: &StandbyRequest, now_secs: u64)
    -> (r: Result<u64, ControlError>)
    ensures
        match *req {
            StandbyRequest::Delay { delay } => {
                &&& now_secs + delay <= u64::MAX ==> r == Result::<u64, ControlError>::Ok(
                    (now_secs + delay) as u64)
                &&& now_secs + delay > u64::MAX ==> r == Result::<u64, ControlError>::Err(
                    ControlError::InvalidValue)
            },
            StandbyRequest::Datetime { ref datetime } => match rfc3339_timestamp(datetime@) {
                Some(t) => {
                    &&& t >= 0 ==> r == Result::<u64, ControlError>::Ok(t as u64)
                    &&& t < 0 ==> r == Result::<u64, ControlError>::Err(
                        ControlError::InvalidValue)
                },
                None => r is Ok || r == Result::<u64, ControlError>::Err(
                    ControlError::InvalidValue),
            },
        },
{
    match req {
        StandbyRequest::Delay { delay } => {
            let d: u64 = *delay as u64;
            if now_secs <= u64::MAX - d {
                Ok(now_secs + d)
            } else {
                Err(ControlError::InvalidValue)
            }
        },
        StandbyRequest::Datetime { datetime } => parse_datetime(datetime.as_str()),
    }
}

} // verus!
