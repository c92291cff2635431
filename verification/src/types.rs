//! Core data types shared by the daemon and its clients: version
//! information, the power-state enum as clients see it, and combined sensor
//! readings.
//!
//! Analog quantities are carried in integer micro-units (microvolts,
//! microamperes, microkelvin); clients convert to display units at the edge.

use vstd::prelude::*;
use vstd::string::StringExecFns;

use crate::protocol::KELVIN_OFFSET_U;

verus! {

// ============================================================================
// Decimal rendering of small numbers
// ============================================================================

/// The character for one decimal digit.
pub open spec fn spec_digit_char(d: u8) -> Seq<char>
    recommends
        d < 10,
{
    if d == 0 { "0"@ }
    else if d == 1 { "1"@ }
    else if d == 2 { "2"@ }
    else if d == 3 { "3"@ }
    else if d == 4 { "4"@ }
    else if d == 5 { "5"@ }
    else if d == 6 { "6"@ }
    else if d == 7 { "7"@ }
    else if d == 8 { "8"@ }
    else { "9"@ }
}

/// The decimal rendering of a byte, without leading zeroes.
pub open spec fn spec_decimal(n: u8) -> Seq<char> {
    if n < 10 {
        spec_digit_char(n)
    } else if n < 100 {
        spec_digit_char((n / 10) as u8) + spec_digit_char((n % 10) as u8)
    } else {
        spec_digit_char((n / 100) as u8) + spec_digit_char(((n / 10) % 10) as u8)
            + spec_digit_char((n % 10) as u8)
    }
}

/// One decimal digit as a string slice.
fn digit_str(d: u8) -> (r: &'static str)
    requires
        d < 10,
    ensures
        r@ == spec_digit_char(d),
{
    if d == 0 { "0" }
    else if d == 1 { "1" }
    else if d == 2 { "2" }
    else if d == 3 { "3" }
    else if d == 4 { "4" }
    else if d == 5 { "5" }
    else if d == 6 { "6" }
    else if d == 7 { "7" }
    else if d == 8 { "8" }
    else { "9" }
}

/// Append the decimal rendering of a byte to a string.
fn append_decimal(s: &mut String, n: u8)
    ensures
        final(s)@ == old(s)@ + spec_decimal(n),
{
    if n >= 100 {
        s.append(digit_str(n / 100));
        s.append(digit_str((n / 10) % 10));
        s.append(digit_str(n % 10));
    } else if n >= 10 {
        s.append(digit_str(n / 10));
        s.append(digit_str(n % 10));
    } else {
        s.append(digit_str(n));
    }
    assert(s@ =~= old(s)@ + spec_decimal(n));
}

// ============================================================================
// Hexadecimal rendering
// ============================================================================

/// The character pair for one byte in lower-case hexadecimal.
pub open spec fn spec_hex_nibble(d: u8) -> Seq<char>
    recommends
        d < 16,
{
    if d == 0 { "0"@ }
    else if d == 1 { "1"@ }
    else if d == 2 { "2"@ }
    else if d == 3 { "3"@ }
    else if d == 4 { "4"@ }
    else if d == 5 { "5"@ }
    else if d == 6 { "6"@ }
    else if d == 7 { "7"@ }
    else if d == 8 { "8"@ }
    else if d == 9 { "9"@ }
    else if d == 10 { "a"@ }
    else if d == 11 { "b"@ }
    else if d == 12 { "c"@ }
    else if d == 13 { "d"@ }
    else if d == 14 { "e"@ }
    else { "f"@ }
}

/// The lower-case hexadecimal rendering of a byte sequence, two characters
/// per byte.
pub open spec fn spec_hex(data: Seq<u8>) -> Seq<char>
    decreases data.len(),
{
    if data.len() == 0 {
        Seq::empty()
    } else {
        spec_hex_nibble(data[0] / 16) + spec_hex_nibble(data[0] % 16) + spec_hex(data.skip(1))
    }
}

/// One hexadecimal digit as a string slice.
fn hex_nibble_str(d: u8) -> (r: &'static str)
    requires
        d < 16,
    ensures
        r@ == spec_hex_nibble(d),
{
    if d == 0 { "0" }
    else if d == 1 { "1" }
    else if d == 2 { "2" }
    else if d == 3 { "3" }
    else if d == 4 { "4" }
    else if d == 5 { "5" }
    else if d == 6 { "6" }
    else if d == 7 { "7" }
    else if d == 8 { "8" }
    else if d == 9 { "9" }
    else if d == 10 { "a" }
    else if d == 11 { "b" }
    else if d == 12 { "c" }
    else if d == 13 { "d" }
    else if d == 14 { "e" }
    else { "f" }
}

/// Render a byte sequence in lower-case hexadecimal.
pub fn hex_string(data: &[u8]) -> (r: String)
    ensures
        r@ == spec_hex(data@),
{
    let mut s = String::new();
    let n = data.len();
    proof {
        assert(data@.skip(0) =~= data@);
    }
    for i in 0..n
        invariant
            n == data@.len(),
            spec_hex(data@) =~= s@ + spec_hex(data@.skip(i as int)),
    {
        s.append(hex_nibble_str(data[i] / 16));
        s.append(hex_nibble_str(data[i] % 16));
        proof {
            assert(data@.skip(i as int)[0] == data@[i as int]);
            assert(data@.skip(i as int).skip(1) =~= data@.skip(i + 1));
        }
    }
    proof {
        assert(data@.skip(n as int) =~= Seq::<u8>::empty());
        assert(s@ =~= spec_hex(data@));
    }
    s
}

// ============================================================================
// Version
// ============================================================================

/// Version information for hardware or firmware.
///
/// Format: major.minor.patch[-alpha]. An alpha byte of 255 marks a release
/// build; a major byte of 255 marks a version the controller could not
/// report.
#[derive(Debug, Clone, PartialEq, Eq, Structural)]
pub struct Version {
    pub major: u8,
    pub minor: u8,
    pub patch: u8,
    /// Alpha version number, or 255 for release versions
    pub alpha: u8,
}

/// The four wire bytes of a version, as the version registers carry them.
pub open spec fn spec_version_bytes(v: Version) -> Seq<u8> {
    seq![v.major, v.minor, v.patch, v.alpha]
}

/// The display rendering of a version.
pub open spec fn spec_version_string(v: Version) -> Seq<char> {
    if v.major == 255 {
        "N/A"@
    } else if v.alpha == 255 {
        spec_decimal(v.major) + "."@ + spec_decimal(v.minor) + "."@ + spec_decimal(v.patch)
    } else {
        spec_decimal(v.major) + "."@ + spec_decimal(v.minor) + "."@ + spec_decimal(v.patch)
            + "-a"@ + spec_decimal(v.alpha)
    }
}

impl Version {
    /// Create a version from the four raw bytes read over I2C.
    pub fn from_bytes(bytes: [u8; 4]) -> (r: Self)
        ensures
            r.major == bytes@[0],
            r.minor == bytes@[1],
            r.patch == bytes@[2],
            r.alpha == bytes@[3],
    {
        Self { major: bytes[0], minor: bytes[1], patch: bytes[2], alpha: bytes[3] }
    }

    /// Create a release version (no alpha).
    pub fn new(major: u8, minor: u8, patch: u8) -> (r: Self)
        ensures
            r == (Version { major, minor, patch, alpha: 255u8 }),
    {
        Self { major, minor, patch, alpha: 255 }
    }

    /// Create an alpha version.
    pub fn new_alpha(major: u8, minor: u8, patch: u8, alpha: u8) -> (r: Self)
        ensures
            r == (Version { major, minor, patch, alpha }),
    {
        Self { major, minor, patch, alpha }
    }

    /// Whether this is a release version (no alpha suffix).
    pub fn is_release(&self) -> (r: bool)
        ensures
            r == (self.alpha == 255),
    {
        self.alpha == 255
    }

    /// Whether the controller reported no version at all.
    pub fn is_unavailable(&self) -> (r: bool)
        ensures
            r == (self.major == 255),
    {
        self.major == 255
    }

    /// The display rendering: "major.minor.patch", with "-aN" appended for
    /// alpha builds, or "N/A" when unavailable.
    pub fn display_string(&self) -> (r: String)
        ensures
            r@ == spec_version_string(*self),
    {
        let mut s = String::new();
        if self.is_unavailable() {
            s.append("N/A");
            assert(s@ =~= spec_version_string(*self));
        } else {
            append_decimal(&mut s, self.major);
            s.append(".");
            append_decimal(&mut s, self.minor);
            s.append(".");
            append_decimal(&mut s, self.patch);
            if !self.is_release() {
                s.append("-a");
                append_decimal(&mut s, self.alpha);
            }
            assert(s@ =~= spec_version_string(*self));
        }
        s
    }
}

// ============================================================================
// Power state, as clients see it
// ============================================================================

/// Power management state as carried in client-facing snapshots. The wire
/// bytes are 0 through 13 in declaration order, as in the protocol layer;
/// here an unknown byte is simply absent rather than an error.
#[derive(Debug, Clone, Copy, PartialEq, Eq, Structural)]
pub enum PowerState {
    PowerOff,
    OffCharging,
    SystemStartup,
    OperationalSolo,
    OperationalCoOp,
    BlackoutSolo,
    BlackoutCoOp,
    BlackoutShutdown,
    ManualShutdown,
    PoweredDownBlackout,
    PoweredDownManual,
    HostUnresponsive,
    EnteringStandby,
    Standby,
}

/// Client-side power state named by a wire byte, if any.
pub open spec fn spec_client_state_from_byte(b: u8) -> Option<PowerState> {
    if b == 0 { Some(PowerState::PowerOff) }
    else if b == 1 { Some(PowerState::OffCharging) }
    else if b == 2 { Some(PowerState::SystemStartup) }
    else if b == 3 { Some(PowerState::OperationalSolo) }
    else if b == 4 { Some(PowerState::OperationalCoOp) }
    else if b == 5 { Some(PowerState::BlackoutSolo) }
    else if b == 6 { Some(PowerState::BlackoutCoOp) }
    else if b == 7 { Some(PowerState::BlackoutShutdown) }
    else if b == 8 { Some(PowerState::ManualShutdown) }
    else if b == 9 { Some(PowerState::PoweredDownBlackout) }
    else if b == 10 { Some(PowerState::PoweredDownManual) }
    else if b == 11 { Some(PowerState::HostUnresponsive) }
    else if b == 12 { Some(PowerState::EnteringStandby) }
    else if b == 13 { Some(PowerState::Standby) }
    else { None }
}

/// Wire byte of a client-side power state.
pub open spec fn spec_client_state_byte(s: PowerState) -> u8 {
    match s {
        PowerState::PowerOff => 0,
        PowerState::OffCharging => 1,
        PowerState::SystemStartup => 2,
        PowerState::OperationalSolo => 3,
        PowerState::OperationalCoOp => 4,
        PowerState::BlackoutSolo => 5,
        PowerState::BlackoutCoOp => 6,
        PowerState::BlackoutShutdown => 7,
        PowerState::ManualShutdown => 8,
        PowerState::PoweredDownBlackout => 9,
        PowerState::PoweredDownManual => 10,
        PowerState::HostUnresponsive => 11,
        PowerState::EnteringStandby => 12,
        PowerState::Standby => 13,
    }
}

/// Converting a client-side power state to its byte and back yields the
/// same state, and bytes above 13 name no state.
pub proof fn lemma_client_state_byte_roundtrip(s: PowerState, b: u8)
    ensures
        spec_client_state_from_byte(spec_client_state_byte(s)) == Some(s),
        b > 13 ==> spec_client_state_from_byte(b) is None,
{
}

/// Display name of a client-side power state.
pub open spec fn spec_client_state_name(s: PowerState) -> Seq<char> {
    match s {
        PowerState::PowerOff => "PowerOff"@,
        PowerState::OffCharging => "OffCharging"@,
        PowerState::SystemStartup => "SystemStartup"@,
        PowerState::OperationalSolo => "OperationalSolo"@,
        PowerState::OperationalCoOp => "OperationalCoOp"@,
        PowerState::BlackoutSolo => "BlackoutSolo"@,
        PowerState::BlackoutCoOp => "BlackoutCoOp"@,
        PowerState::BlackoutShutdown => "BlackoutShutdown"@,
        PowerState::ManualShutdown => "ManualShutdown"@,
        PowerState::PoweredDownBlackout => "PoweredDownBlackout"@,
        PowerState::PoweredDownManual => "PoweredDownManual"@,
        PowerState::HostUnresponsive => "HostUnresponsive"@,
        PowerState::EnteringStandby => "EnteringStandby"@,
        PowerState::Standby => "Standby"@,
    }
}

impl PowerState {
    /// Create a PowerState from a raw byte value; bytes outside 0..=13 name
    /// no state.
    pub fn from_byte(value: u8) -> (r: Option<Self>)
        ensures
            r == spec_client_state_from_byte(value),
    {
        match value {
            0 => Some(PowerState::PowerOff),
            1 => Some(PowerState::OffCharging),
            2 => Some(PowerState::SystemStartup),
            3 => Some(PowerState::OperationalSolo),
            4 => Some(PowerState::OperationalCoOp),
            5 => Some(PowerState::BlackoutSolo),
            6 => Some(PowerState::BlackoutCoOp),
            7 => Some(PowerState::BlackoutShutdown),
            8 => Some(PowerState::ManualShutdown),
            9 => Some(PowerState::PoweredDownBlackout),
            10 => Some(PowerState::PoweredDownManual),
            11 => Some(PowerState::HostUnresponsive),
            12 => Some(PowerState::EnteringStandby),
            13 => Some(PowerState::Standby),
            _ => None,
        }
    }

    /// The state name as a string.
    pub fn name(&self) -> (r: &'static str)
        ensures
            r@ == spec_client_state_name(*self),
    {
        match self {
            PowerState::PowerOff => "PowerOff",
            PowerState::OffCharging => "OffCharging",
            PowerState::SystemStartup => "SystemStartup",
            PowerState::OperationalSolo => "OperationalSolo",
            PowerState::OperationalCoOp => "OperationalCoOp",
            PowerState::BlackoutSolo => "BlackoutSolo",
            PowerState::BlackoutCoOp => "BlackoutCoOp",
            PowerState::BlackoutShutdown => "BlackoutShutdown",
            PowerState::ManualShutdown => "ManualShutdown",
            PowerState::PoweredDownBlackout => "PoweredDownBlackout",
            PowerState::PoweredDownManual => "PoweredDownManual",
            PowerState::HostUnresponsive => "HostUnresponsive",
            PowerState::EnteringStandby => "EnteringStandby",
            PowerState::Standby => "Standby",
        }
    }

    /// The state name, as an owned string.
    pub fn display_string(&self) -> (r: String)
        ensures
            r@ == spec_client_state_name(*self),
    {
        String::from_str(self.name())
    }
}

// ============================================================================
// Measurements
// ============================================================================

/// Combined sensor readings from the controller.
///
/// Voltages are in microvolts, the current in microamperes, temperatures in
/// microkelvin, and the watchdog elapsed time in tenths of a second as the
/// wire carries it.
#[derive(Debug, Clone, Copy, PartialEq, Eq, Structural)]
pub struct Measurements {
    /// DC input voltage (microvolts)
    pub dcin_voltage: u32,
    /// Supercapacitor voltage (microvolts)
    pub supercap_voltage: u32,
    /// Input current (microamperes)
    pub input_current: u32,
    /// MCU temperature (microkelvin)
    pub mcu_temperature: u32,
    /// PCB temperature (microkelvin)
    pub pcb_temperature: u32,
    /// Current power state
    pub power_state: PowerState,
    /// Watchdog elapsed time (tenths of a second)
    pub watchdog_elapsed_ds: u8,
}

impl Measurements {
    /// MCU temperature in microdegrees Celsius.
    pub fn mcu_temperature_celsius(&self) -> (r: i64)
        ensures
            r == self.mcu_temperature - KELVIN_OFFSET_U,
    {
        (self.mcu_temperature as i64) - (KELVIN_OFFSET_U as i64)
    }

    /// PCB temperature in microdegrees Celsius.
    pub fn pcb_temperature_celsius(&self) -> (r: i64)
        ensures
            r == self.pcb_temperature - KELVIN_OFFSET_U,
    {
        (self.pcb_temperature as i64) - (KELVIN_OFFSET_U as i64)
    }
}

} // verus!
