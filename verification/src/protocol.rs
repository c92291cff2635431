//! I2C protocol layer: register addresses, byte-level encodings and the wire
//! enums of the power controller.
//!
//! Everything here is pure. Multi-byte registers are big-endian. Analog
//! registers carry a 16-bit raw value `r` standing for `scale * r / 65536`
//! of the register's full-scale value; this module works in integer
//! micro-units (microvolts, microamperes, microkelvin) so that the scaling
//! arithmetic is exact where the wire allows it.

use vstd::prelude::*;

verus! {

/// Flash block size for firmware updates (4 KiB)
pub const FLASH_BLOCK_SIZE: usize = 4096;

// ============================================================================
// Register addresses
// ============================================================================

/// Hardware version (4 bytes: major.minor.patch-alpha)
pub const REG_HARDWARE_VERSION: u8 = 0x03;

/// Firmware version (4 bytes: major.minor.patch-alpha)
pub const REG_FIRMWARE_VERSION: u8 = 0x04;

/// Device unique identifier (8 bytes)
pub const REG_DEVICE_ID: u8 = 0x05;

/// Power control/status register
pub const REG_POWER_CONTROL: u8 = 0x10;

/// USB port power bitmask (byte, lower 4 bits)
pub const REG_USB_PORT_STATE: u8 = 0x11;

/// Watchdog timeout (word, milliseconds; 0 disables)
pub const REG_WATCHDOG_TIMEOUT: u8 = 0x12;

/// Power-on threshold (word, analog scaled to the supercap full scale)
pub const REG_POWER_ON_THRESHOLD: u8 = 0x13;

/// Solo power-off threshold (word, analog scaled to the supercap full scale)
pub const REG_SOLO_POWEROFF_THRESHOLD: u8 = 0x14;

/// Current power state (byte, PowerState enum)
pub const REG_POWER_STATE: u8 = 0x15;

/// Watchdog elapsed time (byte, 0.1 s units); writing resets the counter
pub const REG_WATCHDOG_ELAPSED: u8 = 0x16;

/// LED brightness (byte, 0-255)
pub const REG_LED_BRIGHTNESS: u8 = 0x17;

/// Auto-restart enable flag (byte, boolean)
pub const REG_AUTO_RESTART: u8 = 0x18;

/// Solo depleting timeout (4 bytes, big-endian u32, milliseconds)
pub const REG_SOLO_DEPLETING_TIMEOUT: u8 = 0x19;

/// 5 V output enable (byte, boolean)
pub const REG_EN5V_STATE: u8 = 0x1A;

/// DC input voltage (word, analog scaled)
pub const REG_DCIN_VOLTAGE: u8 = 0x20;

/// Supercapacitor voltage (word, analog scaled)
pub const REG_SUPERCAP_VOLTAGE: u8 = 0x21;

/// Input current (word, analog scaled)
pub const REG_INPUT_CURRENT: u8 = 0x22;

/// MCU temperature (word, analog scaled, offset from the minimum Kelvin)
pub const REG_MCU_TEMPERATURE: u8 = 0x23;

/// PCB temperature (word, analog scaled, offset from the minimum Kelvin)
pub const REG_PCB_TEMPERATURE: u8 = 0x24;

/// Request shutdown command (write byte 0x01)
pub const REG_REQUEST_SHUTDOWN: u8 = 0x30;

/// Request standby command (write byte 0x01)
pub const REG_REQUEST_STANDBY: u8 = 0x31;

/// Start firmware update (write 4 bytes: big-endian u32 total size)
pub const REG_DFU_START: u8 = 0x40;

/// Upload firmware block (write crc + block_num + block_len + data)
pub const REG_DFU_UPLOAD_BLOCK: u8 = 0x41;

/// Commit firmware update
pub const REG_DFU_COMMIT: u8 = 0x42;

/// Abort firmware update
pub const REG_DFU_ABORT: u8 = 0x43;

/// Get DFU status (byte, DFUState enum)
pub const REG_DFU_STATUS: u8 = 0x44;

/// Get DFU error details
pub const REG_DFU_ERROR: u8 = 0x45;

/// Number of firmware blocks written to flash so far (word)
pub const REG_DFU_BLOCKS_WRITTEN: u8 = 0x46;

// ============================================================================
// Analog full-scale constants, in micro-units
// ============================================================================

/// Maximum supercapacitor voltage (11 V), in microvolts
pub const VCAP_MAX_UV: u32 = 11_000_000;

/// Maximum DC input voltage (40 V), in microvolts
pub const DCIN_MAX_UV: u32 = 40_000_000;

/// Maximum input current (3.3 A), in microamperes
pub const I_MAX_UA: u32 = 3_300_000;

/// Minimum representable temperature (-40 C), in microkelvin
pub const TEMP_MIN_UK: u32 = 233_150_000;

/// Maximum representable temperature (+100 C), in microkelvin
pub const TEMP_MAX_UK: u32 = 373_150_000;

/// Temperature full-scale range, in microkelvin
pub const TEMP_RANGE_UK: u32 = 140_000_000;

/// Offset between the Kelvin and Celsius scales, in micro-units
pub const KELVIN_OFFSET_U: u32 = 273_150_000;

// ============================================================================
// Errors
// ============================================================================

/// Protocol errors: a byte that names no enum variant, or a read that was
/// too short to decode.
#[derive(Debug, Clone, Copy, PartialEq, Eq, Structural)]
pub enum ProtocolError {
    InvalidPowerState(u8),
    InvalidDFUState(u8),
    InsufficientData { expected: usize, got: usize },
}

// ============================================================================
// Power state enum
// ============================================================================

/// Power management states of the controller firmware.
///
/// The byte values on the wire are the declaration order, 0 through 13.
#[derive(Debug, Clone, Copy, PartialEq, Eq, Structural)]
pub enum PowerState {
    PowerOff,
    OffCharging,
    SystemStartup,
    OperationalSolo,
    OperationalCoOp,
    BlackoutSolo,
    BlackoutCoOp,
    BlackoutShutdown,
    ManualShutdown,
    PoweredDownBlackout,
    PoweredDownManual,
    HostUnresponsive,
    EnteringStandby,
    Standby,
}

/// Wire byte of a power state.
pub open spec fn spec_power_state_byte(s: PowerState) -> u8 {
    match s {
        PowerState::PowerOff => 0,
        PowerState::OffCharging => 1,
        PowerState::SystemStartup => 2,
        PowerState::OperationalSolo => 3,
        PowerState::OperationalCoOp => 4,
        PowerState::BlackoutSolo => 5,
        PowerState::BlackoutCoOp => 6,
        PowerState::BlackoutShutdown => 7,
        PowerState::ManualShutdown => 8,
        PowerState::PoweredDownBlackout => 9,
        PowerState::PoweredDownManual => 10,
        PowerState::HostUnresponsive => 11,
        PowerState::EnteringStandby => 12,
        PowerState::Standby => 13,
    }
}

/// Power state named by a wire byte, if any.
pub open spec fn spec_power_state_from_byte(b: u8) -> Option<PowerState> {
    if b == 0 { Some(PowerState::PowerOff) }
    else if b == 1 { Some(PowerState::OffCharging) }
    else if b == 2 { Some(PowerState::SystemStartup) }
    else if b == 3 { Some(PowerState::OperationalSolo) }
    else if b == 4 { Some(PowerState::OperationalCoOp) }
    else if b == 5 { Some(PowerState::BlackoutSolo) }
    else if b == 6 { Some(PowerState::BlackoutCoOp) }
    else if b == 7 { Some(PowerState::BlackoutShutdown) }
    else if b == 8 { Some(PowerState::ManualShutdown) }
    else if b == 9 { Some(PowerState::PoweredDownBlackout) }
    else if b == 10 { Some(PowerState::PoweredDownManual) }
    else if b == 11 { Some(PowerState::HostUnresponsive) }
    else if b == 12 { Some(PowerState::EnteringStandby) }
    else if b == 13 { Some(PowerState::Standby) }
    else { None }
}

impl PowerState {
    /// Create a PowerState from a byte value; bytes outside 0..=13 are errors.
    pub fn from_byte(value: u8) -> (r: Result<Self, ProtocolError>)
        ensures
            spec_power_state_from_byte(value) matches Some(s) ==> r == Result::<Self, ProtocolError>::Ok(s),
            spec_power_state_from_byte(value) is None ==> r == Result::<Self, ProtocolError>::Err(
                ProtocolError::InvalidPowerState(value)),
    {
        match value {
            0 => Ok(PowerState::PowerOff),
            1 => Ok(PowerState::OffCharging),
            2 => Ok(PowerState::SystemStartup),
            3 => Ok(PowerState::OperationalSolo),
            4 => Ok(PowerState::OperationalCoOp),
            5 => Ok(PowerState::BlackoutSolo),
            6 => Ok(PowerState::BlackoutCoOp),
            7 => Ok(PowerState::BlackoutShutdown),
            8 => Ok(PowerState::ManualShutdown),
            9 => Ok(PowerState::PoweredDownBlackout),
            10 => Ok(PowerState::PoweredDownManual),
            11 => Ok(PowerState::HostUnresponsive),
            12 => Ok(PowerState::EnteringStandby),
            13 => Ok(PowerState::Standby),
            _ => Err(ProtocolError::InvalidPowerState(value)),
        }
    }

    /// Convert a PowerState to its wire byte.
    pub fn to_byte(self) -> (r: u8)
        ensures
            r == spec_power_state_byte(self),
    {
        match self {
            PowerState::PowerOff => 0,
            PowerState::OffCharging => 1,
            PowerState::SystemStartup => 2,
            PowerState::OperationalSolo => 3,
            PowerState::OperationalCoOp => 4,
            PowerState::BlackoutSolo => 5,
            PowerState::BlackoutCoOp => 6,
            PowerState::BlackoutShutdown => 7,
            PowerState::ManualShutdown => 8,
            PowerState::PoweredDownBlackout => 9,
            PowerState::PoweredDownManual => 10,
            PowerState::HostUnresponsive => 11,
            PowerState::EnteringStandby => 12,
            PowerState::Standby => 13,
        }
    }

    /// Human-readable name of the state.
    pub fn name(&self) -> (r: &'static str)
        ensures
            r@ == spec_power_state_name(*self),
    {
        match self {
            PowerState::PowerOff => "PowerOff",
            PowerState::OffCharging => "OffCharging",
            PowerState::SystemStartup => "SystemStartup",
            PowerState::OperationalSolo => "OperationalSolo",
            PowerState::OperationalCoOp => "OperationalCoOp",
            PowerState::BlackoutSolo => "BlackoutSolo",
            PowerState::BlackoutCoOp => "BlackoutCoOp",
            PowerState::BlackoutShutdown => "BlackoutShutdown",
            PowerState::ManualShutdown => "ManualShutdown",
            PowerState::PoweredDownBlackout => "PoweredDownBlackout",
            PowerState::PoweredDownManual => "PoweredDownManual",
            PowerState::HostUnresponsive => "HostUnresponsive",
            PowerState::EnteringStandby => "EnteringStandby",
            PowerState::Standby => "Standby",
        }
    }
}

/// Display name of a power state.
pub open spec fn spec_power_state_name(s: PowerState) -> Seq<char> {
    match s {
        PowerState::PowerOff => "PowerOff"@,
        PowerState::OffCharging => "OffCharging"@,
        PowerState::SystemStartup => "SystemStartup"@,
        PowerState::OperationalSolo => "OperationalSolo"@,
        PowerState::OperationalCoOp => "OperationalCoOp"@,
        PowerState::BlackoutSolo => "BlackoutSolo"@,
        PowerState::BlackoutCoOp => "BlackoutCoOp"@,
        PowerState::BlackoutShutdown => "BlackoutShutdown"@,
        PowerState::ManualShutdown => "ManualShutdown"@,
        PowerState::PoweredDownBlackout => "PoweredDownBlackout"@,
        PowerState::PoweredDownManual => "PoweredDownManual"@,
        PowerState::HostUnresponsive => "HostUnresponsive"@,
        PowerState::EnteringStandby => "EnteringStandby"@,
        PowerState::Standby => "Standby"@,
    }
}

/// Converting a power state to its byte and back yields the same state, and
/// bytes above 13 name no state.
pub proof fn lemma_power_state_byte_roundtrip(s: PowerState, b: u8)
    ensures
        spec_power_state_from_byte(spec_power_state_byte(s)) == Some(s),
        b > 13 ==> spec_power_state_from_byte(b) is None,
{
}

// ============================================================================
// DFU state enum
// ============================================================================

/// Firmware-update (DFU) states of the controller, bytes 0 through 8.
#[derive(Debug, Clone, Copy, PartialEq, Eq, Structural)]
pub enum DFUState {
    Idle,
    Preparing,
    Updating,
    QueueFull,
    ReadyToCommit,
    CrcError,
    DataLengthError,
    WriteError,
    ProtocolError,
}

/// Wire byte of a DFU state.
pub open spec fn spec_dfu_state_byte(s: DFUState) -> u8 {
    match s {
        DFUState::Idle => 0,
        DFUState::Preparing => 1,
        DFUState::Updating => 2,
        DFUState::QueueFull => 3,
        DFUState::ReadyToCommit => 4,
        DFUState::CrcError => 5,
        DFUState::DataLengthError => 6,
        DFUState::WriteError => 7,
        DFUState::ProtocolError => 8,
    }
}

/// DFU state named by a wire byte, if any.
pub open spec fn spec_dfu_state_from_byte(b: u8) -> Option<DFUState> {
    if b == 0 { Some(DFUState::Idle) }
    else if b == 1 { Some(DFUState::Preparing) }
    else if b == 2 { Some(DFUState::Updating) }
    else if b == 3 { Some(DFUState::QueueFull) }
    else if b == 4 { Some(DFUState::ReadyToCommit) }
    else if b == 5 { Some(DFUState::CrcError) }
    else if b == 6 { Some(DFUState::DataLengthError) }
    else if b == 7 { Some(DFUState::WriteError) }
    else if b == 8 { Some(DFUState::ProtocolError) }
    else { None }
}

impl DFUState {
    /// Create a DFUState from a byte value; bytes outside 0..=8 are errors.
    pub fn from_byte(value: u8) -> (r: Result<Self, ProtocolError>)
        ensures
            spec_dfu_state_from_byte(value) matches Some(s) ==> r == Result::<Self, ProtocolError>::Ok(s),
            spec_dfu_state_from_byte(value) is None ==> r == Result::<Self, ProtocolError>::Err(
                ProtocolError::InvalidDFUState(value)),
    {
        match value {
            0 => Ok(DFUState::Idle),
            1 => Ok(DFUState::Preparing),
            2 => Ok(DFUState::Updating),
            3 => Ok(DFUState::QueueFull),
            4 => Ok(DFUState::ReadyToCommit),
            5 => Ok(DFUState::CrcError),
            6 => Ok(DFUState::DataLengthError),
            7 => Ok(DFUState::WriteError),
            8 => Ok(DFUState::ProtocolError),
            _ => Err(ProtocolError::InvalidDFUState(value)),
        }
    }

    /// Convert a DFUState to its wire byte.
    pub fn to_byte(self) -> (r: u8)
        ensures
            r == spec_dfu_state_byte(self),
    {
        match self {
            DFUState::Idle => 0,
            DFUState::Preparing => 1,
            DFUState::Updating => 2,
            DFUState::QueueFull => 3,
            DFUState::ReadyToCommit => 4,
            DFUState::CrcError => 5,
            DFUState::DataLengthError => 6,
            DFUState::WriteError => 7,
            DFUState::ProtocolError => 8,
        }
    }

    /// Whether this state reports a failure of the update in progress.
    pub fn is_error(self) -> (r: bool)
        ensures
            r == spec_dfu_state_is_error(self),
    {
        matches!(self, DFUState::CrcError | DFUState::DataLengthError
            | DFUState::WriteError | DFUState::ProtocolError)
    }
}

/// The DFU states that report a failed update.
pub open spec fn spec_dfu_state_is_error(s: DFUState) -> bool {
    s is CrcError || s is DataLengthError || s is WriteError || s is ProtocolError
}

/// Converting a DFU state to its byte and back yields the same state, and
/// bytes above 8 name no state.
pub proof fn lemma_dfu_state_byte_roundtrip(s: DFUState, b: u8)
    ensures
        spec_dfu_state_from_byte(spec_dfu_state_byte(s)) == Some(s),
        b > 8 ==> spec_dfu_state_from_byte(b) is None,
{
}

// ============================================================================
// Big-endian word encoding
// ============================================================================

/// Big-endian bytes of a 16-bit word, most significant first.
pub open spec fn spec_encode_word(v: u16) -> Seq<u8> {
    seq![(v / 256) as u8, (v % 256) as u8]
}

/// The 16-bit word held by two big-endian bytes.
pub open spec fn spec_word_value(hi: u8, lo: u8) -> u16 {
    (hi * 256 + lo) as u16
}

/// Big-endian bytes of a 32-bit value, most significant first.
pub open spec fn spec_encode_u32(v: u32) -> Seq<u8> {
    seq![
        (v / 0x1000000) as u8,
        ((v / 0x10000) % 256) as u8,
        ((v / 256) % 256) as u8,
        (v % 256) as u8,
    ]
}

/// The 32-bit value held by four big-endian bytes.
pub open spec fn spec_u32_value(b0: u8, b1: u8, b2: u8, b3: u8) -> u32 {
    (b0 * 0x1000000 + b1 * 0x10000 + b2 * 256 + b3) as u32
}

/// Encode a 16-bit value as big-endian bytes.
pub fn encode_word(value: u16) -> (r: [u8; 2])
    ensures
        r@ == spec_encode_word(value),
        spec_word_value(r@[0], r@[1]) == value,
{
    let r = [(value / 256) as u8, (value % 256) as u8];
    assert(r@ =~= spec_encode_word(value));
    r
}

/// Decode big-endian bytes to a 16-bit value; fewer than two bytes is an
/// error.
pub fn decode_word(bytes: &[u8]) -> (r: Result<u16, ProtocolError>)
    ensures
        bytes@.len() >= 2 ==> r == Result::<u16, ProtocolError>::Ok(spec_word_value(bytes@[0], bytes@[1])),
        bytes@.len() < 2 ==> r == Result::<u16, ProtocolError>::Err(ProtocolError::InsufficientData {
            expected: 2usize, got: bytes@.len() as usize }),
{
    if bytes.len() < 2 {
        return Err(ProtocolError::InsufficientData { expected: 2, got: bytes.len() });
    }
    Ok((bytes[0] as u16) * 256 + (bytes[1] as u16))
}

/// Encode a 32-bit value as big-endian bytes.
pub fn encode_u32(value: u32) -> (r: [u8; 4])
    ensures
        r@ == spec_encode_u32(value),
        spec_u32_value(r@[0], r@[1], r@[2], r@[3]) == value,
{
    let r = [
        (value / 0x1000000) as u8,
        ((value / 0x10000) % 256) as u8,
        ((value / 256) % 256) as u8,
        (value % 256) as u8,
    ];
    assert(r@ =~= spec_encode_u32(value));
    assert(spec_u32_value(r@[0], r@[1], r@[2], r@[3]) == value) by {
        assert(value == (value / 0x1000000) * 0x1000000 + ((value / 0x10000) % 256) * 0x10000
            + ((value / 256) % 256) * 256 + value % 256) by (nonlinear_arith);
    }
    r
}

/// Decode big-endian bytes to a 32-bit value; fewer than four bytes is an
/// error.
pub fn decode_u32(bytes: &[u8]) -> (r: Result<u32, ProtocolError>)
    ensures
        bytes@.len() >= 4 ==> r == Result::<u32, ProtocolError>::Ok(
            spec_u32_value(bytes@[0], bytes@[1], bytes@[2], bytes@[3])),
        bytes@.len() < 4 ==> r == Result::<u32, ProtocolError>::Err(ProtocolError::InsufficientData {
            expected: 4usize, got: bytes@.len() as usize }),
{
    if bytes.len() < 4 {
        return Err(ProtocolError::InsufficientData { expected: 4, got: bytes.len() });
    }
    Ok((bytes[0] as u32) * 0x1000000 + (bytes[1] as u32) * 0x10000
        + (bytes[2] as u32) * 256 + (bytes[3] as u32))
}

/// Encoding a word and decoding the bytes yields the word back, and the
/// same for 32-bit values.
pub proof fn lemma_word_encode_roundtrip(v: u16, w: u32)
    ensures
        spec_word_value(spec_encode_word(v)[0], spec_encode_word(v)[1]) == v,
        spec_u32_value(spec_encode_u32(w)[0], spec_encode_u32(w)[1],
            spec_encode_u32(w)[2], spec_encode_u32(w)[3]) == w,
{
    assert(w == (w / 0x1000000) * 0x1000000 + ((w / 0x10000) % 256) * 0x10000
        + ((w / 256) % 256) * 256 + w % 256) by (nonlinear_arith);
}

// ============================================================================
// Analog scaling, in integer micro-units
// ============================================================================

/// The micro-unit value represented by a raw analog word: `scale * raw /
/// 65536`, truncated.
pub open spec fn spec_analog_word_to_micro(raw: u16, scale: u32) -> u32
    recommends
        scale > 0,
{
    ((raw * scale) / 65536) as u32
}

/// The raw analog word representing a micro-unit value: `65536 * value /
/// scale`, rounded to the nearest word; values at or above the full scale
/// saturate at the largest word. Rounding, rather than truncation, makes
/// decoding and re-encoding a raw word the exact identity.
pub open spec fn spec_micro_to_analog_word(value: u32, scale: u32) -> u16
    recommends
        scale > 0,
{
    if value >= scale {
        65535u16
    } else {
        let q = (value * 65536 + (scale as int) / 2) / (scale as int);
        if q > 65535 { 65535u16 } else { q as u16 }
    }
}

/// Convert a raw 16-bit analog reading to micro-units of the full scale.
pub fn analog_word_to_micro(raw: u16, scale: u32) -> (r: u32)
    requires
        scale > 0,
        scale <= 2_000_000_000,
    ensures
        r == spec_analog_word_to_micro(raw, scale),
{
    proof {
        assert(raw * scale <= 65535 * 2_000_000_000int) by (nonlinear_arith)
            requires raw <= 65535 && scale <= 2_000_000_000;
    }
    let wide: u64 = (raw as u64) * (scale as u64);
    (wide / 65536) as u32
}

/// Convert a micro-unit value to a raw 16-bit analog word, rounding to the
/// nearest word; values at or above the full scale saturate.
pub fn micro_to_analog_word(value: u32, scale: u32) -> (r: u16)
    requires
        scale > 0,
        scale <= 2_000_000_000,
    ensures
        r == spec_micro_to_analog_word(value, scale),
{
    if value >= scale {
        return 65535;
    }
    let wide: u64 = (value as u64) * 65536 + (scale as u64) / 2;
    let q: u64 = wide / (scale as u64);
    proof {
        assert(0 <= (value * 65536 + (scale as int) / 2) / (scale as int)) by (nonlinear_arith)
            requires value >= 0 && scale > 0;
    }
    if q > 65535 {
        65535
    } else {
        q as u16
    }
}

/// A decoded analog value always lies below the full scale.
pub proof fn lemma_analog_decode_below_scale(raw: u16, scale: u32)
    requires
        0 < scale <= 2_000_000_000,
    ensures
        spec_analog_word_to_micro(raw, scale) < scale,
{
    let r = raw as int;
    let s = scale as int;
    assert(r * s >= 0) by (nonlinear_arith)
        requires r >= 0 && s >= 0;
    assert(r * s <= 65535 * 2_000_000_000int) by (nonlinear_arith)
        requires 0 <= r <= 65535 && 0 <= s <= 2_000_000_000;
    assert(r * s < 65536 * s) by (nonlinear_arith)
        requires r < 65536 && s > 0;
    assert((r * s) / 65536 < s) by (nonlinear_arith)
        requires r * s >= 0 && r * s < 65536 * s;
}

/// Decoding a raw analog word to micro-units and encoding it back is the
/// exact identity, for every full scale of at least two raw steps per
/// micro-unit: the rounding encoder recovers what truncating decoding
/// dropped. All of this crate's full scales satisfy the bound.
pub proof fn lemma_analog_word_roundtrip(raw: u16, scale: u32)
    requires
        131072 <= scale <= 2_000_000_000,
    ensures
        spec_micro_to_analog_word(spec_analog_word_to_micro(raw, scale), scale) == raw,
{
    let r = raw as int;
    let s = scale as int;
    let v = (r * s) / 65536;
    assert(r * s >= 0) by (nonlinear_arith)
        requires r >= 0 && s >= 0;
    assert(r * s <= 65535 * 2_000_000_000int) by (nonlinear_arith)
        requires 0 <= r <= 65535 && 0 <= s <= 2_000_000_000;
    assert(65536 * v <= r * s && r * s < 65536 * (v + 1)) by (nonlinear_arith)
        requires v == (r * s) / 65536 && r * s >= 0;
    assert(spec_analog_word_to_micro(raw, scale) == v as u32);
    // the decoded value is below the scale, so the encoder does not saturate
    assert(r * s < 65536 * s) by (nonlinear_arith)
        requires r < 65536 && s > 0;
    assert(v < s);
    // the truncation remainder is under one raw step, and half the scale
    // covers a full raw step, so rounding restores the word exactly
    let a = r * s - 65536 * v;
    let h = s / 2;
    assert(0 <= a < 65536);
    assert(2 * h <= s <= 2 * h + 1) by {
        vstd::arithmetic::div_mod::lemma_fundamental_div_mod(s, 2);
        vstd::arithmetic::div_mod::lemma_mod_bound(s, 2);
    }
    assert(h >= 65536);
    let q = (65536 * v + h) / s;
    assert(65536 * v + h >= 0);
    assert(s * q <= 65536 * v + h && 65536 * v + h < s * (q + 1)) by (nonlinear_arith)
        requires q == (65536 * v + h) / s && 65536 * v + h >= 0 && s > 0;
    assert(65536 * v + h == r * s + (h - a));
    assert(0 <= h - a < s);
    assert(s * q < s * (r + 1)) by (nonlinear_arith)
        requires s * q <= r * s + (h - a) && h - a < s;
    assert(q < r + 1) by (nonlinear_arith)
        requires s * q < s * (r + 1) && s > 0;
    assert(s * (q + 1) > s * r) by (nonlinear_arith)
        requires s * (q + 1) > r * s + (h - a) && h - a >= 0;
    assert(q + 1 > r) by (nonlinear_arith)
        requires s * (q + 1) > s * r && s > 0;
    assert(q == r);
    assert(spec_micro_to_analog_word(v as u32, scale) == q as u16);
}

/// Encoding a micro-unit value to a raw word and decoding it back lands
/// within one raw step of the scale in either direction, for every full
/// scale of at least two raw steps per micro-unit.
pub proof fn lemma_analog_value_roundtrip(value: u32, scale: u32)
    requires
        131072 <= scale <= 2_000_000_000,
        value < scale,
    ensures
        spec_analog_word_to_micro(spec_micro_to_analog_word(value, scale), scale)
            <= value + scale / 65536,
        value <= spec_analog_word_to_micro(spec_micro_to_analog_word(value, scale), scale)
            + scale / 65536,
{
    let v = value as int;
    let s = scale as int;
    let h = s / 2;
    assert(2 * h <= s <= 2 * h + 1) by {
        vstd::arithmetic::div_mod::lemma_fundamental_div_mod(s, 2);
        vstd::arithmetic::div_mod::lemma_mod_bound(s, 2);
    }
    assert(h >= 65536);
    let q0 = (v * 65536 + h) / s;
    assert(v * 65536 >= 0) by (nonlinear_arith)
        requires v >= 0;
    assert(s * q0 <= v * 65536 + h && v * 65536 + h < s * (q0 + 1)) by (nonlinear_arith)
        requires q0 == (v * 65536 + h) / s && v * 65536 + h >= 0 && s > 0;
    assert(q0 >= 0) by (nonlinear_arith)
        requires s * (q0 + 1) > v * 65536 + h && v * 65536 + h >= 0 && s > 0;
    let w = if q0 > 65535 { 65535int } else { q0 };
    assert(spec_micro_to_analog_word(value, scale) == w as u16);
    let back = (w * s) / 65536;
    assert(w * s >= 0) by (nonlinear_arith)
        requires w >= 0 && s >= 0;
    assert(w * s <= 65535 * 2_000_000_000int) by (nonlinear_arith)
        requires 0 <= w <= 65535 && 0 <= s <= 2_000_000_000;
    assert(65536 * back <= w * s && w * s < 65536 * (back + 1)) by (nonlinear_arith)
        requires back == (w * s) / 65536 && w * s >= 0;
    assert(spec_analog_word_to_micro(w as u16, scale) == back as u32);
    // one raw step, in micro-units
    let step = s / 65536;
    assert(65536 * step <= s <= 65536 * step + 65535) by {
        vstd::arithmetic::div_mod::lemma_fundamental_div_mod(s, 65536);
        vstd::arithmetic::div_mod::lemma_mod_bound(s, 65536);
    }
    assert(step >= 2);
    if q0 <= 65535 {
        assert(w == q0);
        // at most one step above: the rounded word overshoots by at most
        // half a step, and decoding truncates downward
        assert(65536 * back <= q0 * s);
        assert(q0 * s == s * q0) by (nonlinear_arith);
        assert(65536 * back <= v * 65536 + h);
        assert(65536 * (back - v) <= h);
        assert(back - v <= step) by (nonlinear_arith)
            requires 65536 * (back - v) <= h && 2 * h <= s + 1 && 65536 * step <= s
                && s >= 131072 && h >= 65536 && 65536 * step + 65535 >= s;
        // at most one step below
        assert(v * 65536 < s * (q0 + 1) - h);
        assert(s * (q0 + 1) == s * q0 + s) by (nonlinear_arith);
        assert(s * q0 == q0 * s) by (nonlinear_arith);
        assert(q0 * s < 65536 * (back + 1));
        assert(v * 65536 < 65536 * (back + 1) + s - h);
        assert(s - h <= h + 1);
        assert(65536 * (v - back) <= 65536 + h);
        assert(v - back <= step) by (nonlinear_arith)
            requires 65536 * (v - back) <= 65536 + h && 2 * h <= s + 1
                && 65536 * step <= s && 65536 * step + 65535 >= s && s >= 131072;
    } else {
        assert(w == 65535);
        // the value sits within half a raw step of the full scale, and the
        // top word decodes to within one step of it
        assert(s * q0 >= s * 65536) by (nonlinear_arith)
            requires q0 >= 65536 && s > 0;
        assert(v * 65536 + h >= s * 65536);
        assert(65535 * s == 65536 * s - s) by (nonlinear_arith);
        assert(w * s == 65535 * s);
        assert(65536 * back > 65535 * s - 65536);
        assert(65536 * v <= 65536 * s - 65536) by (nonlinear_arith)
            requires v <= s - 1;
        assert(65536 * (v - back) < 65536 * s - 65536 - 65535 * s + 65536);
        assert(65536 * (v - back) < s);
        assert(v - back <= step) by (nonlinear_arith)
            requires 65536 * (v - back) < s && 65536 * step <= s
                && 65536 * step + 65535 >= s && s >= 131072;
        assert(65536 * back <= 65535 * s);
        assert(65536 * v >= 65536 * s - h);
        assert(65536 * (back - v) <= 65535 * s - 65536 * s + h);
        assert(65536 * (back - v) <= h - s);
        assert(back - v <= 0) by (nonlinear_arith)
            requires 65536 * (back - v) <= h - s && 2 * h <= s + 1 && s >= 131072;
        assert(back - v <= step);
    }
}

// ============================================================================
// Temperature conversions, in integer micro-units
// ============================================================================

/// Convert microkelvin to microdegrees Celsius.
pub fn kelvin_to_celsius(micro_kelvin: u32) -> (r: i64)
    ensures
        r == micro_kelvin - KELVIN_OFFSET_U,
{
    (micro_kelvin as i64) - (KELVIN_OFFSET_U as i64)
}

/// Convert microdegrees Celsius to microkelvin; temperatures below
/// absolute zero do not arise and are excluded.
pub fn celsius_to_kelvin(micro_celsius: i64) -> (r: u32)
    requires
        micro_celsius + KELVIN_OFFSET_U >= 0,
        micro_celsius + KELVIN_OFFSET_U <= u32::MAX,
    ensures
        r == micro_celsius + KELVIN_OFFSET_U,
{
    (micro_celsius + (KELVIN_OFFSET_U as i64)) as u32
}

} // verus!
