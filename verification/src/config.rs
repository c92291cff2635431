//! Daemon configuration: defaults, validation and merge precedence.
//!
//! The record is assembled from defaults, then a configuration file, then
//! command-line arguments, each layer overriding the one before. File and
//! argument reading live in the application crate; this module holds the
//! record itself and the rules on it. Durations are in milliseconds and
//! voltages in microvolts.

use vstd::prelude::*;
use vstd::string::StringExecFns;

verus! {

/// Default configuration file location
pub const DEFAULT_CONFIG_FILE: &'static str = "/etc/halpid/halpid.conf";

/// Default I2C bus number
pub const DEFAULT_I2C_BUS: u8 = 1;

/// Default I2C address of the power controller
pub const DEFAULT_I2C_ADDR: u8 = 0x6D;

/// Default blackout time limit (5 s), in milliseconds
pub const DEFAULT_BLACKOUT_TIME_LIMIT_MS: u64 = 5000;

/// Default blackout voltage limit (9 V), in microvolts
pub const DEFAULT_BLACKOUT_VOLTAGE_LIMIT_UV: u32 = 9_000_000;

/// Default I2C bus number.
pub fn default_i2c_bus() -> (r: u8)
    ensures
        r == DEFAULT_I2C_BUS,
{
    DEFAULT_I2C_BUS
}

/// Default I2C device address.
pub fn default_i2c_addr() -> (r: u8)
    ensures
        r == DEFAULT_I2C_ADDR,
{
    DEFAULT_I2C_ADDR
}

/// Default group name for the control socket.
pub fn default_socket_group() -> (r: String)
    ensures
        r@ == "adm"@,
{
    String::from_str("adm")
}

/// Default poweroff command.
pub fn default_poweroff_command() -> (r: String)
    ensures
        r@ == "/sbin/poweroff"@,
{
    String::from_str("/sbin/poweroff")
}

/// Configuration errors: an unreadable file, a file that does not parse,
/// or a value outside its accepted range.
#[derive(Debug, Clone, PartialEq, Eq)]
pub enum ConfigError {
    FileRead(String),
    YamlParse(String),
    InvalidValue(String),
}

/// Configuration of the daemon.
///
/// `socket` of `None` leaves the socket path to be chosen by the daemon.
/// An empty `poweroff` command means dry-run: no command is spawned on
/// shutdown.
#[derive(Debug, Clone, PartialEq, Eq)]
pub struct Config {
    /// I2C bus number
    pub i2c_bus: u8,
    /// I2C device address
    pub i2c_addr: u8,
    /// Blackout time limit, in milliseconds: input-voltage drops shorter
    /// than this never trigger shutdown
    pub blackout_time_limit_ms: u64,
    /// Blackout voltage limit, in microvolts: shutdown is initiated when the
    /// input voltage stays below this for the time limit
    pub blackout_voltage_limit_uv: u32,
    /// Path of the UNIX control socket, if fixed by the operator
    pub socket: Option<String>,
    /// Group name for UNIX socket permissions
    pub socket_group: String,
    /// Command to execute for system poweroff (empty = dry run)
    pub poweroff: String,
}

/// A configuration all of whose values lie in their accepted ranges.
pub open spec fn spec_config_valid(c: Config) -> bool {
    &&& c.i2c_bus <= 10
    &&& 0 < c.blackout_time_limit_ms <= 3_600_000
    &&& 5_000_000 <= c.blackout_voltage_limit_uv <= 15_000_000
}

impl Default for Config {
    /// The built-in defaults: bus 1, address 0x6D, 5 s / 9 V blackout
    /// limits, no fixed socket, group "adm", "/sbin/poweroff".
    fn default() -> (r: Self)
        ensures
            r.i2c_bus == DEFAULT_I2C_BUS,
            r.i2c_addr == DEFAULT_I2C_ADDR,
            r.blackout_time_limit_ms == DEFAULT_BLACKOUT_TIME_LIMIT_MS,
            r.blackout_voltage_limit_uv == DEFAULT_BLACKOUT_VOLTAGE_LIMIT_UV,
            r.socket is None,
            r.socket_group@ == "adm"@,
            r.poweroff@ == "/sbin/poweroff"@,
    {
        Config {
            i2c_bus: DEFAULT_I2C_BUS,
            i2c_addr: DEFAULT_I2C_ADDR,
            blackout_time_limit_ms: DEFAULT_BLACKOUT_TIME_LIMIT_MS,
            blackout_voltage_limit_uv: DEFAULT_BLACKOUT_VOLTAGE_LIMIT_UV,
            socket: None,
            socket_group: default_socket_group(),
            poweroff: default_poweroff_command(),
        }
    }
}

impl Config {
    /// Check all values against their accepted ranges: bus number at most
    /// 10, blackout time limit positive and at most one hour, blackout
    /// voltage limit between 5 V and 15 V.
    pub fn validate(&self) -> (r: Result<(), ConfigError>)
        ensures
            r is Ok <==> spec_config_valid(*self),
            r matches Err(e) ==> e is InvalidValue,
    {
        if self.i2c_bus > 10 {
            return Err(ConfigError::InvalidValue(String::from_str(
                "i2c-bus is unusually high (expected 0-10)")));
        }
        if self.blackout_time_limit_ms == 0 {
            return Err(ConfigError::InvalidValue(String::from_str(
                "blackout-time-limit must be positive")));
        }
        if self.blackout_time_limit_ms > 3_600_000 {
            return Err(ConfigError::InvalidValue(String::from_str(
                "blackout-time-limit must be at most 3600 seconds")));
        }
        if self.blackout_voltage_limit_uv < 5_000_000 || self.blackout_voltage_limit_uv > 15_000_000 {
            return Err(ConfigError::InvalidValue(String::from_str(
                "blackout-voltage-limit is out of range (expected 5.0-15.0 volts)")));
        }
        Ok(())
    }

    /// Merge an overriding record into this one. Scalar fields always take
    /// the overriding value; the socket path only when set; the socket
    /// group and poweroff command only when they differ from their
    /// defaults, so that an untouched field cannot clobber a configured
    /// one.
    pub fn merge(&mut self, other: Config)
        ensures
            final(self).i2c_bus == other.i2c_bus,
            final(self).i2c_addr == other.i2c_addr,
            final(self).blackout_time_limit_ms == other.blackout_time_limit_ms,
            final(self).blackout_voltage_limit_uv == other.blackout_voltage_limit_uv,
            final(self).socket == (if other.socket is Some { other.socket } else { old(self).socket }),
            final(self).socket_group@ == (if other.socket_group@ == "adm"@ { old(self).socket_group@ }
                else { other.socket_group@ }),
            final(self).poweroff@ == (if other.poweroff@ == "/sbin/poweroff"@ { old(self).poweroff@ }
                else { other.poweroff@ }),
    {
        self.i2c_bus = other.i2c_bus;
        self.i2c_addr = other.i2c_addr;
        self.blackout_time_limit_ms = other.blackout_time_limit_ms;
        self.blackout_voltage_limit_uv = other.blackout_voltage_limit_uv;

        if other.socket.is_some() {
            self.socket = other.socket;
        }
        if !other.socket_group.eq(&default_socket_group()) {
            self.socket_group = other.socket_group;
        }
        if !other.poweroff.eq(&default_poweroff_command()) {
            self.poweroff = other.poweroff;
        }
    }
}

} // verus!
