//! Typed device facade over the I2C bus.
//!
//! The primitives here (byte, word and block reads and writes) wrap each
//! bus transaction in a bounded retry loop: up to three retries with a
//! short pause, a fresh transaction each time, and the register and
//! direction attached to the error after the last attempt. Every operation
//! states over the transaction history exactly what reached the wire: only
//! attempts of this one operation, all failed but possibly the last.
//!
//! On top of the primitives sit the typed operations the daemon uses:
//! measurements, thresholds, the watchdog, USB port power, LED brightness,
//! shutdown and standby requests, and version queries.

use vstd::prelude::*;

use crate::bus::{
    I2cBus, Tx, bus_open, bus_write, bus_write_read, pause_millis, spec_prefix, tx_ok, tx_reg,
    tx_is_write,
};
use crate::errors::I2cError;
use crate::protocol;
use crate::protocol::{
    spec_analog_word_to_micro, spec_encode_u32, spec_encode_word, spec_micro_to_analog_word,
    spec_word_value,
};
use crate::types::{Measurements, Version, spec_version_bytes, spec_version_string};

verus! {

/// Number of retries after a failed I2C transaction.
pub const MAX_RETRIES: u8 = 3;

/// Delay between retry attempts, in milliseconds.
pub const RETRY_DELAY_MS: u64 = 10;

// ============================================================================
// What one operation leaves in the transaction history
// ============================================================================

/// Every entry from `from` on is a plain-write attempt of this register
/// and payload.
pub open spec fn spec_new_are_write_attempts(s: Seq<Tx>, from: int, reg: u8, payload: Seq<u8>)
    -> bool {
    forall|i: int| from <= i < s.len() ==> #[trigger] s[i] == (Tx::Write { reg, data: payload,
        ok: tx_ok(s[i]) })
}

/// Every entry from `from` on is a combined write-then-read attempt of
/// this register.
pub open spec fn spec_new_are_read_attempts(s: Seq<Tx>, from: int, reg: u8) -> bool {
    forall|i: int| from <= i < s.len() ==> !tx_is_write(#[trigger] s[i]) && tx_reg(s[i]) == reg
}

/// Every entry from `from` on failed, except possibly the last.
pub open spec fn spec_only_last_ok(s: Seq<Tx>, from: int) -> bool {
    forall|i: int| from <= i < s.len() - 1 ==> !tx_ok(#[trigger] s[i])
}

/// One write operation ran between the two histories: the new entries are
/// fresh attempts of this one write, one more than the retries at most,
/// every one but the last failed, and the operation succeeded exactly if
/// the last one did.
pub open spec fn spec_wrote(h_old: Seq<Tx>, h_new: Seq<Tx>, reg: u8, payload: Seq<u8>,
    succeeded: bool) -> bool {
    &&& spec_prefix(h_new, h_old)
    &&& h_old.len() < h_new.len() <= h_old.len() + MAX_RETRIES + 1
    &&& spec_new_are_write_attempts(h_new, h_old.len() as int, reg, payload)
    &&& spec_only_last_ok(h_new, h_old.len() as int)
    &&& (succeeded <==> tx_ok(h_new.last()))
}

/// One read operation ran between the two histories, yielding `data` on
/// success; the shape of the attempts is as for a write.
pub open spec fn spec_read(h_old: Seq<Tx>, h_new: Seq<Tx>, reg: u8, data: Seq<u8>,
    succeeded: bool) -> bool {
    &&& spec_prefix(h_new, h_old)
    &&& h_old.len() < h_new.len() <= h_old.len() + MAX_RETRIES + 1
    &&& spec_new_are_read_attempts(h_new, h_old.len() as int, reg)
    &&& spec_only_last_ok(h_new, h_old.len() as int)
    &&& (succeeded <==> tx_ok(h_new.last()))
    &&& (succeeded ==> h_new.last() == (Tx::WriteRead { reg, data, ok: true }))
}

/// Some successful combined read of this register, from `from` on, carried
/// a raw word that scales to this micro-unit value.
pub open spec fn spec_logged_analog_read(h: Seq<Tx>, from: int, reg: u8, scale: u32, v: u32)
    -> bool {
    exists|i: int, raw: u16|
        #![trigger h[i], spec_encode_word(raw)]
        from <= i < h.len() && h[i] == (Tx::WriteRead { reg, data: spec_encode_word(raw),
            ok: true }) && v == spec_analog_word_to_micro(raw, scale)
}

/// The registers one measurement pass reads: the five analog channels, the
/// power state and the watchdog elapsed counter.
pub open spec fn spec_measurement_reg(reg: u8) -> bool {
    ||| reg == protocol::REG_DCIN_VOLTAGE
    ||| reg == protocol::REG_SUPERCAP_VOLTAGE
    ||| reg == protocol::REG_INPUT_CURRENT
    ||| reg == protocol::REG_MCU_TEMPERATURE
    ||| reg == protocol::REG_PCB_TEMPERATURE
    ||| reg == protocol::REG_POWER_STATE
    ||| reg == protocol::REG_WATCHDOG_ELAPSED
}

/// A window of measurement reads, extended by one more operation's read
/// attempts of a measurement register, is still all measurement reads.
proof fn lemma_extend_measurement_reads(h0: Seq<Tx>, h_pre: Seq<Tx>, h_post: Seq<Tx>, reg: u8)
    requires
        h0.len() <= h_pre.len(),
        spec_prefix(h_post, h_pre),
        spec_measurement_reg(reg),
        forall|i: int| h0.len() <= i < h_pre.len() ==> !tx_is_write(#[trigger] h_pre[i])
            && spec_measurement_reg(tx_reg(h_pre[i])),
        spec_new_are_read_attempts(h_post, h_pre.len() as int, reg),
    ensures
        forall|i: int| h0.len() <= i < h_post.len() ==> !tx_is_write(#[trigger] h_post[i])
            && spec_measurement_reg(tx_reg(h_post[i])),
{
    assert forall|i: int| h0.len() <= i < h_post.len() implies !tx_is_write(
        #[trigger] h_post[i]) && spec_measurement_reg(tx_reg(h_post[i])) by {
        if i < h_pre.len() {
            crate::bus::lemma_prefix_preserves_index(h_pre, h_post, i);
        }
    }
}

/// A logged analog read persists into any extension of the history, and
/// into any widening of the window.
proof fn lemma_logged_analog_read_persists(h_pre: Seq<Tx>, h_post: Seq<Tx>, from_outer: int,
    from: int, reg: u8, scale: u32, v: u32)
    requires
        0 <= from_outer <= from <= h_pre.len(),
        spec_prefix(h_post, h_pre),
        spec_logged_analog_read(h_pre, from, reg, scale, v),
    ensures
        spec_logged_analog_read(h_post, from_outer, reg, scale, v),
{
    let (i, raw) = choose|i: int, raw: u16|
        #![trigger h_pre[i], spec_encode_word(raw)]
        from <= i < h_pre.len() && h_pre[i] == (Tx::WriteRead { reg,
            data: spec_encode_word(raw), ok: true }) && v == spec_analog_word_to_micro(raw,
            scale);
    crate::bus::lemma_prefix_preserves_index(h_pre, h_post, i);
    assert(h_post[i] == h_pre[i]);
}

/// Every field of a measurement snapshot was decoded from a successful
/// transaction of its own register within the history window: the five
/// analog channels from raw words, the power state and the watchdog
/// elapsed counter from single bytes. Temperatures carry the offset from
/// the range minimum on the wire.
pub open spec fn spec_measurements_logged(h: Seq<Tx>, from: int, m: Measurements) -> bool {
    &&& spec_logged_analog_read(h, from, protocol::REG_DCIN_VOLTAGE, protocol::DCIN_MAX_UV,
        m.dcin_voltage)
    &&& spec_logged_analog_read(h, from, protocol::REG_SUPERCAP_VOLTAGE, protocol::VCAP_MAX_UV,
        m.supercap_voltage)
    &&& spec_logged_analog_read(h, from, protocol::REG_INPUT_CURRENT, protocol::I_MAX_UA,
        m.input_current)
    &&& spec_logged_analog_read(h, from, protocol::REG_MCU_TEMPERATURE, protocol::TEMP_RANGE_UK,
        (m.mcu_temperature - protocol::TEMP_MIN_UK) as u32)
    &&& spec_logged_analog_read(h, from, protocol::REG_PCB_TEMPERATURE, protocol::TEMP_RANGE_UK,
        (m.pcb_temperature - protocol::TEMP_MIN_UK) as u32)
    &&& (exists|i: int| from <= i < h.len() && #[trigger] h[i] == (Tx::WriteRead {
        reg: protocol::REG_POWER_STATE,
        data: seq![crate::types::spec_client_state_byte(m.power_state)], ok: true }))
    &&& (exists|i: int| from <= i < h.len() && #[trigger] h[i] == (Tx::WriteRead {
        reg: protocol::REG_WATCHDOG_ELAPSED, data: seq![m.watchdog_elapsed_ds], ok: true }))
}

// ============================================================================
// The device
// ============================================================================

/// I2C device facade for the power controller.
pub struct HalpiDevice {
    bus: I2cBus,
    firmware_version: Option<String>,
}

impl View for HalpiDevice {
    type V = Seq<Tx>;

    /// The transactions this device has issued on its bus, oldest first.
    closed spec fn view(&self) -> Seq<Tx> {
        self.bus@
    }
}

impl HalpiDevice {
    /// The cached firmware-version string, if a first read has filled it.
    /// Only `firmware_version` ever changes it; every other operation
    /// leaves it alone.
    pub closed spec fn firmware_cache(&self) -> Option<Seq<char>> {
        match self.firmware_version {
            Some(s) => Some(s@),
            None => None,
        }
    }
}

impl HalpiDevice {
    /// Open the controller on this I2C bus and address.
    ///
    /// No transaction is issued yet; the firmware-version cache starts
    /// empty.
    pub fn new(bus: u8, addr: u8) -> (r: Result<Self, I2cError>)
        ensures
            r matches Ok(d) ==> d@ == Seq::<Tx>::empty(),
            r matches Err(e) ==> e == (I2cError::DeviceOpen { bus, addr }),
    {
        match bus_open(bus, addr) {
            Ok(b) => Ok(HalpiDevice { bus: b, firmware_version: None }),
            Err(_) => Err(I2cError::DeviceOpen { bus, addr }),
        }
    }

    /// Write `[reg, payload...]` as one transaction, retrying on failure.
    /// One kernel write message carries at most 8 KiB.
    pub(crate) fn write_bytes(&mut self, reg: u8, payload: &[u8]) -> (r: Result<(), I2cError>)
        requires
            payload@.len() + 1 <= 8192,
        ensures
            final(self).firmware_cache() == old(self).firmware_cache(),
            spec_wrote(old(self)@, final(self)@, reg, payload@, r is Ok),
            r matches Err(e) ==> e == (I2cError::Write { reg }),
    {
        let ghost orig: Seq<Tx> = self@;
        proof {
            assert(self@.subrange(0, orig.len() as int) =~= orig);
        }
        let mut attempt: u8 = 0;
        loop
            invariant
                orig == old(self)@,
                self.firmware_cache() == old(self).firmware_cache(),
                payload@.len() + 1 <= 8192,
                attempt <= MAX_RETRIES,
                self@.len() == orig.len() + attempt,
                spec_prefix(self@, orig),
                spec_new_are_write_attempts(self@, orig.len() as int, reg, payload@),
                forall|i: int| orig.len() <= i < self@.len() ==> !tx_ok(#[trigger] self@[i]),
            decreases MAX_RETRIES - attempt,
        {
            let ghost before: Seq<Tx> = self@;
            match bus_write(&mut self.bus, reg, payload) {
                Ok(_) => {
                    proof {
                        assert(self@ == before.push(Tx::Write { reg, data: payload@, ok: true }));
                        assert(self@.subrange(0, orig.len() as int) =~= orig);
                    }
                    return Ok(());
                },
                Err(_) => {
                    proof {
                        assert(self@.subrange(0, orig.len() as int) =~= orig);
                    }
                    if attempt >= MAX_RETRIES {
                        return Err(I2cError::Write { reg });
                    }
                    attempt = attempt + 1;
                    pause_millis(RETRY_DELAY_MS);
                },
            }
        }
    }

    /// Write one register, then read `count` bytes from it, as one combined
    /// transaction, retrying on failure. An I2C message length is a 16-bit
    /// field.
    pub(crate) fn read_bytes(&mut self, reg: u8, count: usize) -> (r: Result<Vec<u8>, I2cError>)
        requires
            count <= 65535,
        ensures
            final(self).firmware_cache() == old(self).firmware_cache(),
            r matches Ok(v) ==> v@.len() == count && spec_read(old(self)@, final(self)@, reg, v@,
                true),
            r matches Err(e) ==> e == (I2cError::Read { reg }) && spec_read(old(self)@,
                final(self)@, reg, Seq::empty(), false),
    {
        let ghost orig: Seq<Tx> = self@;
        proof {
            assert(self@.subrange(0, orig.len() as int) =~= orig);
        }
        let mut attempt: u8 = 0;
        loop
            invariant
                orig == old(self)@,
                self.firmware_cache() == old(self).firmware_cache(),
                count <= 65535,
                attempt <= MAX_RETRIES,
                self@.len() == orig.len() + attempt,
                spec_prefix(self@, orig),
                spec_new_are_read_attempts(self@, orig.len() as int, reg),
                forall|i: int| orig.len() <= i < self@.len() ==> !tx_ok(#[trigger] self@[i]),
            decreases MAX_RETRIES - attempt,
        {
            let ghost before: Seq<Tx> = self@;
            match bus_write_read(&mut self.bus, reg, count) {
                Ok(v) => {
                    proof {
                        assert(self@ == before.push(Tx::WriteRead { reg, data: v@, ok: true }));
                        assert(self@.subrange(0, orig.len() as int) =~= orig);
                    }
                    return Ok(v);
                },
                Err(_) => {
                    proof {
                        assert(self@.subrange(0, orig.len() as int) =~= orig);
                    }
                    if attempt >= MAX_RETRIES {
                        return Err(I2cError::Read { reg });
                    }
                    attempt = attempt + 1;
                    pause_millis(RETRY_DELAY_MS);
                },
            }
        }
    }

    /// Read a single byte from a register.
    pub(crate) fn read_byte(&mut self, reg: u8) -> (r: Result<u8, I2cError>)
        ensures
            final(self).firmware_cache() == old(self).firmware_cache(),
            r matches Ok(b) ==> spec_read(old(self)@, final(self)@, reg, seq![b], true),
            r matches Err(e) ==> e == (I2cError::Read { reg }) && spec_read(old(self)@,
                final(self)@, reg, Seq::empty(), false),
    {
        match self.read_bytes(reg, 1) {
            Ok(v) => {
                let b = v[0];
                proof {
                    assert(v@ =~= seq![b]);
                }
                Ok(b)
            },
            Err(e) => Err(e),
        }
    }

    /// Read a big-endian 16-bit word from a register.
    pub(crate) fn read_word(&mut self, reg: u8) -> (r: Result<u16, I2cError>)
        ensures
            final(self).firmware_cache() == old(self).firmware_cache(),
            r matches Ok(w) ==> spec_read(old(self)@, final(self)@, reg, spec_encode_word(w),
                true),
            r matches Err(e) ==> e == (I2cError::Read { reg }) && spec_read(old(self)@,
                final(self)@, reg, Seq::empty(), false),
    {
        match self.read_bytes(reg, 2) {
            Ok(v) => {
                let w = (v[0] as u16) * 256 + (v[1] as u16);
                proof {
                    assert(spec_encode_word(spec_word_value(v@[0], v@[1])) =~= v@);
                }
                Ok(w)
            },
            Err(e) => Err(e),
        }
    }

    /// Read a big-endian 32-bit value from a register.
    pub(crate) fn read_u32(&mut self, reg: u8) -> (r: Result<u32, I2cError>)
        ensures
            final(self).firmware_cache() == old(self).firmware_cache(),
            r matches Ok(w) ==> spec_read(old(self)@, final(self)@, reg, spec_encode_u32(w),
                true),
            r matches Err(e) ==> e == (I2cError::Read { reg }) && spec_read(old(self)@,
                final(self)@, reg, Seq::empty(), false),
    {
        match self.read_bytes(reg, 4) {
            Ok(v) => {
                let w = (v[0] as u32) * 0x1000000 + (v[1] as u32) * 0x10000 + (v[2] as u32) * 256
                    + (v[3] as u32);
                proof {
                    assert(w == protocol::spec_u32_value(v@[0], v@[1], v@[2], v@[3]));
                    assert(w / 0x1000000 == v@[0] && (w / 0x10000) % 256 == v@[1] && (w / 256)
                        % 256 == v@[2] && w % 256 == v@[3]) by (nonlinear_arith)
                        requires w == v@[0] * 0x1000000 + v@[1] * 0x10000 + v@[2] * 256 + v@[3]
                            && v@[0] < 256 && v@[1] < 256 && v@[2] < 256 && v@[3] < 256;
                    assert(spec_encode_u32(w) =~= v@);
                }
                Ok(w)
            },
            Err(e) => Err(e),
        }
    }

    /// Write a single byte to a register.
    pub(crate) fn write_byte(&mut self, reg: u8, value: u8) -> (r: Result<(), I2cError>)
        ensures
            final(self).firmware_cache() == old(self).firmware_cache(),
            spec_wrote(old(self)@, final(self)@, reg, seq![value], r is Ok),
            r matches Err(e) ==> e == (I2cError::Write { reg }),
    {
        let payload = [value];
        proof {
            assert(payload@ =~= seq![value]);
        }
        self.write_bytes(reg, &payload)
    }

    /// Write a big-endian 16-bit word to a register.
    pub(crate) fn write_word(&mut self, reg: u8, value: u16) -> (r: Result<(), I2cError>)
        ensures
            final(self).firmware_cache() == old(self).firmware_cache(),
            spec_wrote(old(self)@, final(self)@, reg, spec_encode_word(value), r is Ok),
            r matches Err(e) ==> e == (I2cError::Write { reg }),
    {
        let bytes = protocol::encode_word(value);
        self.write_bytes(reg, &bytes)
    }

    /// Write a big-endian 32-bit value to a register.
    pub(crate) fn write_u32(&mut self, reg: u8, value: u32) -> (r: Result<(), I2cError>)
        ensures
            final(self).firmware_cache() == old(self).firmware_cache(),
            spec_wrote(old(self)@, final(self)@, reg, spec_encode_u32(value), r is Ok),
            r matches Err(e) ==> e == (I2cError::Write { reg }),
    {
        let bytes = protocol::encode_u32(value);
        self.write_bytes(reg, &bytes)
    }

    //
    // Typed operations
    //

    /// Set the watchdog timeout in milliseconds; 0 disables the watchdog.
    pub fn set_watchdog_timeout(&mut self, timeout_ms: u16) -> (r: Result<(), I2cError>)
        ensures
            final(self).firmware_cache() == old(self).firmware_cache(),
            spec_wrote(old(self)@, final(self)@, protocol::REG_WATCHDOG_TIMEOUT,
                spec_encode_word(timeout_ms), r is Ok),
            r matches Err(e) ==> e == (I2cError::Write { reg: protocol::REG_WATCHDOG_TIMEOUT }),
    {
        self.write_word(protocol::REG_WATCHDOG_TIMEOUT, timeout_ms)
    }

    /// Read the watchdog timeout in milliseconds.
    pub fn get_watchdog_timeout(&mut self) -> (r: Result<u16, I2cError>)
        ensures
            final(self).firmware_cache() == old(self).firmware_cache(),
            r matches Ok(w) ==> spec_read(old(self)@, final(self)@,
                protocol::REG_WATCHDOG_TIMEOUT, spec_encode_word(w), true),
            r matches Err(e) ==> e == (I2cError::Read { reg: protocol::REG_WATCHDOG_TIMEOUT }),
            spec_prefix(final(self)@, old(self)@),
    {
        self.read_word(protocol::REG_WATCHDOG_TIMEOUT)
    }

    /// Feed the watchdog by resetting its elapsed counter.
    pub fn feed_watchdog(&mut self) -> (r: Result<(), I2cError>)
        ensures
            final(self).firmware_cache() == old(self).firmware_cache(),
            spec_wrote(old(self)@, final(self)@, protocol::REG_WATCHDOG_ELAPSED, seq![0x01u8],
                r is Ok),
            r matches Err(e) ==> e == (I2cError::Write { reg: protocol::REG_WATCHDOG_ELAPSED }),
    {
        self.write_byte(protocol::REG_WATCHDOG_ELAPSED, 0x01)
    }

    /// Set the power-on voltage threshold, in microvolts of the supercap
    /// scale.
    pub fn set_power_on_threshold(&mut self, microvolts: u32) -> (r: Result<(), I2cError>)
        ensures
            final(self).firmware_cache() == old(self).firmware_cache(),
            spec_wrote(old(self)@, final(self)@, protocol::REG_POWER_ON_THRESHOLD,
                spec_encode_word(spec_micro_to_analog_word(microvolts, protocol::VCAP_MAX_UV)),
                r is Ok),
            r matches Err(e) ==> e == (I2cError::Write {
                reg: protocol::REG_POWER_ON_THRESHOLD }),
    {
        let raw = protocol::micro_to_analog_word(microvolts, protocol::VCAP_MAX_UV);
        self.write_word(protocol::REG_POWER_ON_THRESHOLD, raw)
    }

    /// Read the power-on voltage threshold, in microvolts.
    pub fn get_power_on_threshold(&mut self) -> (r: Result<u32, I2cError>)
        ensures
            final(self).firmware_cache() == old(self).firmware_cache(),
            spec_prefix(final(self)@, old(self)@),
            r matches Ok(v) ==> v < protocol::VCAP_MAX_UV && spec_logged_analog_read(
                final(self)@, old(self)@.len() as int, protocol::REG_POWER_ON_THRESHOLD,
                protocol::VCAP_MAX_UV, v),
            r matches Err(e) ==> e == (I2cError::Read { reg: protocol::REG_POWER_ON_THRESHOLD }),
    {
        self.read_analog_word(protocol::REG_POWER_ON_THRESHOLD, protocol::VCAP_MAX_UV)
    }

    /// Set the solo-mode power-off voltage threshold, in microvolts of the
    /// supercap scale.
    pub fn set_solo_power_off_threshold(&mut self, microvolts: u32) -> (r: Result<(), I2cError>)
        ensures
            final(self).firmware_cache() == old(self).firmware_cache(),
            spec_wrote(old(self)@, final(self)@, protocol::REG_SOLO_POWEROFF_THRESHOLD,
                spec_encode_word(spec_micro_to_analog_word(microvolts, protocol::VCAP_MAX_UV)),
                r is Ok),
            r matches Err(e) ==> e == (I2cError::Write {
                reg: protocol::REG_SOLO_POWEROFF_THRESHOLD }),
    {
        let raw = protocol::micro_to_analog_word(microvolts, protocol::VCAP_MAX_UV);
        self.write_word(protocol::REG_SOLO_POWEROFF_THRESHOLD, raw)
    }

    /// Read the solo-mode power-off voltage threshold, in microvolts.
    pub fn get_solo_power_off_threshold(&mut self) -> (r: Result<u32, I2cError>)
        ensures
            final(self).firmware_cache() == old(self).firmware_cache(),
            spec_prefix(final(self)@, old(self)@),
            r matches Ok(v) ==> v < protocol::VCAP_MAX_UV && spec_logged_analog_read(
                final(self)@, old(self)@.len() as int, protocol::REG_SOLO_POWEROFF_THRESHOLD,
                protocol::VCAP_MAX_UV, v),
            r matches Err(e) ==> e == (I2cError::Read {
                reg: protocol::REG_SOLO_POWEROFF_THRESHOLD }),
    {
        self.read_analog_word(protocol::REG_SOLO_POWEROFF_THRESHOLD, protocol::VCAP_MAX_UV)
    }

    /// Enable or disable the 5 V output.
    pub fn set_5v_output_enabled(&mut self, enabled: bool) -> (r: Result<(), I2cError>)
        ensures
            final(self).firmware_cache() == old(self).firmware_cache(),
            spec_wrote(old(self)@, final(self)@, protocol::REG_EN5V_STATE,
                seq![if enabled { 1u8 } else { 0u8 }], r is Ok),
            r matches Err(e) ==> e == (I2cError::Write { reg: protocol::REG_EN5V_STATE }),
    {
        self.write_byte(protocol::REG_EN5V_STATE, if enabled { 1 } else { 0 })
    }

    /// Read the 5 V output enable state.
    pub fn get_5v_output_enabled(&mut self) -> (r: Result<bool, I2cError>)
        ensures
            final(self).firmware_cache() == old(self).firmware_cache(),
            spec_prefix(final(self)@, old(self)@),
            r matches Ok(on) ==> (final(self)@.last() matches Tx::WriteRead { reg, data, ok }
                && reg == protocol::REG_EN5V_STATE && ok && data.len() == 1
                && on == (data[0] != 0)),
            r matches Err(e) ==> e == (I2cError::Read { reg: protocol::REG_EN5V_STATE }),
    {
        match self.read_byte(protocol::REG_EN5V_STATE) {
            Ok(b) => Ok(b != 0),
            Err(e) => Err(e),
        }
    }

    /// Set the LED brightness, 0 through 255.
    pub fn set_led_brightness(&mut self, brightness: u8) -> (r: Result<(), I2cError>)
        ensures
            final(self).firmware_cache() == old(self).firmware_cache(),
            spec_wrote(old(self)@, final(self)@, protocol::REG_LED_BRIGHTNESS,
                seq![brightness], r is Ok),
            r matches Err(e) ==> e == (I2cError::Write { reg: protocol::REG_LED_BRIGHTNESS }),
    {
        self.write_byte(protocol::REG_LED_BRIGHTNESS, brightness)
    }

    /// Read the LED brightness.
    pub fn get_led_brightness(&mut self) -> (r: Result<u8, I2cError>)
        ensures
            final(self).firmware_cache() == old(self).firmware_cache(),
            spec_prefix(final(self)@, old(self)@),
            r matches Ok(b) ==> spec_read(old(self)@, final(self)@,
                protocol::REG_LED_BRIGHTNESS, seq![b], true),
            r matches Err(e) ==> e == (I2cError::Read { reg: protocol::REG_LED_BRIGHTNESS }),
    {
        self.read_byte(protocol::REG_LED_BRIGHTNESS)
    }

    /// Enable or disable automatic restart after shutdown.
    pub fn set_auto_restart(&mut self, enabled: bool) -> (r: Result<(), I2cError>)
        ensures
            final(self).firmware_cache() == old(self).firmware_cache(),
            spec_wrote(old(self)@, final(self)@, protocol::REG_AUTO_RESTART,
                seq![if enabled { 1u8 } else { 0u8 }], r is Ok),
            r matches Err(e) ==> e == (I2cError::Write { reg: protocol::REG_AUTO_RESTART }),
    {
        self.write_byte(protocol::REG_AUTO_RESTART, if enabled { 1 } else { 0 })
    }

    /// Read the automatic-restart flag.
    pub fn get_auto_restart(&mut self) -> (r: Result<bool, I2cError>)
        ensures
            final(self).firmware_cache() == old(self).firmware_cache(),
            spec_prefix(final(self)@, old(self)@),
            r matches Ok(on) ==> (final(self)@.last() matches Tx::WriteRead { reg, data, ok }
                && reg == protocol::REG_AUTO_RESTART && ok && data.len() == 1
                && on == (data[0] != 0)),
            r matches Err(e) ==> e == (I2cError::Read { reg: protocol::REG_AUTO_RESTART }),
    {
        match self.read_byte(protocol::REG_AUTO_RESTART) {
            Ok(b) => Ok(b != 0),
            Err(e) => Err(e),
        }
    }

    /// Set the solo-depleting timeout, in milliseconds.
    pub fn set_solo_depleting_timeout(&mut self, timeout_ms: u32) -> (r: Result<(), I2cError>)
        ensures
            final(self).firmware_cache() == old(self).firmware_cache(),
            spec_wrote(old(self)@, final(self)@, protocol::REG_SOLO_DEPLETING_TIMEOUT,
                spec_encode_u32(timeout_ms), r is Ok),
            r matches Err(e) ==> e == (I2cError::Write {
                reg: protocol::REG_SOLO_DEPLETING_TIMEOUT }),
    {
        self.write_u32(protocol::REG_SOLO_DEPLETING_TIMEOUT, timeout_ms)
    }

    /// Read the solo-depleting timeout, in milliseconds.
    pub fn get_solo_depleting_timeout(&mut self) -> (r: Result<u32, I2cError>)
        ensures
            final(self).firmware_cache() == old(self).firmware_cache(),
            spec_prefix(final(self)@, old(self)@),
            r matches Ok(w) ==> spec_read(old(self)@, final(self)@,
                protocol::REG_SOLO_DEPLETING_TIMEOUT, spec_encode_u32(w), true),
            r matches Err(e) ==> e == (I2cError::Read {
                reg: protocol::REG_SOLO_DEPLETING_TIMEOUT }),
    {
        self.read_u32(protocol::REG_SOLO_DEPLETING_TIMEOUT)
    }

    /// Read the USB port power bitmask; bits 0 through 3 are ports 0
    /// through 3.
    pub fn get_usb_port_state(&mut self) -> (r: Result<u8, I2cError>)
        ensures
            final(self).firmware_cache() == old(self).firmware_cache(),
            spec_prefix(final(self)@, old(self)@),
            r matches Ok(b) ==> spec_read(old(self)@, final(self)@,
                protocol::REG_USB_PORT_STATE, seq![b], true),
            r matches Err(e) ==> e == (I2cError::Read { reg: protocol::REG_USB_PORT_STATE }),
    {
        self.read_byte(protocol::REG_USB_PORT_STATE)
    }

    /// Write the USB port power bitmask. Only the lower four bits are
    /// meaningful; the rest are masked off before the write.
    pub fn set_usb_port_state(&mut self, port_bits: u8) -> (r: Result<(), I2cError>)
        ensures
            final(self).firmware_cache() == old(self).firmware_cache(),
            spec_wrote(old(self)@, final(self)@, protocol::REG_USB_PORT_STATE,
                seq![port_bits & 0x0F], r is Ok),
            r matches Err(e) ==> e == (I2cError::Write { reg: protocol::REG_USB_PORT_STATE }),
    {
        self.write_byte(protocol::REG_USB_PORT_STATE, port_bits & 0x0F)
    }

    /// Ask the controller to begin a graceful shutdown: write 0x01 to the
    /// shutdown-request register; no other value is ever written there.
    pub fn request_shutdown(&mut self) -> (r: Result<(), I2cError>)
        ensures
            final(self).firmware_cache() == old(self).firmware_cache(),
            spec_wrote(old(self)@, final(self)@, protocol::REG_REQUEST_SHUTDOWN, seq![0x01u8],
                r is Ok),
            r matches Err(e) ==> e == (I2cError::Write { reg: protocol::REG_REQUEST_SHUTDOWN }),
    {
        self.write_byte(protocol::REG_REQUEST_SHUTDOWN, 0x01)
    }

    /// Ask the controller to enter standby: write 0x01 to the
    /// standby-request register; no other value is ever written there.
    pub fn request_standby(&mut self) -> (r: Result<(), I2cError>)
        ensures
            final(self).firmware_cache() == old(self).firmware_cache(),
            spec_wrote(old(self)@, final(self)@, protocol::REG_REQUEST_STANDBY, seq![0x01u8],
                r is Ok),
            r matches Err(e) ==> e == (I2cError::Write { reg: protocol::REG_REQUEST_STANDBY }),
    {
        self.write_byte(protocol::REG_REQUEST_STANDBY, 0x01)
    }

    /// Read the current power state; a byte naming no state is an error.
    pub fn get_power_state(&mut self) -> (r: Result<crate::types::PowerState, I2cError>)
        ensures
            final(self).firmware_cache() == old(self).firmware_cache(),
            spec_prefix(final(self)@, old(self)@),
            final(self)@.len() > old(self)@.len(),
            spec_new_are_read_attempts(final(self)@, old(self)@.len() as int,
                protocol::REG_POWER_STATE),
            r matches Ok(s) ==> spec_read(old(self)@, final(self)@, protocol::REG_POWER_STATE,
                seq![crate::types::spec_client_state_byte(s)], true),
            r matches Err(e) ==> (e == (I2cError::Read { reg: protocol::REG_POWER_STATE })
                || e matches I2cError::InvalidState { state: _ }),
            r matches Err(I2cError::InvalidState { state })
                ==> crate::types::spec_client_state_from_byte(state) is None,
    {
        match self.read_byte(protocol::REG_POWER_STATE) {
            Ok(b) => match crate::types::PowerState::from_byte(b) {
                Some(s) => Ok(s),
                None => Err(I2cError::InvalidState { state: b }),
            },
            Err(e) => Err(e),
        }
    }

    /// Read the hardware version.
    pub fn get_hardware_version(&mut self) -> (r: Result<Version, I2cError>)
        ensures
            final(self).firmware_cache() == old(self).firmware_cache(),
            spec_prefix(final(self)@, old(self)@),
            r matches Ok(v) ==> spec_read(old(self)@, final(self)@,
                protocol::REG_HARDWARE_VERSION, seq![v.major, v.minor, v.patch, v.alpha], true),
            r matches Err(e) ==> e == (I2cError::Read { reg: protocol::REG_HARDWARE_VERSION }),
    {
        match self.read_bytes(protocol::REG_HARDWARE_VERSION, 4) {
            Ok(v) => {
                let ver = Version::from_bytes([v[0], v[1], v[2], v[3]]);
                proof {
                    assert(v@ =~= seq![ver.major, ver.minor, ver.patch, ver.alpha]);
                }
                Ok(ver)
            },
            Err(e) => Err(e),
        }
    }

    /// Read the firmware version.
    pub fn get_firmware_version(&mut self) -> (r: Result<Version, I2cError>)
        ensures
            final(self).firmware_cache() == old(self).firmware_cache(),
            spec_prefix(final(self)@, old(self)@),
            r matches Ok(v) ==> spec_read(old(self)@, final(self)@,
                protocol::REG_FIRMWARE_VERSION, seq![v.major, v.minor, v.patch, v.alpha], true),
            r matches Err(e) ==> e == (I2cError::Read { reg: protocol::REG_FIRMWARE_VERSION }),
    {
        match self.read_bytes(protocol::REG_FIRMWARE_VERSION, 4) {
            Ok(v) => {
                let ver = Version::from_bytes([v[0], v[1], v[2], v[3]]);
                proof {
                    assert(v@ =~= seq![ver.major, ver.minor, ver.patch, ver.alpha]);
                }
                Ok(ver)
            },
            Err(e) => Err(e),
        }
    }

    /// The firmware version rendered as a string, cached after the first
    /// successful read: that read fills the cache from the four version
    /// bytes, and every later call answers from the cache without touching
    /// the bus. The cache is never invalidated, since the firmware cannot
    /// change under the daemon except through the DFU engine it runs
    /// itself.
    pub fn firmware_version(&mut self) -> (r: Result<String, I2cError>)
        ensures
            spec_prefix(final(self)@, old(self)@),
            old(self).firmware_cache() matches Some(cached) ==> {
                &&& final(self)@ == old(self)@
                &&& final(self).firmware_cache() == old(self).firmware_cache()
                &&& r matches Ok(out) && out@ == cached
            },
            old(self).firmware_cache() is None ==> {
                &&& r matches Ok(out) ==> exists|v: Version|
                    #![trigger spec_version_bytes(v)]
                    spec_read(old(self)@, final(self)@, protocol::REG_FIRMWARE_VERSION,
                        spec_version_bytes(v), true) && out@ == spec_version_string(v)
                    && final(self).firmware_cache() == Some(out@)
                &&& r matches Err(e) ==> e == (I2cError::Read {
                    reg: protocol::REG_FIRMWARE_VERSION }) && final(self).firmware_cache()
                    is None
            },
    {
        proof {
            assert(old(self)@.subrange(0, old(self)@.len() as int) =~= old(self)@);
        }
        if self.firmware_version.is_none() {
            match self.get_firmware_version() {
                Ok(ver) => {
                    proof {
                        assert(self@.last() == (Tx::WriteRead {
                            reg: protocol::REG_FIRMWARE_VERSION, data: spec_version_bytes(ver),
                            ok: true }));
                    }
                    self.firmware_version = Some(ver.display_string());
                },
                Err(e) => {
                    return Err(e);
                },
            }
        }
        match &self.firmware_version {
            Some(s) => Ok(s.clone()),
            None => Err(I2cError::Read { reg: protocol::REG_FIRMWARE_VERSION }),
        }
    }

    /// Read the device's unique identifier and render it as sixteen
    /// hexadecimal characters.
    pub fn get_device_id(&mut self) -> (r: Result<String, I2cError>)
        ensures
            final(self).firmware_cache() == old(self).firmware_cache(),
            spec_prefix(final(self)@, old(self)@),
            r matches Ok(s) ==> exists|data: Seq<u8>|
                #[trigger] spec_read(old(self)@, final(self)@, protocol::REG_DEVICE_ID, data,
                    true) && s@ == crate::types::spec_hex(data),
            r matches Err(e) ==> e == (I2cError::Read { reg: protocol::REG_DEVICE_ID }),
    {
        match self.read_bytes(protocol::REG_DEVICE_ID, 8) {
            Ok(v) => {
                let s = crate::types::hex_string(v.as_slice());
                Ok(s)
            },
            Err(e) => Err(e),
        }
    }

    /// Read one analog register and scale it to micro-units.
    fn read_analog_word(&mut self, reg: u8, scale: u32) -> (r: Result<u32, I2cError>)
        requires
            0 < scale <= 2_000_000_000,
        ensures
            final(self).firmware_cache() == old(self).firmware_cache(),
            spec_prefix(final(self)@, old(self)@),
            final(self)@.len() > old(self)@.len(),
            spec_new_are_read_attempts(final(self)@, old(self)@.len() as int, reg),
            r matches Ok(v) ==> v < scale && spec_logged_analog_read(final(self)@,
                old(self)@.len() as int, reg, scale, v),
            r matches Err(e) ==> e == (I2cError::Read { reg }),
    {
        match self.read_word(reg) {
            Ok(raw) => {
                proof {
                    protocol::lemma_analog_decode_below_scale(raw, scale);
                    assert(final(self)@[final(self)@.len() - 1] == (Tx::WriteRead { reg,
                        data: spec_encode_word(raw), ok: true }));
                }
                Ok(protocol::analog_word_to_micro(raw, scale))
            },
            Err(e) => Err(e),
        }
    }

    /// Read every measurement in one pass: the five analog channels, the
    /// power state and the watchdog elapsed counter. A failure of any one
    /// read fails the whole operation and discards partial results.
    ///
    /// A successful call has issued at least seven transactions, each of
    /// which feeds the hardware watchdog as a side effect.
    pub fn get_measurements(&mut self) -> (r: Result<Measurements, I2cError>)
        ensures
            final(self).firmware_cache() == old(self).firmware_cache(),
            spec_prefix(final(self)@, old(self)@),
            final(self)@.len() > old(self)@.len(),
            forall|i: int| old(self)@.len() <= i < final(self)@.len() ==> !tx_is_write(
                #[trigger] final(self)@[i]) && spec_measurement_reg(tx_reg(final(self)@[i])),
            r matches Err(e) ==> ((e matches I2cError::Read { reg }
                && spec_measurement_reg(reg)) || e matches I2cError::InvalidState { state: _ }),
            r is Ok ==> final(self)@.len() >= old(self)@.len() + 7,
            r matches Ok(m) ==> {
                &&& m.dcin_voltage < protocol::DCIN_MAX_UV
                &&& m.supercap_voltage < protocol::VCAP_MAX_UV
                &&& m.input_current < protocol::I_MAX_UA
                &&& protocol::TEMP_MIN_UK <= m.mcu_temperature < protocol::TEMP_MAX_UK
                &&& protocol::TEMP_MIN_UK <= m.pcb_temperature < protocol::TEMP_MAX_UK
                &&& spec_measurements_logged(final(self)@, old(self)@.len() as int, m)
            },
    {
        let ghost h0 = self@;
        let dcin_voltage = match self.read_analog_word(protocol::REG_DCIN_VOLTAGE,
            protocol::DCIN_MAX_UV) {
            Ok(v) => v,
            Err(e) => {
                proof {
                    lemma_extend_measurement_reads(h0, h0, self@, protocol::REG_DCIN_VOLTAGE);
                }
                return Err(e);
            },
        };
        proof {
            lemma_extend_measurement_reads(h0, h0, self@, protocol::REG_DCIN_VOLTAGE);
        }
        let ghost h1 = self@;
        let supercap_voltage = match self.read_analog_word(protocol::REG_SUPERCAP_VOLTAGE,
            protocol::VCAP_MAX_UV) {
            Ok(v) => v,
            Err(e) => {
                proof {
                    crate::bus::lemma_prefix_trans(h0, h1, self@);
                    lemma_extend_measurement_reads(h0, h1, self@, protocol::REG_SUPERCAP_VOLTAGE);
                }
                return Err(e);
            },
        };
        proof {
            crate::bus::lemma_prefix_trans(h0, h1, self@);
            lemma_extend_measurement_reads(h0, h1, self@, protocol::REG_SUPERCAP_VOLTAGE);
        }
        let ghost h2 = self@;
        let input_current = match self.read_analog_word(protocol::REG_INPUT_CURRENT,
            protocol::I_MAX_UA) {
            Ok(v) => v,
            Err(e) => {
                proof {
                    crate::bus::lemma_prefix_trans(h0, h2, self@);
                    lemma_extend_measurement_reads(h0, h2, self@, protocol::REG_INPUT_CURRENT);
                }
                return Err(e);
            },
        };
        proof {
            crate::bus::lemma_prefix_trans(h0, h2, self@);
            lemma_extend_measurement_reads(h0, h2, self@, protocol::REG_INPUT_CURRENT);
        }
        let ghost h3 = self@;
        let mcu_offset = match self.read_analog_word(protocol::REG_MCU_TEMPERATURE,
            protocol::TEMP_RANGE_UK) {
            Ok(v) => v,
            Err(e) => {
                proof {
                    crate::bus::lemma_prefix_trans(h0, h3, self@);
                    lemma_extend_measurement_reads(h0, h3, self@, protocol::REG_MCU_TEMPERATURE);
                }
                return Err(e);
            },
        };
        proof {
            crate::bus::lemma_prefix_trans(h0, h3, self@);
            lemma_extend_measurement_reads(h0, h3, self@, protocol::REG_MCU_TEMPERATURE);
        }
        let mcu_temperature = mcu_offset + protocol::TEMP_MIN_UK;
        let ghost h4 = self@;
        let pcb_offset = match self.read_analog_word(protocol::REG_PCB_TEMPERATURE,
            protocol::TEMP_RANGE_UK) {
            Ok(v) => v,
            Err(e) => {
                proof {
                    crate::bus::lemma_prefix_trans(h0, h4, self@);
                    lemma_extend_measurement_reads(h0, h4, self@, protocol::REG_PCB_TEMPERATURE);
                }
                return Err(e);
            },
        };
        proof {
            crate::bus::lemma_prefix_trans(h0, h4, self@);
            lemma_extend_measurement_reads(h0, h4, self@, protocol::REG_PCB_TEMPERATURE);
        }
        let pcb_temperature = pcb_offset + protocol::TEMP_MIN_UK;
        let ghost h5 = self@;
        let power_state = match self.get_power_state() {
            Ok(s) => s,
            Err(e) => {
                proof {
                    crate::bus::lemma_prefix_trans(h0, h5, self@);
                    lemma_extend_measurement_reads(h0, h5, self@, protocol::REG_POWER_STATE);
                }
                return Err(e);
            },
        };
        proof {
            crate::bus::lemma_prefix_trans(h0, h5, self@);
            lemma_extend_measurement_reads(h0, h5, self@, protocol::REG_POWER_STATE);
        }
        let ghost h6 = self@;
        let watchdog_elapsed_ds = match self.read_byte(protocol::REG_WATCHDOG_ELAPSED) {
            Ok(b) => b,
            Err(e) => {
                proof {
                    crate::bus::lemma_prefix_trans(h0, h6, self@);
                    lemma_extend_measurement_reads(h0, h6, self@, protocol::REG_WATCHDOG_ELAPSED);
                }
                return Err(e);
            },
        };
        proof {
            crate::bus::lemma_prefix_trans(h0, h6, self@);
            lemma_extend_measurement_reads(h0, h6, self@, protocol::REG_WATCHDOG_ELAPSED);
        }
        let m = Measurements {
            dcin_voltage,
            supercap_voltage,
            input_current,
            mcu_temperature,
            pcb_temperature,
            power_state,
            watchdog_elapsed_ds,
        };
        proof {
            // The final history extends every intermediate snapshot.
            crate::bus::lemma_prefix_trans(h5, h6, self@);
            crate::bus::lemma_prefix_trans(h4, h5, self@);
            crate::bus::lemma_prefix_trans(h3, h4, self@);
            crate::bus::lemma_prefix_trans(h2, h3, self@);
            crate::bus::lemma_prefix_trans(h1, h2, self@);
            // Each field's successful read persists into it.
            lemma_logged_analog_read_persists(h1, self@, h0.len() as int, h0.len() as int,
                protocol::REG_DCIN_VOLTAGE, protocol::DCIN_MAX_UV, dcin_voltage);
            lemma_logged_analog_read_persists(h2, self@, h0.len() as int, h1.len() as int,
                protocol::REG_SUPERCAP_VOLTAGE, protocol::VCAP_MAX_UV, supercap_voltage);
            lemma_logged_analog_read_persists(h3, self@, h0.len() as int, h2.len() as int,
                protocol::REG_INPUT_CURRENT, protocol::I_MAX_UA, input_current);
            assert((m.mcu_temperature - protocol::TEMP_MIN_UK) as u32 == mcu_offset);
            lemma_logged_analog_read_persists(h4, self@, h0.len() as int, h3.len() as int,
                protocol::REG_MCU_TEMPERATURE, protocol::TEMP_RANGE_UK, mcu_offset);
            assert((m.pcb_temperature - protocol::TEMP_MIN_UK) as u32 == pcb_offset);
            lemma_logged_analog_read_persists(h5, self@, h0.len() as int, h4.len() as int,
                protocol::REG_PCB_TEMPERATURE, protocol::TEMP_RANGE_UK, pcb_offset);
            // The power-state read is the last entry of its snapshot, and the
            // watchdog-elapsed read is the last entry overall.
            crate::bus::lemma_prefix_preserves_index(h6, self@, h6.len() - 1);
            assert(self@[h6.len() - 1] == (Tx::WriteRead { reg: protocol::REG_POWER_STATE,
                data: seq![crate::types::spec_client_state_byte(power_state)], ok: true }));
            assert(self@[self@.len() - 1] == (Tx::WriteRead {
                reg: protocol::REG_WATCHDOG_ELAPSED, data: seq![watchdog_elapsed_ds],
                ok: true }));
        }
        Ok(m)
    }
}

} // verus!
