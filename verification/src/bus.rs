//! The I2C bus: a handle on the kernel device, and a ghost history of every
//! transaction issued through it.
//!
//! Each wrapper here performs exactly one kernel I2C transaction and
//! records it in the history, so that the layers above can state, per
//! operation, which transactions reached the wire: a retry is a fresh
//! transaction, a combined write-then-read is one transaction, and nothing
//! is issued that the history does not show.

use vstd::prelude::*;

use i2cdev::linux::LinuxI2CDevice;
use i2cdev::linux::LinuxI2CError;
use i2cdev::linux::LinuxI2CMessage;

verus! {

/// The kernel I2C device handle of the i2cdev crate.
#[verifier::external_type_specification]
#[verifier::external_body]
pub struct ExLinuxI2CDevice(LinuxI2CDevice);

/// The error type of the i2cdev crate.
#[verifier::external_type_specification]
#[verifier::external_body]
pub struct ExLinuxI2CError(LinuxI2CError);

/// One I2C transaction as the kernel driver saw it: a plain write of a
/// register address followed by a payload, or a combined
/// write-register-then-read returning the data, each with its outcome.
pub enum Tx {
    Write { reg: u8, data: Seq<u8>, ok: bool },
    WriteRead { reg: u8, data: Seq<u8>, ok: bool },
}

/// Whether a transaction succeeded.
pub open spec fn tx_ok(t: Tx) -> bool {
    match t {
        Tx::Write { ok, .. } => ok,
        Tx::WriteRead { ok, .. } => ok,
    }
}

/// The register a transaction addressed.
pub open spec fn tx_reg(t: Tx) -> u8 {
    match t {
        Tx::Write { reg, .. } => reg,
        Tx::WriteRead { reg, .. } => reg,
    }
}

/// Whether a transaction was a plain write.
pub open spec fn tx_is_write(t: Tx) -> bool {
    t is Write
}

/// The payload written, or the bytes read.
pub open spec fn tx_data(t: Tx) -> Seq<u8> {
    match t {
        Tx::Write { data, .. } => data,
        Tx::WriteRead { data, .. } => data,
    }
}

/// An open I2C connection to one slave, together with the history of every
/// transaction issued through it.
pub struct I2cBus {
    dev: LinuxI2CDevice,
    history: Ghost<Seq<Tx>>,
}

impl View for I2cBus {
    type V = Seq<Tx>;

    /// The transactions issued through this bus so far, oldest first.
    closed spec fn view(&self) -> Seq<Tx> {
        self.history@
    }
}

/// Relies on i2cdev's LinuxI2CDevice::new: opens /dev/i2c-<bus> read-write
/// and sets the 7-bit slave address on it.
#[verifier::external_body]
pub(crate) fn bus_open(bus: u8, addr: u8) -> (r: Result<I2cBus, LinuxI2CError>)
    ensures
        r matches Ok(b) ==> b@ == Seq::<Tx>::empty(),
{
    let path = format!("/dev/i2c-{}", bus);
    match LinuxI2CDevice::new(&path, addr as u16) {
        Ok(dev) => Ok(I2cBus { dev, history: Ghost(Seq::empty()) }),
        Err(e) => Err(e),
    }
}

/// Relies on i2cdev's I2CDevice::write for LinuxI2CDevice: one plain I2C
/// write transaction carrying the register address followed by the
/// payload. The kernel's i2c-dev write path carries at most 8 KiB in one
/// message, so longer payloads are excluded: the recorded transaction must
/// never claim bytes the wire could not carry.
#[verifier::external_body]
pub(crate) fn bus_write(bus: &mut I2cBus, reg: u8, payload: &[u8]) -> (r: Result<(), LinuxI2CError>)
    requires
        payload@.len() + 1 <= 8192,
    ensures
        final(bus)@ == old(bus)@.push(Tx::Write { reg, data: payload@, ok: r is Ok }),
{
    let mut data = Vec::with_capacity(1 + payload.len());
    data.push(reg);
    data.extend_from_slice(payload);
    i2cdev::core::I2CDevice::write(&mut bus.dev, &data)
}

/// Relies on i2cdev's I2CTransfer::transfer for LinuxI2CDevice: one
/// combined write-register-then-read transaction; on success the kernel
/// has filled the buffer with exactly the requested count. An I2C message
/// length is a 16-bit field, so larger counts are excluded.
#[verifier::external_body]
pub(crate) fn bus_write_read(bus: &mut I2cBus, reg: u8, count: usize) -> (r: Result<
    Vec<u8>, LinuxI2CError>)
    requires
        count <= 65535,
    ensures
        r matches Ok(v) ==> v@.len() == count && final(bus)@ == old(bus)@.push(Tx::WriteRead {
            reg, data: v@, ok: true }),
        r is Err ==> final(bus)@ == old(bus)@.push(Tx::WriteRead { reg, data: Seq::empty(),
            ok: false }),
{
    let regbuf = [reg];
    let mut buf = vec![0u8; count];
    let mut msgs = [
        <LinuxI2CMessage as i2cdev::core::I2CMessage>::write(&regbuf),
        <LinuxI2CMessage as i2cdev::core::I2CMessage>::read(&mut buf),
    ];
    match i2cdev::core::I2CTransfer::transfer(&mut bus.dev, &mut msgs) {
        Ok(_) => Ok(buf),
        Err(e) => Err(e),
    }
}

/// Pauses the calling thread for about the given number of milliseconds by
/// waiting out a deadline on std's monotonic Instant clock. It enters no
/// async runtime and cannot panic, so it is safe on a thread that is
/// already driving one - which is exactly where the retry and queue-full
/// backoffs run.
#[verifier::external_body]
pub(crate) fn pause_millis(ms: u64) {
    let deadline = std::time::Duration::from_millis(ms);
    let start = std::time::Instant::now();
    while start.elapsed() < deadline {
        std::hint::spin_loop();
    }
}

// ============================================================================
// Histories and their prefixes
// ============================================================================

/// `t` is a prefix of `s`: the transactions in `t` happened, in that order,
/// before anything `s` adds.
pub open spec fn spec_prefix(s: Seq<Tx>, t: Seq<Tx>) -> bool {
    t.len() <= s.len() && s.subrange(0, t.len() as int) == t
}

/// A prefix agrees with the longer history entry by entry.
pub proof fn lemma_prefix_preserves_index(a: Seq<Tx>, b: Seq<Tx>, i: int)
    requires
        spec_prefix(b, a),
        0 <= i < a.len(),
    ensures
        b[i] == a[i],
{
    assert(b.subrange(0, a.len() as int)[i] == b[i]);
}

/// Prefixes chain: what extends an extension extends the original.
pub proof fn lemma_prefix_trans(a: Seq<Tx>, b: Seq<Tx>, c: Seq<Tx>)
    requires
        spec_prefix(b, a),
        spec_prefix(c, b),
    ensures
        spec_prefix(c, a),
{
    assert(c.subrange(0, a.len() as int) =~= a) by {
        assert(forall|i: int| 0 <= i < a.len() ==> c.subrange(0, b.len() as int)[i] == c[i]);
        assert(forall|i: int| 0 <= i < a.len() ==> b.subrange(0, a.len() as int)[i] == b[i]);
    }
}

} // verus!
