//! Errors of the I2C layer and of the firmware-update protocol.

use vstd::prelude::*;

use crate::protocol::{DFUState, ProtocolError};

verus! {

/// Errors of I2C communication and of the DFU protocol run over it.
///
/// Bus failures carry the register and direction for diagnostics; the
/// underlying kernel error is reported by the caller that observed it.
#[derive(Debug, Clone, Copy, PartialEq, Eq, Structural)]
pub enum I2cError {
    /// The I2C device node could not be opened
    DeviceOpen { bus: u8, addr: u8 },
    /// A read transaction on this register failed after all retries
    Read { reg: u8 },
    /// A write transaction on this register failed after all retries
    Write { reg: u8 },
    /// Bytes read from this register could not be decoded
    Protocol { reg: u8, source: ProtocolError },
    /// The power-state register held a byte that names no state
    InvalidState { state: u8 },
    /// The DFU status register held a byte that names no state
    InvalidDfuState { state: u8 },
    /// A firmware block larger than the flash block size was offered
    InvalidBlockSize { size: usize, max_size: usize },
    /// The controller reported a failed update
    DfuError { state: DFUState },
    /// The controller reported a state the protocol does not allow here
    DfuUnexpectedState { expected: DFUState, actual: DFUState },
    /// The controller kept reporting a full queue through every retry
    DfuQueueFullTimeout,
}

} // verus!
