//! Firmware update (DFU) engine.
//!
//! The upload protocol is block-oriented: a start command carries the total
//! size, each block goes to the upload register framed with a CRC32, the
//! status register answers each block, and the session ends in exactly one
//! commit or abort.
//!
//! The decision logic is a pure state machine, [`DfuEngine`]: it says which
//! operation to perform next, and consumes the outcome of each operation.
//! The driver that runs it against the device is in this module too (below),
//! so every path the controller can take - queue-full backpressure, error
//! states, the final ready-to-commit handshake - is decided by verified
//! code.

use vstd::prelude::*;

use crate::bus::{Tx, tx_is_write, tx_ok, tx_reg};
use crate::device::{HalpiDevice, spec_read, spec_wrote};
use crate::errors::I2cError;
use crate::protocol;
use crate::protocol::{
    DFUState, FLASH_BLOCK_SIZE, spec_encode_u32, spec_encode_word,
};

verus! {

/// Maximum number of uploads of one block while the controller reports a
/// full queue.
pub const QUEUE_FULL_MAX_RETRIES: u8 = 10;

/// Delay between queue-full retries, in milliseconds.
pub const QUEUE_FULL_RETRY_DELAY_MS: u64 = 100;

/// Largest firmware the block numbering can address: 65536 blocks of
/// 4 KiB.
pub const MAX_FIRMWARE_SIZE: usize = 0x1000_0000;

// ============================================================================
// Block framing
// ============================================================================

/// CRC32 (IEEE 802.3) of a byte sequence, as crc32fast computes it. The
/// checksum is a function of the bytes alone; its value is stated nowhere
/// and checked against the crc32fast crate by the tests.
pub uninterp spec fn crc32_of(data: Seq<u8>) -> u32;

/// Relies on crc32fast::hash: the IEEE 802.3 CRC32 of the bytes, a function
/// of the bytes alone.
#[verifier::external_body]
fn crc32(data: &[u8]) -> (r: u32)
    ensures
        r == crc32_of(data@),
{
    crc32fast::hash(data)
}

/// The payload of one upload-block message: block number and block length
/// as big-endian words, then the data.
pub open spec fn spec_block_payload(block_num: u16, data: Seq<u8>) -> Seq<u8>
    recommends
        data.len() <= FLASH_BLOCK_SIZE,
{
    spec_encode_word(block_num) + spec_encode_word(data.len() as u16) + data
}

/// The full wire message of one upload-block write: the CRC32 of the
/// payload as a big-endian u32, then the payload. The CRC covers the block
/// number, the length and the data, not itself.
pub open spec fn spec_block_message(block_num: u16, data: Seq<u8>) -> Seq<u8>
    recommends
        data.len() <= FLASH_BLOCK_SIZE,
{
    spec_encode_u32(crc32_of(spec_block_payload(block_num, data))) + spec_block_payload(
        block_num, data)
}

/// Build the payload of one upload-block message.
pub fn dfu_block_payload(block_num: u16, data: &[u8]) -> (r: Vec<u8>)
    requires
        data@.len() <= FLASH_BLOCK_SIZE,
    ensures
        r@ == spec_block_payload(block_num, data@),
{
    let num_bytes = crate::protocol::encode_word(block_num);
    let len_bytes = crate::protocol::encode_word(data.len() as u16);
    let mut payload: Vec<u8> = Vec::new();
    payload.push(num_bytes[0]);
    payload.push(num_bytes[1]);
    payload.push(len_bytes[0]);
    payload.push(len_bytes[1]);
    payload.extend_from_slice(data);
    assert(payload@ =~= spec_block_payload(block_num, data@));
    payload
}

/// Build the full wire message of one upload-block write: the big-endian
/// CRC32 of the payload, then the payload itself.
pub fn dfu_block_message(block_num: u16, data: &[u8]) -> (r: Vec<u8>)
    requires
        data@.len() <= FLASH_BLOCK_SIZE,
    ensures
        r@ == spec_block_message(block_num, data@),
{
    let payload = dfu_block_payload(block_num, data);
    let checksum = crc32(payload.as_slice());
    let crc_bytes = crate::protocol::encode_u32(checksum);
    let mut message: Vec<u8> = Vec::new();
    message.push(crc_bytes[0]);
    message.push(crc_bytes[1]);
    message.push(crc_bytes[2]);
    message.push(crc_bytes[3]);
    message.extend_from_slice(payload.as_slice());
    proof {
        assert(message@ =~= spec_block_message(block_num, data@));
    }
    message
}

// ============================================================================
// Number of blocks
// ============================================================================

/// Number of 4 KiB blocks a firmware of this size occupies (rounded up).
pub open spec fn spec_block_count(len: nat) -> nat {
    ((len + (FLASH_BLOCK_SIZE - 1)) / (FLASH_BLOCK_SIZE as int)) as nat
}

// ============================================================================
// The engine
// ============================================================================

/// Where a DFU session stands: which operation comes next.
#[derive(Debug, Clone, Copy, PartialEq, Eq, Structural)]
pub enum DfuPhase {
    /// Write the start command with the total size
    Begin,
    /// Write block `block`, for the `attempt`-th time
    Upload { block: u32, attempt: u8 },
    /// Read the status register after uploading `block`
    Status { block: u32, attempt: u8 },
    /// Re-read the status once after the last block answered Updating
    FinalStatus,
    /// Write the commit command
    Committing,
    /// Write the abort command, then fail with this error
    Aborting { err: I2cError },
    /// The session committed
    Done,
    /// The session was aborted and surfaces this error
    Failed { err: I2cError },
}

/// What one device operation of the session yielded.
#[derive(Debug, Clone, Copy, PartialEq, Eq, Structural)]
pub enum DfuEvent {
    /// The write the engine asked for succeeded
    WriteOk,
    /// The operation failed on the bus, or a status byte did not decode
    Failed { err: I2cError },
    /// The status register answered this state
    Status { status: DFUState },
}

/// The next operation a driver must perform for the engine.
#[derive(Debug, Clone, Copy, PartialEq, Eq)]
pub enum DfuAction {
    /// Write the total size to the DFU start register
    WriteStart { total_size: u32 },
    /// Frame and write block `block`; when `pause_first` is set, wait the
    /// queue-full delay beforehand
    WriteBlock { block: u32, pause_first: bool },
    /// Read the DFU status register
    ReadStatus,
    /// Write the commit command
    WriteCommit,
    /// Write the abort command (best-effort; its own failure is ignored)
    WriteAbort,
    /// The session is over with this result
    Finished { result: Result<(), I2cError> },
}

/// Pure decision core of a DFU session over a firmware of a known size.
#[derive(Debug, Clone, Copy, PartialEq, Eq, Structural)]
pub struct DfuEngine {
    /// Total firmware size in bytes
    pub total_size: u32,
    /// Number of 4 KiB blocks the firmware occupies
    pub n_blocks: u32,
    /// Where the session stands
    pub phase: DfuPhase,
}

/// The transition relation of the engine, one event at a time.
///
/// Failures of any operation lead through Aborting, so that a session that
/// does not commit always attempts an abort. Queue-full answers repeat the
/// same block up to the retry cap with a pause in between; error states
/// abort; Updating moves to the next block; the last block may answer
/// ReadyToCommit directly, or Updating once, followed by one final
/// ReadyToCommit check. The abort's own outcome is ignored.
pub open spec fn spec_dfu_next(eng: DfuEngine, ev: DfuEvent) -> DfuEngine {
    let phase = match eng.phase {
        DfuPhase::Begin => match ev {
            DfuEvent::WriteOk => {
                if eng.n_blocks == 0 {
                    DfuPhase::FinalStatus
                } else {
                    DfuPhase::Upload { block: 0, attempt: 0 }
                }
            },
            DfuEvent::Failed { err } => DfuPhase::Aborting { err },
            _ => eng.phase,
        },
        DfuPhase::Upload { block, attempt } => match ev {
            DfuEvent::WriteOk => DfuPhase::Status { block, attempt },
            DfuEvent::Failed { err } => DfuPhase::Aborting { err },
            _ => eng.phase,
        },
        DfuPhase::Status { block, attempt } => match ev {
            DfuEvent::Status { status } => spec_status_decision(eng.n_blocks, block, attempt,
                status),
            DfuEvent::Failed { err } => DfuPhase::Aborting { err },
            _ => eng.phase,
        },
        DfuPhase::FinalStatus => match ev {
            DfuEvent::Status { status } => {
                if status is ReadyToCommit {
                    DfuPhase::Committing
                } else {
                    DfuPhase::Aborting { err: I2cError::DfuUnexpectedState {
                        expected: DFUState::ReadyToCommit, actual: status } }
                }
            },
            DfuEvent::Failed { err } => DfuPhase::Aborting { err },
            _ => eng.phase,
        },
        DfuPhase::Committing => match ev {
            DfuEvent::WriteOk => DfuPhase::Done,
            DfuEvent::Failed { err } => DfuPhase::Aborting { err },
            _ => eng.phase,
        },
        DfuPhase::Aborting { err } => DfuPhase::Failed { err },
        DfuPhase::Done => eng.phase,
        DfuPhase::Failed { err } => eng.phase,
    };
    DfuEngine { phase, ..eng }
}

/// What a status answer after one block decides.
///
/// QueueFull repeats the block until the retry cap, then times the session
/// out. Updating accepts the block: the next block follows, or, after the
/// last one, a final status check. ReadyToCommit is accepted exactly after
/// the last block. Error states abort with the reported state; anything
/// else aborts as an unexpected state.
pub open spec fn spec_status_decision(n_blocks: u32, block: u32, attempt: u8, status: DFUState)
    -> DfuPhase {
    if status is QueueFull {
        if attempt + 1 < QUEUE_FULL_MAX_RETRIES {
            DfuPhase::Upload { block, attempt: (attempt + 1) as u8 }
        } else {
            DfuPhase::Aborting { err: I2cError::DfuQueueFullTimeout }
        }
    } else if status is Updating {
        if block + 1 < n_blocks {
            DfuPhase::Upload { block: (block + 1) as u32, attempt: 0 }
        } else {
            DfuPhase::FinalStatus
        }
    } else if status is ReadyToCommit {
        if block + 1 == n_blocks {
            DfuPhase::Committing
        } else {
            DfuPhase::Aborting { err: I2cError::DfuUnexpectedState {
                expected: DFUState::Updating, actual: status } }
        }
    } else if crate::protocol::spec_dfu_state_is_error(status) {
        DfuPhase::Aborting { err: I2cError::DfuError { state: status } }
    } else {
        DfuPhase::Aborting { err: I2cError::DfuUnexpectedState {
            expected: DFUState::Updating, actual: status } }
    }
}

impl DfuEngine {
    /// The engine's invariant: the block count fits the numbering and
    /// matches the total size, and in-flight block and attempt counters
    /// stay in range.
    pub open spec fn wf(self) -> bool {
        &&& self.n_blocks == spec_block_count(self.total_size as nat)
        &&& self.n_blocks <= 65536
        &&& (self.phase matches DfuPhase::Upload { block, attempt } ==> block < self.n_blocks
            && attempt < QUEUE_FULL_MAX_RETRIES)
        &&& (self.phase matches DfuPhase::Status { block, attempt } ==> block < self.n_blocks
            && attempt < QUEUE_FULL_MAX_RETRIES)
    }

    /// The session has reached its result.
    pub open spec fn spec_finished(self) -> bool {
        self.phase is Done || self.phase is Failed
    }

    /// The event answers the operation the engine asked for: a write
    /// outcome after a write, a status answer or failure after a status
    /// read, anything after an abort (whose outcome is ignored).
    pub open spec fn spec_event_fits(self, ev: DfuEvent) -> bool {
        match self.phase {
            DfuPhase::Begin => ev is WriteOk || ev is Failed,
            DfuPhase::Upload { .. } => ev is WriteOk || ev is Failed,
            DfuPhase::Status { .. } => ev is Status || ev is Failed,
            DfuPhase::FinalStatus => ev is Status || ev is Failed,
            DfuPhase::Committing => ev is WriteOk || ev is Failed,
            DfuPhase::Aborting { .. } => true,
            DfuPhase::Done => false,
            DfuPhase::Failed { .. } => false,
        }
    }

    /// Termination measure, first component: blocks still unaccepted.
    pub open spec fn rank_blocks(self) -> int {
        match self.phase {
            DfuPhase::Begin => self.n_blocks + 1,
            DfuPhase::Upload { block, .. } => self.n_blocks - block,
            DfuPhase::Status { block, .. } => self.n_blocks - block,
            _ => 0,
        }
    }

    /// Termination measure, second component: retries left for the block
    /// in flight.
    pub open spec fn rank_attempts(self) -> int {
        match self.phase {
            DfuPhase::Upload { attempt, .. } => QUEUE_FULL_MAX_RETRIES - attempt,
            DfuPhase::Status { attempt, .. } => QUEUE_FULL_MAX_RETRIES - attempt,
            _ => 0,
        }
    }

    /// Termination measure, third component: steps left within the block
    /// or the closing handshake.
    pub open spec fn rank_phase(self) -> int {
        match self.phase {
            DfuPhase::Begin => 3,
            DfuPhase::Upload { .. } => 2,
            DfuPhase::Status { .. } => 1,
            DfuPhase::FinalStatus => 3,
            DfuPhase::Committing => 2,
            DfuPhase::Aborting { .. } => 1,
            DfuPhase::Done => 0,
            DfuPhase::Failed { .. } => 0,
        }
    }

    /// The three-part termination measure shrinks lexicographically.
    pub open spec fn spec_rank_lt(a: DfuEngine, b: DfuEngine) -> bool {
        ||| a.rank_blocks() < b.rank_blocks()
        ||| (a.rank_blocks() == b.rank_blocks() && a.rank_attempts() < b.rank_attempts())
        ||| (a.rank_blocks() == b.rank_blocks() && a.rank_attempts() == b.rank_attempts()
            && a.rank_phase() < b.rank_phase())
    }

    /// Begin a session for a firmware of `total_size` bytes.
    pub fn new(total_size: u32) -> (r: Self)
        requires
            total_size <= MAX_FIRMWARE_SIZE,
        ensures
            r.wf(),
            r.phase is Begin,
            r.total_size == total_size,
            r.n_blocks == spec_block_count(total_size as nat),
    {
        let n_blocks = (total_size + (FLASH_BLOCK_SIZE as u32 - 1)) / (FLASH_BLOCK_SIZE as u32);
        DfuEngine { total_size, n_blocks, phase: DfuPhase::Begin }
    }

    /// The operation the driver must perform next.
    pub fn action(&self) -> (r: DfuAction)
        ensures
            r == self.spec_action(),
    {
        match self.phase {
            DfuPhase::Begin => DfuAction::WriteStart { total_size: self.total_size },
            DfuPhase::Upload { block, attempt } => DfuAction::WriteBlock { block,
                pause_first: attempt > 0 },
            DfuPhase::Status { .. } => DfuAction::ReadStatus,
            DfuPhase::FinalStatus => DfuAction::ReadStatus,
            DfuPhase::Committing => DfuAction::WriteCommit,
            DfuPhase::Aborting { .. } => DfuAction::WriteAbort,
            DfuPhase::Done => DfuAction::Finished { result: Ok(()) },
            DfuPhase::Failed { err } => DfuAction::Finished { result: Err(err) },
        }
    }

    /// The operation the engine asks for in each phase.
    pub open spec fn spec_action(self) -> DfuAction {
        match self.phase {
            DfuPhase::Begin => DfuAction::WriteStart { total_size: self.total_size },
            DfuPhase::Upload { block, attempt } => DfuAction::WriteBlock { block,
                pause_first: attempt > 0 },
            DfuPhase::Status { .. } => DfuAction::ReadStatus,
            DfuPhase::FinalStatus => DfuAction::ReadStatus,
            DfuPhase::Committing => DfuAction::WriteCommit,
            DfuPhase::Aborting { .. } => DfuAction::WriteAbort,
            DfuPhase::Done => DfuAction::Finished { result: Ok(()) },
            DfuPhase::Failed { err } => DfuAction::Finished { result: Err(err) },
        }
    }

    /// Consume the outcome of the operation the engine asked for.
    pub fn on_event(&mut self, ev: DfuEvent)
        requires
            old(self).wf(),
            !old(self).spec_finished(),
            old(self).spec_event_fits(ev),
        ensures
            *final(self) == spec_dfu_next(*old(self), ev),
            final(self).wf(),
            Self::spec_rank_lt(*final(self), *old(self)),
    {
        let next = match self.phase {
            DfuPhase::Begin => match ev {
                DfuEvent::WriteOk => {
                    if self.n_blocks == 0 {
                        DfuPhase::FinalStatus
                    } else {
                        DfuPhase::Upload { block: 0, attempt: 0 }
                    }
                },
                DfuEvent::Failed { err } => DfuPhase::Aborting { err },
                _ => self.phase,
            },
            DfuPhase::Upload { block, attempt } => match ev {
                DfuEvent::WriteOk => DfuPhase::Status { block, attempt },
                DfuEvent::Failed { err } => DfuPhase::Aborting { err },
                _ => self.phase,
            },
            DfuPhase::Status { block, attempt } => match ev {
                DfuEvent::Status { status } => self.status_decision(block, attempt, status),
                DfuEvent::Failed { err } => DfuPhase::Aborting { err },
                _ => self.phase,
            },
            DfuPhase::FinalStatus => match ev {
                DfuEvent::Status { status } => {
                    if matches!(status, DFUState::ReadyToCommit) {
                        DfuPhase::Committing
                    } else {
                        DfuPhase::Aborting { err: I2cError::DfuUnexpectedState {
                            expected: DFUState::ReadyToCommit, actual: status } }
                    }
                },
                DfuEvent::Failed { err } => DfuPhase::Aborting { err },
                _ => self.phase,
            },
            DfuPhase::Committing => match ev {
                DfuEvent::WriteOk => DfuPhase::Done,
                DfuEvent::Failed { err } => DfuPhase::Aborting { err },
                _ => self.phase,
            },
            DfuPhase::Aborting { err } => DfuPhase::Failed { err },
            DfuPhase::Done => self.phase,
            DfuPhase::Failed { err } => self.phase,
        };
        self.phase = next;
    }

    /// Helper: the decision a status answer forces.
    fn status_decision(&self, block: u32, attempt: u8, status: DFUState) -> (r: DfuPhase)
        requires
            self.wf(),
            block < self.n_blocks,
            attempt < QUEUE_FULL_MAX_RETRIES,
        ensures
            r == spec_status_decision(self.n_blocks, block, attempt, status),
    {
        match status {
            DFUState::QueueFull => {
                if attempt + 1 < QUEUE_FULL_MAX_RETRIES {
                    DfuPhase::Upload { block, attempt: attempt + 1 }
                } else {
                    DfuPhase::Aborting { err: I2cError::DfuQueueFullTimeout }
                }
            },
            DFUState::Updating => {
                if block + 1 < self.n_blocks {
                    DfuPhase::Upload { block: block + 1, attempt: 0 }
                } else {
                    DfuPhase::FinalStatus
                }
            },
            DFUState::ReadyToCommit => {
                if block + 1 == self.n_blocks {
                    DfuPhase::Committing
                } else {
                    DfuPhase::Aborting { err: I2cError::DfuUnexpectedState {
                        expected: DFUState::Updating, actual: status } }
                }
            },
            DFUState::CrcError | DFUState::DataLengthError | DFUState::WriteError
                | DFUState::ProtocolError => {
                DfuPhase::Aborting { err: I2cError::DfuError { state: status } }
            },
            _ => {
                DfuPhase::Aborting { err: I2cError::DfuUnexpectedState {
                    expected: DFUState::Updating, actual: status } }
            },
        }
    }

    /// The session has reached its result.
    pub fn is_finished(&self) -> (r: bool)
        ensures
            r == self.spec_finished(),
    {
        matches!(self.phase, DfuPhase::Done | DfuPhase::Failed { .. })
    }
}

// ============================================================================
// The session over the transaction history
// ============================================================================

/// The registers the firmware-update protocol touches.
pub open spec fn spec_dfu_reg(reg: u8) -> bool {
    ||| reg == protocol::REG_DFU_START
    ||| reg == protocol::REG_DFU_UPLOAD_BLOCK
    ||| reg == protocol::REG_DFU_COMMIT
    ||| reg == protocol::REG_DFU_ABORT
    ||| reg == protocol::REG_DFU_STATUS
}

/// A window of DFU-register transactions, extended by one more operation
/// on a DFU register, still touches DFU registers only.
proof fn lemma_extend_dfu_window(h0: Seq<Tx>, h_pre: Seq<Tx>, h_post: Seq<Tx>, reg: u8)
    requires
        h0.len() <= h_pre.len(),
        crate::bus::spec_prefix(h_post, h_pre),
        spec_dfu_reg(reg),
        forall|i: int| h0.len() <= i < h_pre.len() ==> spec_dfu_reg(tx_reg(
            #[trigger] h_pre[i])),
        forall|i: int| h_pre.len() <= i < h_post.len() ==> tx_reg(#[trigger] h_post[i]) == reg,
    ensures
        forall|i: int| h0.len() <= i < h_post.len() ==> spec_dfu_reg(tx_reg(
            #[trigger] h_post[i])),
{
    assert forall|i: int| h0.len() <= i < h_post.len() implies spec_dfu_reg(tx_reg(
        #[trigger] h_post[i])) by {
        if i < h_pre.len() {
            crate::bus::lemma_prefix_preserves_index(h_pre, h_post, i);
        }
    }
}

/// A write attempt of the DFU commit register.
pub open spec fn spec_is_commit_write(t: Tx) -> bool {
    tx_is_write(t) && tx_reg(t) == protocol::REG_DFU_COMMIT
}

/// A write attempt of the DFU abort register.
pub open spec fn spec_is_abort_write(t: Tx) -> bool {
    tx_is_write(t) && tx_reg(t) == protocol::REG_DFU_ABORT
}

/// No commit write was attempted from `from` on.
pub open spec fn spec_no_commit_attempt(s: Seq<Tx>, from: int) -> bool {
    forall|i: int| from <= i < s.len() ==> !spec_is_commit_write(#[trigger] s[i])
}

/// No commit write succeeded from `from` on.
pub open spec fn spec_no_commit_success(s: Seq<Tx>, from: int) -> bool {
    forall|i: int| from <= i < s.len() ==> !(spec_is_commit_write(#[trigger] s[i]) && tx_ok(s[i]))
}

/// No abort write was attempted from `from` on.
pub open spec fn spec_no_abort_attempt(s: Seq<Tx>, from: int) -> bool {
    forall|i: int| from <= i < s.len() ==> !spec_is_abort_write(#[trigger] s[i])
}

/// An abort write was attempted (successfully or not) from `from` on.
pub open spec fn spec_has_abort_attempt(s: Seq<Tx>, from: int) -> bool {
    exists|i: int| from <= i < s.len() && spec_is_abort_write(#[trigger] s[i])
}

/// A successful status read answered ReadyToCommit from `from` on.
pub open spec fn spec_saw_ready_to_commit(s: Seq<Tx>, from: int) -> bool {
    exists|i: int| from <= i < s.len() && #[trigger] s[i] == (Tx::WriteRead {
        reg: protocol::REG_DFU_STATUS,
        data: seq![crate::protocol::spec_dfu_state_byte(DFUState::ReadyToCommit)],
        ok: true,
    })
}

impl HalpiDevice {
    /// Begin a firmware update: write the total firmware size to the DFU
    /// start register.
    pub fn start_dfu(&mut self, total_size: u32) -> (r: Result<(), I2cError>)
        ensures
            final(self).firmware_cache() == old(self).firmware_cache(),
            spec_wrote(old(self)@, final(self)@, protocol::REG_DFU_START,
                spec_encode_u32(total_size), r is Ok),
            r matches Err(e) ==> e == (I2cError::Write { reg: protocol::REG_DFU_START }),
    {
        self.write_u32(protocol::REG_DFU_START, total_size)
    }

    /// Upload one firmware block: the framed message (CRC32, block number,
    /// block length, data) goes to the upload register in one write. A
    /// block larger than the flash block size is rejected without touching
    /// the bus.
    pub fn upload_block(&mut self, block_num: u16, data: &[u8]) -> (r: Result<(), I2cError>)
        ensures
            final(self).firmware_cache() == old(self).firmware_cache(),
            data@.len() > FLASH_BLOCK_SIZE ==> r == Result::<(), I2cError>::Err(
                I2cError::InvalidBlockSize { size: data@.len() as usize,
                max_size: FLASH_BLOCK_SIZE }) && final(self)@ == old(self)@,
            data@.len() <= FLASH_BLOCK_SIZE ==> spec_wrote(old(self)@, final(self)@,
                protocol::REG_DFU_UPLOAD_BLOCK, spec_block_message(block_num, data@), r is Ok),
            data@.len() <= FLASH_BLOCK_SIZE && r is Err ==> r == Result::<(), I2cError>::Err(
                I2cError::Write { reg: protocol::REG_DFU_UPLOAD_BLOCK }),
    {
        if data.len() > FLASH_BLOCK_SIZE {
            return Err(I2cError::InvalidBlockSize { size: data.len(),
                max_size: FLASH_BLOCK_SIZE });
        }
        let message = dfu_block_message(block_num, data);
        self.write_bytes(protocol::REG_DFU_UPLOAD_BLOCK, message.as_slice())
    }

    /// Read the DFU status register; a byte naming no state is an error.
    pub fn get_dfu_status(&mut self) -> (r: Result<DFUState, I2cError>)
        ensures
            final(self).firmware_cache() == old(self).firmware_cache(),
            crate::bus::spec_prefix(final(self)@, old(self)@),
            r matches Ok(s) ==> spec_read(old(self)@, final(self)@, protocol::REG_DFU_STATUS,
                seq![crate::protocol::spec_dfu_state_byte(s)], true),
            r matches Err(e) ==> (e == (I2cError::Read { reg: protocol::REG_DFU_STATUS })
                || e matches I2cError::InvalidDfuState { state: _ }),
            r matches Err(I2cError::InvalidDfuState { state })
                ==> crate::protocol::spec_dfu_state_from_byte(state) is None,
            final(self)@.len() > old(self)@.len(),
            crate::device::spec_new_are_read_attempts(final(self)@, old(self)@.len() as int,
                protocol::REG_DFU_STATUS),
    {
        match self.read_byte(protocol::REG_DFU_STATUS) {
            Ok(b) => match DFUState::from_byte(b) {
                Ok(s) => Ok(s),
                Err(_) => Err(I2cError::InvalidDfuState { state: b }),
            },
            Err(e) => Err(e),
        }
    }

    /// Read how many firmware blocks the controller has written to flash.
    pub fn get_blocks_written(&mut self) -> (r: Result<u16, I2cError>)
        ensures
            final(self).firmware_cache() == old(self).firmware_cache(),
            crate::bus::spec_prefix(final(self)@, old(self)@),
            r matches Ok(w) ==> spec_read(old(self)@, final(self)@,
                protocol::REG_DFU_BLOCKS_WRITTEN, crate::protocol::spec_encode_word(w), true),
            r matches Err(e) ==> e == (I2cError::Read {
                reg: protocol::REG_DFU_BLOCKS_WRITTEN }),
    {
        self.read_word(protocol::REG_DFU_BLOCKS_WRITTEN)
    }

    /// Commit the uploaded firmware.
    pub fn commit_dfu(&mut self) -> (r: Result<(), I2cError>)
        ensures
            final(self).firmware_cache() == old(self).firmware_cache(),
            spec_wrote(old(self)@, final(self)@, protocol::REG_DFU_COMMIT, seq![0x00u8],
                r is Ok),
            r matches Err(e) ==> e == (I2cError::Write { reg: protocol::REG_DFU_COMMIT }),
    {
        self.write_byte(protocol::REG_DFU_COMMIT, 0x00)
    }

    /// Abort the firmware update and return the controller to idle.
    pub fn abort_dfu(&mut self) -> (r: Result<(), I2cError>)
        ensures
            final(self).firmware_cache() == old(self).firmware_cache(),
            spec_wrote(old(self)@, final(self)@, protocol::REG_DFU_ABORT, seq![0x00u8],
                r is Ok),
            r matches Err(e) ==> e == (I2cError::Write { reg: protocol::REG_DFU_ABORT }),
    {
        self.write_byte(protocol::REG_DFU_ABORT, 0x00)
    }

    /// Upload a complete firmware image: start the session, upload every
    /// 4 KiB block with queue-full retries, check the final status, and
    /// commit.
    ///
    /// Either the call returns success, and then the start command with the
    /// total size and every block, correctly framed, were successfully
    /// written, a successful status read answered ReadyToCommit, the last
    /// transaction is the successful commit write, and no abort was ever
    /// attempted; or it returns an error, and then an abort was attempted
    /// at least once and no commit write succeeded.
    pub fn upload_firmware(&mut self, firmware: &[u8]) -> (r: Result<(), I2cError>)
        requires
            firmware@.len() <= MAX_FIRMWARE_SIZE,
        ensures
            final(self).firmware_cache() == old(self).firmware_cache(),
            crate::bus::spec_prefix(final(self)@, old(self)@),
            forall|i: int| old(self)@.len() <= i < final(self)@.len() ==> spec_dfu_reg(tx_reg(
                #[trigger] final(self)@[i])),
            r is Ok ==> {
                &&& final(self)@.len() > old(self)@.len()
                &&& final(self)@.last() == (Tx::Write { reg: protocol::REG_DFU_COMMIT,
                    data: seq![0x00u8], ok: true })
                &&& spec_saw_ready_to_commit(final(self)@, old(self)@.len() as int)
                &&& spec_no_abort_attempt(final(self)@, old(self)@.len() as int)
                &&& spec_wrote_start(final(self)@, old(self)@.len() as int,
                    firmware@.len() as u32)
                &&& spec_wrote_all_blocks_below(final(self)@, old(self)@.len() as int,
                    firmware@, spec_block_count(firmware@.len() as nat) as int)
                &&& exists|idxs: Seq<int>| #[trigger] spec_block_writes_ordered(final(self)@,
                    old(self)@.len() as int, firmware@, idxs)
                    && idxs.len() == spec_block_count(firmware@.len() as nat)
            },
            r is Err ==> {
                &&& spec_has_abort_attempt(final(self)@, old(self)@.len() as int)
                &&& spec_no_commit_success(final(self)@, old(self)@.len() as int)
            },
    {
        let ghost base = self@;
        proof {
            assert(self@.subrange(0, base.len() as int) =~= base);
        }
        let mut eng = DfuEngine::new(firmware.len() as u32);
        let ghost mut widx: Seq<int> = Seq::empty();
        loop
            invariant
                base == old(self)@,
                firmware@.len() <= MAX_FIRMWARE_SIZE,
                eng.wf(),
                eng.total_size == firmware@.len(),
                crate::bus::spec_prefix(self@, base),
                spec_driver_inv(eng, self@, base.len() as int),
                spec_progress_inv(eng, self@, base.len() as int, firmware@),
                self.firmware_cache() == old(self).firmware_cache(),
                spec_block_writes_ordered(self@, base.len() as int, firmware@, widx),
                spec_order_len_ok(eng, widx),
                forall|i: int| base.len() <= i < self@.len() ==> spec_dfu_reg(tx_reg(
                    #[trigger] self@[i])),
            decreases eng.rank_blocks(), eng.rank_attempts(), eng.rank_phase(),
        {
            let ghost h_pre = self@;
            match eng.action() {
                DfuAction::WriteStart { total_size } => {
                    let ev = match self.start_dfu(total_size) {
                        Ok(_) => DfuEvent::WriteOk,
                        Err(e) => DfuEvent::Failed { err: e },
                    };
                    proof {
                        lemma_inv_extends_harmless(h_pre, self@, base.len() as int);
                        crate::bus::lemma_prefix_trans(base, h_pre, self@);
                        lemma_order_persists(h_pre, self@, base.len() as int, firmware@, widx);
                        lemma_extend_dfu_window(base, h_pre, self@, protocol::REG_DFU_START);
                        if ev is WriteOk {
                            assert(self@[self@.len() - 1] == (Tx::Write {
                                reg: protocol::REG_DFU_START, data: spec_encode_u32(total_size),
                                ok: true }));
                            assert(spec_wrote_start(self@, base.len() as int, total_size));
                        }
                    }
                    eng.on_event(ev);
                },
                DfuAction::WriteBlock { block, pause_first } => {
                    if pause_first {
                        crate::bus::pause_millis(QUEUE_FULL_RETRY_DELAY_MS);
                    }
                    proof {
                        lemma_chunk_bounds(firmware@.len() as int, eng.n_blocks as int,
                            block as int);
                    }
                    let lo: usize = (block as usize) * FLASH_BLOCK_SIZE;
                    let hi: usize = if firmware.len() - lo < FLASH_BLOCK_SIZE {
                        firmware.len()
                    } else {
                        lo + FLASH_BLOCK_SIZE
                    };
                    let chunk = vstd::slice::slice_subrange(firmware, lo, hi);
                    proof {
                        assert(chunk@ == spec_chunk(firmware@, block as int));
                    }
                    let ev = match self.upload_block(block as u16, chunk) {
                        Ok(_) => DfuEvent::WriteOk,
                        Err(e) => DfuEvent::Failed { err: e },
                    };
                    proof {
                        lemma_inv_extends_harmless(h_pre, self@, base.len() as int);
                        crate::bus::lemma_prefix_trans(base, h_pre, self@);
                        lemma_progress_persists(h_pre, self@, base.len() as int, firmware@,
                            eng.total_size, spec_blocks_written_floor(eng));
                        lemma_order_persists(h_pre, self@, base.len() as int, firmware@, widx);
                        lemma_extend_dfu_window(base, h_pre, self@,
                            protocol::REG_DFU_UPLOAD_BLOCK);
                        if ev is WriteOk {
                            assert(self@[self@.len() - 1] == (Tx::Write {
                                reg: protocol::REG_DFU_UPLOAD_BLOCK,
                                data: spec_block_message(block as u16, spec_chunk(firmware@,
                                    block as int)),
                                ok: true }));
                            assert(spec_wrote_block(self@, base.len() as int, firmware@,
                                block as int));
                            assert(spec_wrote_all_blocks_below(self@, base.len() as int,
                                firmware@, block + 1));
                            assert(spec_block_write_at(self@, base.len() as int, firmware@,
                                block as int, self@.len() - 1));
                            assert forall|k: int| 0 <= k < widx.len()
                                implies #[trigger] widx[k] < self@.len() - 1 by {
                                assert(spec_block_write_at(h_pre, base.len() as int, firmware@,
                                    k, widx[k]));
                            }
                            lemma_order_push(self@, base.len() as int, firmware@, widx,
                                block as int);
                            widx = widx.push(self@.len() - 1);
                        }
                    }
                    eng.on_event(ev);
                },
                DfuAction::ReadStatus => {
                    let ev = match self.get_dfu_status() {
                        Ok(s) => DfuEvent::Status { status: s },
                        Err(e) => DfuEvent::Failed { err: e },
                    };
                    proof {
                        lemma_inv_extends_harmless(h_pre, self@, base.len() as int);
                        crate::bus::lemma_prefix_trans(base, h_pre, self@);
                        lemma_progress_persists(h_pre, self@, base.len() as int, firmware@,
                            eng.total_size, spec_blocks_written_floor(eng));
                        if ev matches DfuEvent::Status { status } && status is ReadyToCommit {
                            assert(self@[self@.len() - 1] == (Tx::WriteRead {
                                reg: protocol::REG_DFU_STATUS,
                                data: seq![crate::protocol::spec_dfu_state_byte(
                                    DFUState::ReadyToCommit)],
                                ok: true,
                            }));
                            assert(spec_saw_ready_to_commit(self@, base.len() as int));
                        }
                        lemma_order_persists(h_pre, self@, base.len() as int, firmware@, widx);
                        lemma_extend_dfu_window(base, h_pre, self@, protocol::REG_DFU_STATUS);
                    }
                    eng.on_event(ev);
                    proof {
                        match eng.phase {
                            DfuPhase::Upload { block, .. } => {
                                lemma_order_truncate(self@, base.len() as int, firmware@, widx,
                                    block as int);
                                widx = widx.subrange(0, block as int);
                            },
                            _ => {},
                        }
                    }
                },
                DfuAction::WriteCommit => {
                    let ev = match self.commit_dfu() {
                        Ok(_) => DfuEvent::WriteOk,
                        Err(e) => DfuEvent::Failed { err: e },
                    };
                    proof {
                        lemma_inv_commit_step(eng, h_pre, self@, base.len() as int,
                            ev is WriteOk);
                        crate::bus::lemma_prefix_trans(base, h_pre, self@);
                        lemma_progress_persists(h_pre, self@, base.len() as int, firmware@,
                            eng.total_size, spec_blocks_written_floor(eng));
                        lemma_order_persists(h_pre, self@, base.len() as int, firmware@, widx);
                        lemma_extend_dfu_window(base, h_pre, self@, protocol::REG_DFU_COMMIT);
                    }
                    eng.on_event(ev);
                },
                DfuAction::WriteAbort => {
                    let _ = self.abort_dfu();
                    proof {
                        lemma_inv_abort_step(eng, h_pre, self@, base.len() as int);
                        crate::bus::lemma_prefix_trans(base, h_pre, self@);
                        lemma_order_persists(h_pre, self@, base.len() as int, firmware@, widx);
                        lemma_extend_dfu_window(base, h_pre, self@, protocol::REG_DFU_ABORT);
                    }
                    eng.on_event(DfuEvent::WriteOk);
                },
                DfuAction::Finished { result } => {
                    proof {
                        if eng.phase is Done {
                            assert(spec_block_writes_ordered(self@, base.len() as int,
                                firmware@, widx));
                        }
                    }
                    return result;
                },
            }
        }
    }
}

/// The bytes of firmware block `b`: the next 4 KiB, or whatever remains.
pub open spec fn spec_chunk(fw: Seq<u8>, b: int) -> Seq<u8>
    recommends
        0 <= b,
        b * FLASH_BLOCK_SIZE < fw.len(),
{
    if (b + 1) * (FLASH_BLOCK_SIZE as int) <= fw.len() {
        fw.subrange(b * (FLASH_BLOCK_SIZE as int), (b + 1) * (FLASH_BLOCK_SIZE as int))
    } else {
        fw.subrange(b * (FLASH_BLOCK_SIZE as int), fw.len() as int)
    }
}

/// The framed message of firmware block `b` was successfully written to
/// the upload register, from `from` on.
pub open spec fn spec_wrote_block(h: Seq<Tx>, from: int, fw: Seq<u8>, b: int) -> bool {
    exists|i: int| from <= i < h.len() && #[trigger] h[i] == (Tx::Write {
        reg: protocol::REG_DFU_UPLOAD_BLOCK,
        data: spec_block_message(b as u16, spec_chunk(fw, b)),
        ok: true,
    })
}

/// Every firmware block below `n` was successfully written, correctly
/// framed, from `from` on.
pub open spec fn spec_wrote_all_blocks_below(h: Seq<Tx>, from: int, fw: Seq<u8>, n: int)
    -> bool {
    forall|b: int| 0 <= b < n ==> #[trigger] spec_wrote_block(h, from, fw, b)
}

/// The start command with this total size was successfully written, from
/// `from` on.
pub open spec fn spec_wrote_start(h: Seq<Tx>, from: int, size: u32) -> bool {
    exists|i: int| from <= i < h.len() && #[trigger] h[i] == (Tx::Write {
        reg: protocol::REG_DFU_START,
        data: spec_encode_u32(size),
        ok: true,
    })
}

/// Entry `i` of the history is the successful, correctly framed write of
/// firmware block `b`.
pub open spec fn spec_block_write_at(h: Seq<Tx>, from: int, fw: Seq<u8>, b: int, i: int)
    -> bool {
    from <= i < h.len() && h[i] == (Tx::Write {
        reg: protocol::REG_DFU_UPLOAD_BLOCK,
        data: spec_block_message(b as u16, spec_chunk(fw, b)),
        ok: true,
    })
}

/// The index sequence of one successful, correctly framed write per block:
/// `idxs[b]` points at block `b`'s write, and the indices ascend, so the
/// blocks went out in order.
pub open spec fn spec_block_writes_ordered(h: Seq<Tx>, from: int, fw: Seq<u8>, idxs: Seq<int>)
    -> bool {
    &&& forall|b: int| 0 <= b < idxs.len() ==> #[trigger] spec_block_write_at(h, from, fw, b,
        idxs[b])
    &&& forall|b: int| 0 < b < idxs.len() ==> idxs[b - 1] < #[trigger] idxs[b]
}

/// Ordered block writes persist into any extension of the history.
proof fn lemma_order_persists(h_pre: Seq<Tx>, h_post: Seq<Tx>, from: int, fw: Seq<u8>,
    idxs: Seq<int>)
    requires
        0 <= from,
        crate::bus::spec_prefix(h_post, h_pre),
        spec_block_writes_ordered(h_pre, from, fw, idxs),
    ensures
        spec_block_writes_ordered(h_post, from, fw, idxs),
{
    assert forall|b: int| 0 <= b < idxs.len() implies #[trigger] spec_block_write_at(h_post,
        from, fw, b, idxs[b]) by {
        assert(spec_block_write_at(h_pre, from, fw, b, idxs[b]));
        crate::bus::lemma_prefix_preserves_index(h_pre, h_post, idxs[b]);
    }
}

/// A front part of an ordered index sequence is still ordered.
proof fn lemma_order_truncate(h: Seq<Tx>, from: int, fw: Seq<u8>, idxs: Seq<int>, n: int)
    requires
        spec_block_writes_ordered(h, from, fw, idxs),
        0 <= n <= idxs.len(),
    ensures
        spec_block_writes_ordered(h, from, fw, idxs.subrange(0, n)),
{
    let cut = idxs.subrange(0, n);
    assert forall|b: int| 0 <= b < cut.len() implies #[trigger] spec_block_write_at(h, from,
        fw, b, cut[b]) by {
        assert(cut[b] == idxs[b]);
        assert(spec_block_write_at(h, from, fw, b, idxs[b]));
    }
}

/// Recording one more block's write, just pushed as the last history entry,
/// keeps the index sequence ordered.
proof fn lemma_order_push(h: Seq<Tx>, from: int, fw: Seq<u8>, idxs: Seq<int>, b: int)
    requires
        0 <= from,
        spec_block_writes_ordered(h, from, fw, idxs),
        b == idxs.len(),
        spec_block_write_at(h, from, fw, b, h.len() - 1),
        forall|k: int| 0 <= k < idxs.len() ==> #[trigger] idxs[k] < h.len() - 1,
    ensures
        spec_block_writes_ordered(h, from, fw, idxs.push(h.len() - 1)),
{
    let w2 = idxs.push(h.len() - 1);
    assert forall|k: int| 0 <= k < w2.len() implies #[trigger] spec_block_write_at(h, from, fw,
        k, w2[k]) by {
        if k < idxs.len() {
            assert(w2[k] == idxs[k]);
            assert(spec_block_write_at(h, from, fw, k, idxs[k]));
        } else {
            assert(w2[k] == h.len() - 1);
        }
    }
    assert forall|k: int| 0 < k < w2.len() implies w2[k - 1] < #[trigger] w2[k] by {
        if k < idxs.len() {
            assert(w2[k] == idxs[k] && w2[k - 1] == idxs[k - 1]);
        } else {
            assert(w2[k] == h.len() - 1 && w2[k - 1] == idxs[k - 1]);
        }
    }
}

/// How many block indices the driver has recorded, per engine phase: one
/// for every block whose upload write has gone out and not been restarted.
pub open spec fn spec_order_len_ok(eng: DfuEngine, idxs: Seq<int>) -> bool {
    match eng.phase {
        DfuPhase::Begin => idxs.len() == 0,
        DfuPhase::Upload { block, .. } => idxs.len() == block as int,
        DfuPhase::Status { block, .. } => idxs.len() == block + 1,
        DfuPhase::FinalStatus => idxs.len() == eng.n_blocks as int,
        DfuPhase::Committing => idxs.len() == eng.n_blocks as int,
        DfuPhase::Done => idxs.len() == eng.n_blocks as int,
        DfuPhase::Aborting { .. } => true,
        DfuPhase::Failed { .. } => true,
    }
}

/// How many blocks the engine has already had accepted on the wire, per
/// phase.
pub open spec fn spec_blocks_written_floor(eng: DfuEngine) -> int {
    match eng.phase {
        DfuPhase::Begin => 0,
        DfuPhase::Upload { block, .. } => block as int,
        DfuPhase::Status { block, .. } => block + 1,
        DfuPhase::FinalStatus => eng.n_blocks as int,
        DfuPhase::Committing => eng.n_blocks as int,
        DfuPhase::Done => eng.n_blocks as int,
        DfuPhase::Aborting { .. } => 0,
        DfuPhase::Failed { .. } => 0,
    }
}

/// What the history already shows of the upload's progress: past Begin,
/// the start command went out, and every block the engine has moved past
/// was written correctly framed. Nothing is claimed on the failure path.
pub open spec fn spec_progress_inv(eng: DfuEngine, h: Seq<Tx>, from: int, fw: Seq<u8>) -> bool {
    match eng.phase {
        DfuPhase::Begin => true,
        DfuPhase::Aborting { .. } => true,
        DfuPhase::Failed { .. } => true,
        _ => spec_wrote_start(h, from, eng.total_size) && spec_wrote_all_blocks_below(h, from,
            fw, spec_blocks_written_floor(eng)),
    }
}

/// Witnesses in the history persist into any extension of it.
proof fn lemma_progress_persists(h_pre: Seq<Tx>, h_post: Seq<Tx>, from: int, fw: Seq<u8>,
    size: u32, n: int)
    requires
        0 <= from <= h_pre.len(),
        crate::bus::spec_prefix(h_post, h_pre),
    ensures
        spec_wrote_start(h_pre, from, size) ==> spec_wrote_start(h_post, from, size),
        spec_wrote_all_blocks_below(h_pre, from, fw, n) ==> spec_wrote_all_blocks_below(h_post,
            from, fw, n),
{
    if spec_wrote_start(h_pre, from, size) {
        let i = choose|i: int| from <= i < h_pre.len() && #[trigger] h_pre[i] == (Tx::Write {
            reg: protocol::REG_DFU_START, data: spec_encode_u32(size), ok: true });
        crate::bus::lemma_prefix_preserves_index(h_pre, h_post, i);
        assert(h_post[i] == h_pre[i]);
    }
    if spec_wrote_all_blocks_below(h_pre, from, fw, n) {
        assert forall|b: int| 0 <= b < n implies #[trigger] spec_wrote_block(h_post, from, fw,
            b) by {
            assert(spec_wrote_block(h_pre, from, fw, b));
            let i = choose|i: int| from <= i < h_pre.len() && #[trigger] h_pre[i] == (Tx::Write {
                reg: protocol::REG_DFU_UPLOAD_BLOCK,
                data: spec_block_message(b as u16, spec_chunk(fw, b)),
                ok: true,
            });
            crate::bus::lemma_prefix_preserves_index(h_pre, h_post, i);
            assert(h_post[i] == h_pre[i]);
        }
    }
}

/// The driver's loop invariant: what the transaction history from `from`
/// on already shows, in each phase of the engine.
///
/// Before the closing handshake nothing has been committed or aborted;
/// entering the commit, a successful status read has answered
/// ReadyToCommit; once aborting, no commit has succeeded; Done means the
/// history ends in the successful commit write; Failed means an abort was
/// attempted and no commit succeeded.
pub open spec fn spec_driver_inv(eng: DfuEngine, h: Seq<Tx>, from: int) -> bool {
    match eng.phase {
        DfuPhase::Begin => spec_no_commit_attempt(h, from) && spec_no_abort_attempt(h, from),
        DfuPhase::Upload { .. } => spec_no_commit_attempt(h, from) && spec_no_abort_attempt(h,
            from),
        DfuPhase::Status { .. } => spec_no_commit_attempt(h, from) && spec_no_abort_attempt(h,
            from),
        DfuPhase::FinalStatus => spec_no_commit_attempt(h, from) && spec_no_abort_attempt(h,
            from),
        DfuPhase::Committing => spec_no_commit_attempt(h, from) && spec_no_abort_attempt(h, from)
            && spec_saw_ready_to_commit(h, from),
        DfuPhase::Aborting { .. } => spec_no_commit_success(h, from),
        DfuPhase::Done => h.len() > from && h.last() == (Tx::Write {
            reg: protocol::REG_DFU_COMMIT, data: seq![0x00u8], ok: true })
            && spec_saw_ready_to_commit(h, from) && spec_no_abort_attempt(h, from),
        DfuPhase::Failed { .. } => spec_has_abort_attempt(h, from)
            && spec_no_commit_success(h, from),
    }
}

/// A history extension none of whose entries writes the commit or the
/// abort register carries every piece of the driver invariant forward;
/// the commit and abort steps have their own lemmas.
proof fn lemma_inv_extends_harmless(h_pre: Seq<Tx>, h_post: Seq<Tx>, from: int)
    requires
        0 <= from <= h_pre.len(),
        crate::bus::spec_prefix(h_post, h_pre),
        forall|i: int| h_pre.len() <= i < h_post.len()
            ==> !spec_is_commit_write(#[trigger] h_post[i]) && !spec_is_abort_write(h_post[i]),
    ensures
        spec_no_commit_attempt(h_pre, from) ==> spec_no_commit_attempt(h_post, from),
        spec_no_abort_attempt(h_pre, from) ==> spec_no_abort_attempt(h_post, from),
        spec_no_commit_success(h_pre, from) ==> spec_no_commit_success(h_post, from),
        spec_saw_ready_to_commit(h_pre, from) ==> spec_saw_ready_to_commit(h_post, from),
        spec_has_abort_attempt(h_pre, from) ==> spec_has_abort_attempt(h_post, from),
        spec_no_commit_attempt(h_post, from) ==> spec_no_commit_success(h_post, from),
{
    assert forall|i: int| from <= i < h_post.len() && i < h_pre.len()
        implies h_post[i] == h_pre[i] by {
        crate::bus::lemma_prefix_preserves_index(h_pre, h_post, i);
    }
    if spec_saw_ready_to_commit(h_pre, from) {
        let i = choose|i: int| from <= i < h_pre.len() && #[trigger] h_pre[i] == (Tx::WriteRead {
            reg: protocol::REG_DFU_STATUS,
            data: seq![crate::protocol::spec_dfu_state_byte(DFUState::ReadyToCommit)],
            ok: true,
        });
        assert(h_post[i] == h_pre[i]);
    }
    if spec_has_abort_attempt(h_pre, from) {
        let i = choose|i: int| from <= i < h_pre.len()
            && spec_is_abort_write(#[trigger] h_pre[i]);
        assert(h_post[i] == h_pre[i]);
        assert(spec_is_abort_write(h_post[i]));
    }
}

/// Carrying the invariant over the commit write: the new entries are
/// commit attempts of which only the last may have succeeded.
proof fn lemma_inv_commit_step(eng: DfuEngine, h_pre: Seq<Tx>, h_post: Seq<Tx>, from: int,
    committed: bool)
    requires
        0 <= from <= h_pre.len(),
        eng.phase is Committing,
        spec_driver_inv(eng, h_pre, from),
        spec_wrote(h_pre, h_post, protocol::REG_DFU_COMMIT, seq![0x00u8], committed),
    ensures
        committed ==> spec_driver_inv(spec_dfu_next(eng, DfuEvent::WriteOk), h_post, from),
        !committed ==> forall|err: I2cError| spec_driver_inv(spec_dfu_next(eng,
            DfuEvent::Failed { err }), h_post, from),
{
    assert forall|i: int| from <= i < h_post.len() && i < h_pre.len()
        implies h_post[i] == h_pre[i] by {
        crate::bus::lemma_prefix_preserves_index(h_pre, h_post, i);
    }
    let j = choose|j: int| from <= j < h_pre.len() && #[trigger] h_pre[j] == (Tx::WriteRead {
        reg: protocol::REG_DFU_STATUS,
        data: seq![crate::protocol::spec_dfu_state_byte(DFUState::ReadyToCommit)],
        ok: true,
    });
    assert(h_post[j] == h_pre[j]);
    if !committed {
        assert forall|i: int| from <= i < h_post.len()
            implies !(spec_is_commit_write(#[trigger] h_post[i]) && tx_ok(h_post[i])) by {
            if i >= h_pre.len() {
                assert(!tx_ok(h_post.last()));
            }
        }
    }
}

/// Carrying the invariant over the abort write: whatever its outcome, an
/// abort was now attempted and still nothing has been committed.
proof fn lemma_inv_abort_step(eng: DfuEngine, h_pre: Seq<Tx>, h_post: Seq<Tx>, from: int)
    requires
        0 <= from <= h_pre.len(),
        eng.phase matches DfuPhase::Aborting { .. },
        spec_driver_inv(eng, h_pre, from),
        spec_wrote(h_pre, h_post, protocol::REG_DFU_ABORT, seq![0x00u8], tx_ok(h_post.last())),
    ensures
        forall|ev: DfuEvent| spec_driver_inv(spec_dfu_next(eng, ev), h_post, from),
{
    assert forall|i: int| from <= i < h_post.len() && i < h_pre.len()
        implies h_post[i] == h_pre[i] by {
        crate::bus::lemma_prefix_preserves_index(h_pre, h_post, i);
    }
    assert(h_post.len() > h_pre.len());
    assert(spec_is_abort_write(h_post[h_post.len() - 1]));
    assert(spec_has_abort_attempt(h_post, from));
    assert forall|i: int| from <= i < h_post.len()
        implies !(spec_is_commit_write(#[trigger] h_post[i]) && tx_ok(h_post[i])) by {
    }
}

/// Block `block` of a firmware this long starts strictly inside it, and
/// the remaining bytes from there are at most one block or end at the
/// firmware's end.
proof fn lemma_chunk_bounds(len: int, n_blocks: int, block: int)
    requires
        len >= 0,
        n_blocks == spec_block_count(len as nat),
        0 <= block < n_blocks,
    ensures
        block * FLASH_BLOCK_SIZE < len,
        block * FLASH_BLOCK_SIZE + FLASH_BLOCK_SIZE <= len
            || len - block * FLASH_BLOCK_SIZE <= FLASH_BLOCK_SIZE,
{
    assert(n_blocks == (len + 4095) / 4096);
    vstd::arithmetic::div_mod::lemma_fundamental_div_mod(len + 4095, 4096);
    assert(len + 4095 == 4096 * ((len + 4095) / 4096) + (len + 4095) % 4096);
    assert(0 <= (len + 4095) % 4096 < 4096) by {
        vstd::arithmetic::div_mod::lemma_mod_bound(len + 4095, 4096);
    }
    assert(4096 * n_blocks <= len + 4095);
    assert(block * 4096 <= (n_blocks - 1) * 4096) by (nonlinear_arith)
        requires block <= n_blocks - 1;
    assert(block * 4096 <= len - 1);
}

} // verus!
