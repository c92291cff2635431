use halpid::dfu::{DfuAction, DfuEngine, DfuEvent, dfu_block_message, dfu_block_payload};
use halpid::errors::I2cError;
use halpid::protocol::{DFUState, FLASH_BLOCK_SIZE, encode_u32, encode_word};

#[test]
fn test_flash_block_size_constant() {
    assert_eq!(FLASH_BLOCK_SIZE, 4096);
}

#[test]
fn test_crc32_calculation() {
    // The CRC32 is calculated over block number, block length and data, and
    // encoded as four big-endian bytes.
    let block_num: u16 = 0;
    let block_len: u16 = 8;
    let data = b"testdata";

    let mut payload = Vec::new();
    payload.extend_from_slice(&encode_word(block_num));
    payload.extend_from_slice(&encode_word(block_len));
    payload.extend_from_slice(data);

    let crc32 = crc32fast::hash(&payload);

    assert_eq!(payload.len(), 4 + data.len());

    let crc_bytes = encode_u32(crc32);
    assert_eq!(crc_bytes.len(), 4);
}

#[test]
fn test_block_payload_layout() {
    let payload = dfu_block_payload(0x0102, b"abc");
    assert_eq!(payload, vec![0x01, 0x02, 0x00, 0x03, b'a', b'b', b'c']);
}

#[test]
fn test_block_message_carries_crc32() {
    // The framed message is the big-endian CRC32 of the payload followed by
    // the payload; the checksum must agree with crc32fast.
    let data = b"testdata";
    let message = dfu_block_message(0, data);

    let mut payload = Vec::new();
    payload.extend_from_slice(&encode_word(0));
    payload.extend_from_slice(&encode_word(data.len() as u16));
    payload.extend_from_slice(data);

    let expected_crc = crc32fast::hash(&payload);
    assert_eq!(expected_crc, 0x3cca8d40);
    assert_eq!(&message[0..4], &expected_crc.to_be_bytes());
    assert_eq!(&message[4..], &payload[..]);
}

/// Feed the engine one event and return the action it asks for next.
fn advance(e: &mut DfuEngine, ev: DfuEvent) -> DfuAction {
    e.on_event(ev);
    e.action()
}

#[test]
fn test_dfu_happy_path() {
    // A 12288-byte firmware is three blocks. The session writes the start
    // command, three blocks with a status read each (Updating, Updating,
    // ReadyToCommit), then one commit. No abort appears anywhere.
    let mut e = DfuEngine::new(12288);
    assert_eq!(e.action(), DfuAction::WriteStart { total_size: 12288 });
    // The start command carries the 32-bit big-endian total size.
    assert_eq!(encode_u32(12288), [0, 0, 0x30, 0]);

    assert_eq!(
        advance(&mut e, DfuEvent::WriteOk),
        DfuAction::WriteBlock { block: 0, pause_first: false }
    );
    assert_eq!(advance(&mut e, DfuEvent::WriteOk), DfuAction::ReadStatus);
    assert_eq!(
        advance(&mut e, DfuEvent::Status { status: DFUState::Updating }),
        DfuAction::WriteBlock { block: 1, pause_first: false }
    );
    assert_eq!(advance(&mut e, DfuEvent::WriteOk), DfuAction::ReadStatus);
    assert_eq!(
        advance(&mut e, DfuEvent::Status { status: DFUState::Updating }),
        DfuAction::WriteBlock { block: 2, pause_first: false }
    );
    assert_eq!(advance(&mut e, DfuEvent::WriteOk), DfuAction::ReadStatus);
    assert_eq!(
        advance(&mut e, DfuEvent::Status { status: DFUState::ReadyToCommit }),
        DfuAction::WriteCommit
    );
    assert_eq!(
        advance(&mut e, DfuEvent::WriteOk),
        DfuAction::Finished { result: Ok(()) }
    );
    assert!(e.is_finished());
}

#[test]
fn test_dfu_queue_full_retries() {
    // The status answers QueueFull twice for block 1; the engine re-uploads
    // the same block with a pause each time, then proceeds. No abort.
    let mut e = DfuEngine::new(12288);
    assert_eq!(advance(&mut e, DfuEvent::WriteOk), DfuAction::WriteBlock { block: 0, pause_first: false });
    assert_eq!(advance(&mut e, DfuEvent::WriteOk), DfuAction::ReadStatus);
    assert_eq!(
        advance(&mut e, DfuEvent::Status { status: DFUState::Updating }),
        DfuAction::WriteBlock { block: 1, pause_first: false }
    );
    assert_eq!(advance(&mut e, DfuEvent::WriteOk), DfuAction::ReadStatus);
    assert_eq!(
        advance(&mut e, DfuEvent::Status { status: DFUState::QueueFull }),
        DfuAction::WriteBlock { block: 1, pause_first: true }
    );
    assert_eq!(advance(&mut e, DfuEvent::WriteOk), DfuAction::ReadStatus);
    assert_eq!(
        advance(&mut e, DfuEvent::Status { status: DFUState::QueueFull }),
        DfuAction::WriteBlock { block: 1, pause_first: true }
    );
    assert_eq!(advance(&mut e, DfuEvent::WriteOk), DfuAction::ReadStatus);
    assert_eq!(
        advance(&mut e, DfuEvent::Status { status: DFUState::Updating }),
        DfuAction::WriteBlock { block: 2, pause_first: false }
    );
    assert!(!e.is_finished());
}

#[test]
fn test_dfu_queue_full_timeout() {
    // Ten uploads all answered QueueFull exhaust the retries: the engine
    // aborts and surfaces the queue-full timeout.
    let mut e = DfuEngine::new(4096);
    assert_eq!(advance(&mut e, DfuEvent::WriteOk), DfuAction::WriteBlock { block: 0, pause_first: false });
    for attempt in 0..10 {
        assert_eq!(advance(&mut e, DfuEvent::WriteOk), DfuAction::ReadStatus);
        let action = advance(&mut e, DfuEvent::Status { status: DFUState::QueueFull });
        if attempt < 9 {
            assert_eq!(action, DfuAction::WriteBlock { block: 0, pause_first: true });
        } else {
            assert_eq!(action, DfuAction::WriteAbort);
        }
    }
    assert_eq!(
        advance(&mut e, DfuEvent::WriteOk),
        DfuAction::Finished { result: Err(I2cError::DfuQueueFullTimeout) }
    );
}

#[test]
fn test_dfu_crc_error_aborts() {
    // Block 2's status answers CrcError: the engine writes the abort
    // command and surfaces the error; no commit is ever asked for.
    let mut e = DfuEngine::new(12288);
    assert_eq!(advance(&mut e, DfuEvent::WriteOk), DfuAction::WriteBlock { block: 0, pause_first: false });
    assert_eq!(advance(&mut e, DfuEvent::WriteOk), DfuAction::ReadStatus);
    assert_eq!(
        advance(&mut e, DfuEvent::Status { status: DFUState::Updating }),
        DfuAction::WriteBlock { block: 1, pause_first: false }
    );
    assert_eq!(advance(&mut e, DfuEvent::WriteOk), DfuAction::ReadStatus);
    assert_eq!(
        advance(&mut e, DfuEvent::Status { status: DFUState::Updating }),
        DfuAction::WriteBlock { block: 2, pause_first: false }
    );
    assert_eq!(advance(&mut e, DfuEvent::WriteOk), DfuAction::ReadStatus);
    // The asserted actions are the whole session: the abort write appears and
    // a commit never does.
    assert_eq!(
        advance(&mut e, DfuEvent::Status { status: DFUState::CrcError }),
        DfuAction::WriteAbort
    );
    assert_eq!(
        advance(&mut e, DfuEvent::WriteOk),
        DfuAction::Finished { result: Err(I2cError::DfuError { state: DFUState::CrcError }) }
    );
}

#[test]
fn test_dfu_last_block_updating_then_final_check() {
    // When the last block still answers Updating, the engine re-reads the
    // status once and commits on ReadyToCommit.
    let mut e = DfuEngine::new(100);
    assert_eq!(advance(&mut e, DfuEvent::WriteOk), DfuAction::WriteBlock { block: 0, pause_first: false });
    assert_eq!(advance(&mut e, DfuEvent::WriteOk), DfuAction::ReadStatus);
    assert_eq!(
        advance(&mut e, DfuEvent::Status { status: DFUState::Updating }),
        DfuAction::ReadStatus
    );
    assert_eq!(
        advance(&mut e, DfuEvent::Status { status: DFUState::ReadyToCommit }),
        DfuAction::WriteCommit
    );
    assert_eq!(advance(&mut e, DfuEvent::WriteOk), DfuAction::Finished { result: Ok(()) });
}

#[test]
fn test_dfu_unexpected_final_state_aborts() {
    let mut e = DfuEngine::new(100);
    assert_eq!(advance(&mut e, DfuEvent::WriteOk), DfuAction::WriteBlock { block: 0, pause_first: false });
    assert_eq!(advance(&mut e, DfuEvent::WriteOk), DfuAction::ReadStatus);
    assert_eq!(
        advance(&mut e, DfuEvent::Status { status: DFUState::Updating }),
        DfuAction::ReadStatus
    );
    assert_eq!(
        advance(&mut e, DfuEvent::Status { status: DFUState::Idle }),
        DfuAction::WriteAbort
    );
    assert_eq!(
        advance(&mut e, DfuEvent::WriteOk),
        DfuAction::Finished {
            result: Err(I2cError::DfuUnexpectedState {
                expected: DFUState::ReadyToCommit,
                actual: DFUState::Idle,
            })
        }
    );
}

#[test]
fn test_dfu_bus_failure_aborts() {
    // A failed block write aborts the session and surfaces the bus error.
    let mut e = DfuEngine::new(4096);
    assert_eq!(advance(&mut e, DfuEvent::WriteOk), DfuAction::WriteBlock { block: 0, pause_first: false });
    let err = I2cError::Write { reg: 0x41 };
    assert_eq!(advance(&mut e, DfuEvent::Failed { err }), DfuAction::WriteAbort);
    assert_eq!(
        advance(&mut e, DfuEvent::Failed { err: I2cError::Write { reg: 0x43 } }),
        DfuAction::Finished { result: Err(err) }
    );
}
