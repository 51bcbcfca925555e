use pico_usb_storage::processor::{process_command, reject};
use pico_usb_storage::responses::{
    inquiry, mode_sense10, mode_sense6, read_capacity10, read_capacity16,
    read_format_capacities, request_sense,
};
use pico_usb_storage::scsi::command::ScsiCommand;
use pico_usb_storage::scsi::enums::additional_sense_code::AdditionalSenseCode;
use pico_usb_storage::state::State;
use pico_usb_storage::usbd_storage::transport::bbb::{BulkOnly, Phase, Received};
use pico_usb_storage::usbd_storage::transport::CommandStatus;

fn wrapper(tag: u32, len: u32, to_host: bool) -> Vec<u8> {
    let mut bytes = vec![0x55, 0x53, 0x42, 0x43];
    bytes.extend_from_slice(&tag.to_le_bytes());
    bytes.extend_from_slice(&len.to_le_bytes());
    bytes.push(if to_host { 0x80 } else { 0x00 });
    bytes.push(0);
    bytes.push(6);
    bytes.resize(31, 0);
    bytes
}

fn setup(len: u32, to_host: bool, packet_size: u16) -> (State, Vec<u8>, BulkOnly) {
    let mut transport = BulkOnly::new(packet_size, 0, 512).unwrap();
    assert_eq!(transport.receive(&wrapper(1, len, to_host)), Ok(Received::Command));
    let storage: Vec<u8> = (0..102400usize).map(|i| (i % 251) as u8).collect();
    (State::new(), storage, transport)
}

#[test]
fn fixed_answers_have_their_lengths() {
    assert_eq!(inquiry().len(), 36);
    assert_eq!(request_sense((1, 2, 3)).len(), 18);
    assert_eq!(read_capacity10().len(), 8);
    assert_eq!(read_capacity16().len(), 16);
    assert_eq!(read_format_capacities().len(), 12);
    assert_eq!(mode_sense6(), vec![3, 0, 0, 0]);
    assert_eq!(mode_sense10(), vec![0, 6, 0, 0, 0, 0, 0, 0]);
}

#[test]
fn request_sense_layout() {
    let bytes = request_sense((0x05, 0x21, 0x07));
    assert_eq!(
        bytes,
        vec![0x70, 0, 0x05, 0, 0, 0, 0, 0, 0, 0, 0, 0, 0x21, 0x07, 0, 0, 0, 0]
    );
}

#[test]
fn read_moves_min_of_remaining_and_packet() {
    for packet_size in [8u16, 16, 32, 64] {
        let (mut state, mut storage, mut transport) = setup(4096, true, packet_size);
        let mut offset = 0usize;
        let mut polls = 0;
        while transport.has_command() {
            let expected = std::cmp::min(4096 - offset, packet_size as usize);
            process_command(
                &mut state,
                &mut storage,
                ScsiCommand::Read { lba: 1, len: 1 },
                &mut transport,
            )
            .unwrap();
            let packet = transport.in_packet().unwrap();
            assert_eq!(packet.len(), expected);
            assert_eq!(&packet[..], &storage[4096 + offset..4096 + offset + expected]);
            transport.in_packet_sent();
            offset += expected;
            polls += 1;
            if offset < 4096 {
                assert_eq!(state.storage_offset, offset);
            }
        }
        assert_eq!(polls, 4096 / packet_size as usize);
        assert_eq!(state.storage_offset, 0);
        assert_eq!(transport.phase(), Phase::Status);
        assert_eq!(transport.status(), Some(CommandStatus::Passed));
    }
}

#[test]
fn read_with_a_stale_offset_past_the_end_passes() {
    let (mut state, mut storage, mut transport) = setup(4096, true, 64);
    state.storage_offset = 5000;
    process_command(&mut state, &mut storage, ScsiCommand::Read { lba: 0, len: 1 }, &mut transport)
        .unwrap();
    assert_eq!(state.storage_offset, 0);
    assert_eq!(transport.status(), Some(CommandStatus::Passed));
}

#[test]
fn write_stores_at_the_offset() {
    let (mut state, mut storage, mut transport) = setup(8192, false, 64);
    let before = storage.clone();
    state.storage_offset = 4096;
    assert_eq!(transport.receive(&[0xC3; 64]), Ok(Received::Data));
    process_command(
        &mut state,
        &mut storage,
        ScsiCommand::Write { lba: 2, len: 2 },
        &mut transport,
    )
    .unwrap();
    assert_eq!(state.storage_offset, 4096 + 64);
    let at = 2 * 4096 + 4096;
    assert_eq!(&storage[at..at + 64], &[0xC3; 64]);
    assert_eq!(&storage[..at], &before[..at]);
    assert_eq!(&storage[at + 64..], &before[at + 64..]);
}

#[test]
fn out_of_range_is_rejected_in_any_transfer_state() {
    for offset in [0usize, 64, 4096, 1 << 20] {
        let (mut state, mut storage, mut transport) = setup(4096, false, 64);
        let before = storage.clone();
        state.storage_offset = offset;
        assert_eq!(transport.receive(&[1u8; 64]), Ok(Received::Data));
        let r = process_command(
            &mut state,
            &mut storage,
            ScsiCommand::Write { lba: 20, len: 6 },
            &mut transport,
        );
        assert!(r.is_ok());
        assert_eq!(transport.status(), Some(CommandStatus::Failed));
        assert_eq!(state.peek_sense(), (0x05, 0x21, 0x00));
        assert_eq!(state.storage_offset, 0);
        assert_eq!(storage, before);
    }
}

#[test]
fn unknown_is_rejected() {
    let (mut state, mut storage, mut transport) = setup(0, false, 64);
    let r = process_command(&mut state, &mut storage, ScsiCommand::Unknown(0xFF), &mut transport);
    assert!(r.is_ok());
    assert_eq!(transport.status(), Some(CommandStatus::Failed));
    assert_eq!(state.peek_sense(), (0x05, 0x20, 0x00));
}

#[test]
fn reject_sets_the_sense_of_its_reason() {
    let (mut state, _, mut transport) = setup(0, false, 64);
    state.storage_offset = 77;
    reject(&mut state, &mut transport, AdditionalSenseCode::InvalidFieldInCdb);
    assert_eq!(state.peek_sense(), (0x05, 0x24, 0x00));
    assert_eq!(state.storage_offset, 0);
    assert_eq!(transport.status(), Some(CommandStatus::Failed));
}

#[test]
fn a_rejection_replaces_the_earlier_sense() {
    let (mut state, mut storage, mut transport) = setup(0, false, 64);
    process_command(&mut state, &mut storage, ScsiCommand::Unknown(0xFF), &mut transport).unwrap();
    transport.in_packet_sent();
    assert_eq!(transport.receive(&wrapper(2, 0, true)), Ok(Received::Command));
    process_command(
        &mut state,
        &mut storage,
        ScsiCommand::Read { lba: 25, len: 1 },
        &mut transport,
    )
    .unwrap();
    assert_eq!(state.peek_sense(), (0x05, 0x21, 0x00));
}

#[test]
fn a_passing_command_keeps_the_sense() {
    let (mut state, mut storage, mut transport) = setup(0, false, 64);
    process_command(&mut state, &mut storage, ScsiCommand::Unknown(0xFF), &mut transport).unwrap();
    transport.in_packet_sent();
    assert_eq!(transport.receive(&wrapper(2, 0, false)), Ok(Received::Command));
    process_command(&mut state, &mut storage, ScsiCommand::TestUnitReady, &mut transport).unwrap();
    assert_eq!(transport.status(), Some(CommandStatus::Passed));
    assert_eq!(state.peek_sense(), (0x05, 0x20, 0x00));
}

#[test]
fn request_sense_that_cannot_be_staged_keeps_the_sense() {
    let (mut state, mut storage, mut transport) = setup(4096, true, 64);
    state.set_sense(0x05, AdditionalSenseCode::WriteError);
    // fill the staging buffer
    assert!(matches!(transport.write_data(&[0u8; 512]), Ok(512)));
    let r = process_command(&mut state, &mut storage, ScsiCommand::RequestSense, &mut transport);
    assert!(r.is_err());
    assert!(transport.has_command());
    assert_eq!(state.peek_sense(), (0x05, 0x0C, 0x00));
}
