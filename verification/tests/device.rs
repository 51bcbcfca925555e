use embassy_usb::driver::EndpointError;
use pico_usb_storage::config::{
    BLOCKS, BLOCK_SIZE, CAPACITY, MAX_LUN, STORAGE_LEN, TRANSPORT_BUF_SIZE, USB_PACKET_SIZE,
};
use pico_usb_storage::device::Device;
use pico_usb_storage::state::State;
use pico_usb_storage::usbd_storage::transport::bbb::{BulkOnlyError, Phase, Received};
use pico_usb_storage::usbd_storage::transport::{CommandStatus, TransportError};

fn wrapper(tag: u32, len: u32, to_host: bool, cdb: &[u8]) -> Vec<u8> {
    let mut bytes = vec![0x55, 0x53, 0x42, 0x43];
    bytes.extend_from_slice(&tag.to_le_bytes());
    bytes.extend_from_slice(&len.to_le_bytes());
    bytes.push(if to_host { 0x80 } else { 0x00 });
    bytes.push(0);
    bytes.push(cdb.len() as u8);
    bytes.extend_from_slice(cdb);
    bytes.resize(31, 0);
    bytes
}

fn status(tag: u32, residue: u32, code: u8) -> Vec<u8> {
    let mut bytes = vec![0x55, 0x53, 0x42, 0x53];
    bytes.extend_from_slice(&tag.to_le_bytes());
    bytes.extend_from_slice(&residue.to_le_bytes());
    bytes.push(code);
    bytes
}

fn read10(lba: u32, blocks: u16) -> Vec<u8> {
    let mut cdb = vec![0x28, 0];
    cdb.extend_from_slice(&lba.to_be_bytes());
    cdb.push(0);
    cdb.extend_from_slice(&blocks.to_be_bytes());
    cdb.push(0);
    cdb
}

fn write10(lba: u32, blocks: u16) -> Vec<u8> {
    let mut cdb = read10(lba, blocks);
    cdb[0] = 0x2A;
    cdb
}

/// Runs a command that sends to the host: returns the payload, the status wrapper and the
/// number of polls in which the command was open.
fn run_in(device: &mut Device, tag: u32, len: u32, cdb: &[u8]) -> (Vec<u8>, Vec<u8>, usize) {
    assert_eq!(device.receive(&wrapper(tag, len, true, cdb)), Ok(Received::Command));
    let mut payload = Vec::new();
    let mut polls = 0;
    loop {
        if device.transport().has_command() {
            polls += 1;
            let _ = device.poll();
        }
        let packet = device.in_packet().expect("a packet is ready after a poll");
        let last = device.transport().phase() == Phase::Status;
        device.in_packet_sent();
        if last {
            assert_eq!(device.transport().phase(), Phase::Idle);
            return (payload, packet, polls);
        }
        assert!(packet.len() <= 64);
        payload.extend_from_slice(&packet);
        assert!(polls < 100_000);
    }
}

/// Runs a command that takes payload from the host, one packet per poll: returns the status
/// wrapper and the number of polls.
fn run_out(device: &mut Device, tag: u32, cdb: &[u8], payload: &[u8]) -> (Vec<u8>, usize) {
    assert_eq!(
        device.receive(&wrapper(tag, payload.len() as u32, false, cdb)),
        Ok(Received::Command)
    );
    let mut polls = 0;
    let mut chunks = payload.chunks(64);
    while device.transport().has_command() {
        if device.wants_packet() {
            if let Some(chunk) = chunks.next() {
                assert_eq!(device.receive(chunk), Ok(Received::Data));
            }
        }
        polls += 1;
        device.poll().unwrap();
        assert!(polls < 100_000);
    }
    let packet = device.in_packet().unwrap();
    device.in_packet_sent();
    assert_eq!(device.transport().phase(), Phase::Idle);
    (packet, polls)
}

fn pattern(len: usize, seed: u8) -> Vec<u8> {
    (0..len).map(|i| (i as u8).wrapping_mul(31).wrapping_add(seed) ^ (i >> 8) as u8).collect()
}

#[test]
fn geometry() {
    assert_eq!(BLOCK_SIZE, 4096);
    assert_eq!(CAPACITY, 102400);
    assert_eq!(BLOCKS, 25);
    assert_eq!(STORAGE_LEN, 102400);
    assert_eq!(USB_PACKET_SIZE, 64);
    assert_eq!(MAX_LUN, 0);
    assert_eq!(TRANSPORT_BUF_SIZE, 512);
}

#[test]
fn new_device() {
    let device = Device::new();
    assert_eq!(device.storage().len(), 102400);
    assert!(device.storage().iter().all(|b| *b == 0));
    assert_eq!(device.state(), State::new());
    assert_eq!(device.transport().phase(), Phase::Idle);
    assert_eq!(device.transport().packet_size(), 64);
    assert!(device.wants_packet());
    assert!(!device.is_stalled());
    assert_eq!(device.in_packet(), None);
}

#[test]
fn poll_without_a_command_does_nothing() {
    let mut device = Device::new();
    assert!(device.poll().is_ok());
    assert_eq!(device.transport().phase(), Phase::Idle);
    assert_eq!(device.state(), State::new());
}

#[test]
fn test_unit_ready_passes() {
    let mut device = Device::new();
    assert_eq!(device.receive(&wrapper(1, 0, false, &[0u8; 6])), Ok(Received::Command));
    assert!(device.poll().is_ok());
    assert_eq!(device.transport().status(), Some(CommandStatus::Passed));
    assert_eq!(device.in_packet(), Some(status(1, 0, 0)));
    device.in_packet_sent();
    assert_eq!(device.transport().phase(), Phase::Idle);
}

#[test]
fn inquiry_returns_the_36_bytes() {
    let mut device = Device::new();
    let (payload, csw, polls) = run_in(&mut device, 0x11, 36, &[0x12, 0, 0, 0, 36, 0]);
    let mut expected = vec![0x00, 0x80, 0x04, 0x02, 0x20, 0x00, 0x00, 0x00];
    expected.extend_from_slice(b"CHRISP  ");
    expected.extend_from_slice(b"100k of your fin");
    expected.extend_from_slice(b"1.23");
    assert_eq!(payload.len(), 36);
    assert_eq!(payload, expected);
    assert_eq!(&payload[32..], b"1.23");
    assert_eq!(csw, status(0x11, 0, 0));
    assert_eq!(polls, 1);
}

#[test]
fn inquiry_is_cut_to_the_declared_length() {
    let mut device = Device::new();
    let (payload, csw, _) = run_in(&mut device, 0x12, 8, &[0x12, 0, 0, 0, 8, 0]);
    assert_eq!(payload, vec![0x00, 0x80, 0x04, 0x02, 0x20, 0x00, 0x00, 0x00]);
    assert_eq!(csw, status(0x12, 0, 0));
}

#[test]
fn inquiry_with_more_room_leaves_a_residue() {
    let mut device = Device::new();
    let (payload, csw, _) = run_in(&mut device, 0x13, 255, &[0x12, 0, 0, 0, 255, 0]);
    assert_eq!(payload.len(), 36);
    assert_eq!(csw, status(0x13, 219, 0));
}

#[test]
fn inquiry_with_no_declared_length_is_a_phase_error() {
    let mut device = Device::new();
    assert_eq!(
        device.receive(&wrapper(0x14, 0, true, &[0x12, 0, 0, 0, 36, 0])),
        Ok(Received::Command)
    );
    assert!(matches!(
        device.poll(),
        Err(TransportError::Error(BulkOnlyError::InvalidState))
    ));
    assert_eq!(device.in_packet(), Some(status(0x14, 0, 2)));
    device.in_packet_sent();
    assert_eq!(device.transport().phase(), Phase::Idle);
    assert_eq!(device.state().storage_offset, 0);
}

#[test]
fn read_capacity10_returns_last_block_and_block_size() {
    let mut device = Device::new();
    let (payload, csw, _) = run_in(&mut device, 2, 8, &[0x25, 0, 0, 0, 0, 0, 0, 0, 0, 0]);
    let mut expected = (BLOCKS - 1).to_be_bytes().to_vec();
    expected.extend_from_slice(&BLOCK_SIZE.to_be_bytes());
    assert_eq!(payload, expected);
    assert_eq!(payload, vec![0, 0, 0, 24, 0, 0, 0x10, 0]);
    assert_eq!(csw, status(2, 0, 0));
}

#[test]
fn read_capacity16_returns_last_block_and_block_size() {
    let mut device = Device::new();
    let mut cdb = [0u8; 16];
    cdb[0] = 0x9E;
    let (payload, csw, _) = run_in(&mut device, 3, 16, &cdb);
    assert_eq!(payload, vec![0, 0, 0, 0, 0, 0, 0, 24, 0, 0, 0x10, 0, 0, 0, 0, 0]);
    assert_eq!(csw, status(3, 0, 0));
}

#[test]
fn read_format_capacities_returns_the_list() {
    let mut device = Device::new();
    let (payload, csw, _) = run_in(&mut device, 4, 12, &[0x23, 0, 0, 0, 0, 0, 0, 0, 12, 0]);
    assert_eq!(payload, vec![0, 0, 0, 8, 0, 0, 0, 25, 1, 0, 0x10, 0]);
    assert_eq!(csw, status(4, 0, 0));
}

#[test]
fn mode_sense_answers() {
    let mut device = Device::new();
    let (payload, csw, _) = run_in(&mut device, 5, 4, &[0x1A, 0, 0, 0, 4, 0]);
    assert_eq!(payload, vec![3, 0, 0, 0]);
    assert_eq!(csw, status(5, 0, 0));
    let (payload, csw, _) = run_in(&mut device, 6, 8, &[0x5A, 0, 0, 0, 0, 0, 0, 0, 8, 0]);
    assert_eq!(payload, vec![0, 6, 0, 0, 0, 0, 0, 0]);
    assert_eq!(csw, status(6, 0, 0));
}

#[test]
fn request_sense_without_an_error_is_all_zero() {
    let mut device = Device::new();
    let (payload, csw, _) = run_in(&mut device, 7, 18, &[0x03, 0, 0, 0, 18, 0]);
    let mut expected = vec![0u8; 18];
    expected[0] = 0x70;
    assert_eq!(payload, expected);
    assert_eq!(csw, status(7, 0, 0));
}

#[test]
fn unknown_operation_code_fails_with_sense() {
    let mut device = Device::new();
    let before = device.storage().to_vec();
    assert_eq!(device.receive(&wrapper(8, 0, false, &[0xFF])), Ok(Received::Command));
    assert!(device.poll().is_ok());
    assert_eq!(device.transport().status(), Some(CommandStatus::Failed));
    assert_eq!(device.state().peek_sense(), (0x05, 0x20, 0x00));
    assert_eq!(device.in_packet(), Some(status(8, 0, 1)));
    device.in_packet_sent();
    assert_eq!(device.transport().phase(), Phase::Idle);
    assert_eq!(device.storage(), &before[..]);
}

#[test]
fn request_sense_is_read_and_clear() {
    let mut device = Device::new();
    assert_eq!(device.receive(&wrapper(8, 0, false, &[0xFF])), Ok(Received::Command));
    device.poll().unwrap();
    device.in_packet_sent();

    let (first, csw, _) = run_in(&mut device, 9, 18, &[0x03, 0, 0, 0, 18, 0]);
    assert_eq!(first[0], 0x70);
    assert_eq!((first[2], first[12], first[13]), (0x05, 0x20, 0x00));
    assert_eq!(csw, status(9, 0, 0));
    assert_eq!(device.state().peek_sense(), (0, 0, 0));

    let (second, csw, _) = run_in(&mut device, 10, 18, &[0x03, 0, 0, 0, 18, 0]);
    assert_eq!((second[2], second[12], second[13]), (0, 0, 0));
    assert_eq!(csw, status(10, 0, 0));
}

#[test]
fn malformed_block_fails_with_invalid_field() {
    let mut device = Device::new();
    assert_eq!(
        device.receive(&wrapper(11, 512, true, &[0x28, 0, 0, 0, 0, 0])),
        Ok(Received::Command)
    );
    assert!(device.poll().is_ok());
    assert_eq!(device.state().peek_sense(), (0x05, 0x24, 0x00));
    assert_eq!(device.in_packet(), Some(status(11, 512, 1)));
}

#[test]
fn read_out_of_range_fails_and_touches_nothing() {
    let mut device = Device::new();
    let payload = pattern(4096, 1);
    run_out(&mut device, 1, &write10(24, 1), &payload);
    let before = device.storage().to_vec();
    for (lba, blocks) in [(25u32, 1u16), (24, 2), (0, 26), (0xFFFF_FFFF, 1), (13, 13)] {
        assert_eq!(
            device.receive(&wrapper(12, 4096, true, &read10(lba, blocks))),
            Ok(Received::Command)
        );
        assert!(device.poll().is_ok());
        assert_eq!(device.transport().status(), Some(CommandStatus::Failed));
        assert_eq!(device.state().peek_sense(), (0x05, 0x21, 0x00));
        assert_eq!(device.state().storage_offset, 0);
        assert_eq!(device.in_packet(), Some(status(12, 4096, 1)));
        device.in_packet_sent();
        assert_eq!(device.storage(), &before[..]);
    }
}

#[test]
fn write_out_of_range_fails_and_touches_nothing() {
    let mut device = Device::new();
    let before = device.storage().to_vec();
    for (lba, blocks) in [(25u32, 1u16), (24, 2), (1, 25)] {
        assert_eq!(
            device.receive(&wrapper(13, 4096, false, &write10(lba, blocks))),
            Ok(Received::Command)
        );
        // the host may already have sent a packet
        assert_eq!(device.receive(&[0xEE; 64]), Ok(Received::Data));
        assert!(device.poll().is_ok());
        assert_eq!(device.transport().status(), Some(CommandStatus::Failed));
        assert_eq!(device.state().peek_sense(), (0x05, 0x21, 0x00));
        assert_eq!(device.in_packet(), Some(status(13, 4096 - 64, 1)));
        device.in_packet_sent();
        assert_eq!(device.storage(), &before[..]);
    }
}

#[test]
fn twelve_byte_command_out_of_range_does_not_overflow() {
    let mut device = Device::new();
    let cdb = [0xA8, 0, 0xFF, 0xFF, 0xFF, 0xFF, 0xFF, 0xFF, 0xFF, 0xFF, 0, 0];
    assert_eq!(device.receive(&wrapper(14, 4096, true, &cdb)), Ok(Received::Command));
    assert!(device.poll().is_ok());
    assert_eq!(device.transport().status(), Some(CommandStatus::Failed));
    assert_eq!(device.state().peek_sense(), (0x05, 0x21, 0x00));
}

#[test]
fn the_last_block_is_in_range() {
    let mut device = Device::new();
    let payload = pattern(4096, 9);
    let (csw, _) = run_out(&mut device, 15, &write10(24, 1), &payload);
    assert_eq!(csw, status(15, 0, 0));
    assert_eq!(&device.storage()[24 * 4096..], &payload[..]);
    let (read, csw, _) = run_in(&mut device, 16, 4096, &read10(24, 1));
    assert_eq!(read, payload);
    assert_eq!(csw, status(16, 0, 0));
}

#[test]
fn write_then_read_returns_the_same_bytes() {
    let mut device = Device::new();
    for (lba, blocks, seed) in [(0u32, 1u16, 3u8), (3, 2, 5), (10, 15, 7), (0, 25, 11)] {
        let len = blocks as usize * 4096;
        let payload = pattern(len, seed);
        let (csw, _) = run_out(&mut device, 20, &write10(lba, blocks), &payload);
        assert_eq!(csw, status(20, 0, 0));
        let start = lba as usize * 4096;
        assert_eq!(&device.storage()[start..start + len], &payload[..]);
        let (read, csw, _) = run_in(&mut device, 21, len as u32, &read10(lba, blocks));
        assert_eq!(read, payload);
        assert_eq!(csw, status(21, 0, 0));
        assert_eq!(device.state().storage_offset, 0);
    }
}

#[test]
fn write_leaves_the_rest_of_the_store_alone() {
    let mut device = Device::new();
    let all = pattern(102400, 1);
    run_out(&mut device, 1, &write10(0, 25), &all);
    let patch = vec![0xAB; 2 * 4096];
    run_out(&mut device, 2, &write10(7, 2), &patch);
    let mut expected = all.clone();
    expected[7 * 4096..9 * 4096].copy_from_slice(&patch);
    assert_eq!(device.storage(), &expected[..]);
}

#[test]
fn six_and_twelve_byte_commands_move_blocks_too() {
    let mut device = Device::new();
    let payload = pattern(2 * 4096, 17);
    let (csw, _) = run_out(&mut device, 1, &[0x0A, 0, 0, 4, 2, 0], &payload);
    assert_eq!(csw, status(1, 0, 0));
    let (read, _, _) = run_in(&mut device, 2, 8192, &[0x08, 0, 0, 4, 2, 0]);
    assert_eq!(read, payload);
    let (read, _, _) = run_in(&mut device, 3, 8192, &[0xA8, 0, 0, 0, 0, 4, 0, 0, 0, 2, 0, 0]);
    assert_eq!(read, payload);
    let other = pattern(4096, 23);
    run_out(&mut device, 4, &[0xAA, 0, 0, 0, 0, 5, 0, 0, 0, 1, 0, 0], &other);
    let (read, _, _) = run_in(&mut device, 5, 8192, &read10(4, 2));
    assert_eq!(&read[..4096], &payload[..4096]);
    assert_eq!(&read[4096..], &other[..]);
}

#[test]
fn a_read_takes_one_poll_per_packet() {
    let mut device = Device::new();
    let payload = pattern(4096, 29);
    run_out(&mut device, 1, &write10(2, 1), &payload);

    assert_eq!(device.receive(&wrapper(2, 4096, true, &read10(2, 1))), Ok(Received::Command));
    let mut got = Vec::new();
    for poll in 1..=64usize {
        assert!(device.transport().has_command());
        assert_eq!(device.state().storage_offset, (poll - 1) * 64);
        device.poll().unwrap();
        let packet = device.in_packet().unwrap();
        assert_eq!(packet.len(), 64);
        got.extend_from_slice(&packet);
        device.in_packet_sent();
        if poll < 64 {
            assert_eq!(device.state().storage_offset, poll * 64);
            assert_eq!(device.transport().status(), None);
        }
    }
    assert_eq!(device.state().storage_offset, 0);
    assert!(!device.transport().has_command());
    assert_eq!(device.transport().status(), Some(CommandStatus::Passed));
    assert_eq!(got, payload);
    assert_eq!(device.in_packet(), Some(status(2, 0, 0)));
}

#[test]
fn a_write_takes_one_poll_per_packet() {
    let mut device = Device::new();
    let payload = pattern(2 * 4096, 31);
    let (csw, polls) = run_out(&mut device, 1, &write10(1, 2), &payload);
    assert_eq!(polls, 128);
    assert_eq!(csw, status(1, 0, 0));
}

#[test]
fn write_offset_grows_by_what_came() {
    let mut device = Device::new();
    assert_eq!(device.receive(&wrapper(1, 4096, false, &write10(0, 1))), Ok(Received::Command));
    // nothing has come yet: the poll moves nothing and the command stays open
    device.poll().unwrap();
    assert_eq!(device.state().storage_offset, 0);
    assert!(device.transport().has_command());
    // a short packet moves as much as it holds
    assert_eq!(device.receive(&[1u8; 10]), Ok(Received::Data));
    device.poll().unwrap();
    assert_eq!(device.state().storage_offset, 10);
    assert_eq!(&device.storage()[..10], &[1u8; 10]);
    assert_eq!(device.storage()[10], 0);
    // two packets staged: one poll takes one packet's worth
    assert_eq!(device.receive(&[2u8; 64]), Ok(Received::Data));
    assert_eq!(device.receive(&[3u8; 64]), Ok(Received::Data));
    device.poll().unwrap();
    assert_eq!(device.state().storage_offset, 74);
    device.poll().unwrap();
    assert_eq!(device.state().storage_offset, 138);
    assert_eq!(&device.storage()[10..74], &[2u8; 64]);
    assert_eq!(&device.storage()[74..138], &[3u8; 64]);
}

#[test]
fn a_read_when_the_host_is_slow_does_not_lose_bytes() {
    let mut device = Device::new();
    let payload = pattern(4096, 37);
    run_out(&mut device, 1, &write10(0, 1), &payload);
    assert_eq!(device.receive(&wrapper(2, 4096, true, &read10(0, 1))), Ok(Received::Command));
    let mut got = Vec::new();
    let mut steps = 0;
    while device.transport().phase() != Phase::Status {
        // three polls for each packet that the host takes
        for _ in 0..3 {
            if device.transport().has_command() {
                device.poll().unwrap();
            }
        }
        got.extend_from_slice(&device.in_packet().unwrap());
        device.in_packet_sent();
        steps += 1;
        assert!(steps < 1000);
    }
    assert_eq!(got, payload);
    assert_eq!(device.in_packet(), Some(status(2, 0, 0)));
}

#[test]
fn zero_blocks_pass_at_once() {
    let mut device = Device::new();
    assert_eq!(device.receive(&wrapper(1, 0, true, &read10(3, 0))), Ok(Received::Command));
    device.poll().unwrap();
    assert_eq!(device.in_packet(), Some(status(1, 0, 0)));
    device.in_packet_sent();
    assert_eq!(device.receive(&wrapper(2, 0, false, &write10(25, 0))), Ok(Received::Command));
    device.poll().unwrap();
    assert_eq!(device.in_packet(), Some(status(2, 0, 0)));
}

#[test]
fn a_read_that_the_host_declared_too_short_ends_in_a_phase_error() {
    let mut device = Device::new();
    let (payload, csw, _) = run_in(&mut device, 1, 100, &read10(0, 1));
    assert_eq!(payload.len(), 100);
    assert_eq!(csw, status(1, 0, 2));
    assert_eq!(device.state().storage_offset, 0);
}

#[test]
fn a_read_for_a_host_that_sends_ends_in_a_phase_error() {
    let mut device = Device::new();
    assert_eq!(device.receive(&wrapper(1, 4096, false, &read10(0, 1))), Ok(Received::Command));
    assert!(device.poll().is_err());
    assert_eq!(device.in_packet(), Some(status(1, 4096, 2)));
    assert_eq!(device.state().storage_offset, 0);
}

#[test]
fn bad_wrapper_stalls_until_reset() {
    let mut device = Device::new();
    assert_eq!(device.receive(&[0u8; 31]), Ok(Received::Stall));
    assert!(device.is_stalled());
    assert!(!device.wants_packet());
    assert_eq!(device.receive(&wrapper(1, 0, false, &[0u8; 6])), Ok(Received::Ignored));
    assert!(device.poll().is_ok());
    assert_eq!(device.in_packet(), None);
    device.reset();
    assert!(!device.is_stalled());
    assert_eq!(device.receive(&wrapper(1, 0, false, &[0u8; 6])), Ok(Received::Command));
}

#[test]
fn wrapper_for_another_lun_stalls() {
    let mut device = Device::new();
    let mut bytes = wrapper(1, 0, false, &[0u8; 6]);
    bytes[13] = 1;
    assert_eq!(device.receive(&bytes), Ok(Received::Stall));
}

#[test]
fn reset_clears_sense_and_transfer_but_not_the_store() {
    let mut device = Device::new();
    let payload = pattern(4096, 41);
    run_out(&mut device, 1, &write10(0, 1), &payload);
    assert_eq!(device.receive(&wrapper(2, 0, false, &[0xFF])), Ok(Received::Command));
    device.poll().unwrap();
    device.in_packet_sent();
    assert_eq!(device.receive(&wrapper(3, 4096, true, &read10(0, 1))), Ok(Received::Command));
    device.poll().unwrap();
    assert_eq!(device.state().storage_offset, 64);
    assert_eq!(device.state().peek_sense(), (0x05, 0x20, 0x00));
    device.reset();
    assert_eq!(device.state(), State::new());
    assert_eq!(device.transport().phase(), Phase::Idle);
    assert_eq!(device.in_packet(), None);
    assert_eq!(&device.storage()[..4096], &payload[..]);
    // the next read starts from its first byte
    let (read, csw, _) = run_in(&mut device, 4, 4096, &read10(0, 1));
    assert_eq!(read, payload);
    assert_eq!(csw, status(4, 0, 0));
}

#[test]
fn endpoint_failure_drops_the_command_and_keeps_the_sense() {
    let mut device = Device::new();
    assert_eq!(device.receive(&wrapper(2, 0, false, &[0xFF])), Ok(Received::Command));
    device.poll().unwrap();
    device.in_packet_sent();
    assert_eq!(device.receive(&wrapper(3, 4096, true, &read10(0, 1))), Ok(Received::Command));
    device.poll().unwrap();
    assert_eq!(device.state().storage_offset, 64);
    let error = device.endpoint_failed(EndpointError::BufferOverflow);
    assert!(matches!(error, TransportError::Usb(EndpointError::BufferOverflow)));
    assert_eq!(device.transport().phase(), Phase::Idle);
    assert_eq!(device.in_packet(), None);
    assert_eq!(device.state().storage_offset, 0);
    assert_eq!(device.state().peek_sense(), (0x05, 0x20, 0x00));
    // the device takes the next command
    let (payload, csw, _) = run_in(&mut device, 4, 36, &[0x12, 0, 0, 0, 36, 0]);
    assert_eq!(payload.len(), 36);
    assert_eq!(csw, status(4, 0, 0));
}

#[test]
fn a_failed_command_does_not_block_the_next() {
    let mut device = Device::new();
    for tag in 0..5u32 {
        assert_eq!(device.receive(&wrapper(tag, 0, false, &[0xEE, 1, 2])), Ok(Received::Command));
        device.poll().unwrap();
        assert_eq!(device.in_packet(), Some(status(tag, 0, 1)));
        device.in_packet_sent();
        assert_eq!(device.transport().phase(), Phase::Idle);
    }
    let (_, csw, _) = run_in(&mut device, 9, 8, &[0x25, 0, 0, 0, 0, 0, 0, 0, 0, 0]);
    assert_eq!(csw, status(9, 0, 0));
}

#[test]
fn the_status_wrapper_echoes_the_tag() {
    let mut device = Device::new();
    for tag in [0u32, 1, 0x8000_0000, 0xFFFF_FFFF, 0x1234_5678] {
        assert_eq!(device.receive(&wrapper(tag, 0, false, &[0u8; 6])), Ok(Received::Command));
        device.poll().unwrap();
        let csw = device.in_packet().unwrap();
        assert_eq!(&csw[4..8], &tag.to_le_bytes());
        device.in_packet_sent();
    }
}
