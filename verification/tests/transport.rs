use embassy_usb::driver::EndpointError;
use pico_usb_storage::usbd_storage::transport::bbb::{
    BulkOnly, BulkOnlyError, Phase, Received,
};
use pico_usb_storage::usbd_storage::transport::{CommandStatus, Transport, TransportError};

fn wrapper(tag: u32, len: u32, to_host: bool, cdb: &[u8]) -> Vec<u8> {
    let mut bytes = vec![0x55, 0x53, 0x42, 0x43];
    bytes.extend_from_slice(&tag.to_le_bytes());
    bytes.extend_from_slice(&len.to_le_bytes());
    bytes.push(if to_host { 0x80 } else { 0x00 });
    bytes.push(0);
    bytes.push(cdb.len() as u8);
    bytes.extend_from_slice(cdb);
    bytes.resize(31, 0);
    bytes
}

fn status(tag: u32, residue: u32, code: u8) -> Vec<u8> {
    let mut bytes = vec![0x55, 0x53, 0x42, 0x53];
    bytes.extend_from_slice(&tag.to_le_bytes());
    bytes.extend_from_slice(&residue.to_le_bytes());
    bytes.push(code);
    bytes
}

fn transport() -> BulkOnly {
    BulkOnly::new(64, 0, 512).unwrap()
}

fn with_command(tag: u32, len: u32, to_host: bool) -> BulkOnly {
    let mut t = transport();
    assert_eq!(t.receive(&wrapper(tag, len, to_host, &[0u8; 6])), Ok(Received::Command));
    t
}

#[test]
fn protocol_code() {
    assert_eq!(<BulkOnly as Transport>::PROTO, 0x50);
}

#[test]
fn new_checks_its_settings() {
    assert!(BulkOnly::new(64, 0, 512).is_ok());
    assert!(BulkOnly::new(8, 15, 31).is_ok());
    assert!(matches!(BulkOnly::new(64, 16, 512), Err(BulkOnlyError::InvalidMaxLun)));
    assert!(matches!(BulkOnly::new(0, 0, 512), Err(BulkOnlyError::InvalidPacketSize)));
    assert!(matches!(BulkOnly::new(48, 0, 512), Err(BulkOnlyError::InvalidPacketSize)));
    assert!(matches!(BulkOnly::new(128, 0, 512), Err(BulkOnlyError::InvalidPacketSize)));
    assert!(matches!(BulkOnly::new(8, 0, 30), Err(BulkOnlyError::BufferTooSmall)));
    assert!(matches!(BulkOnly::new(64, 0, 63), Err(BulkOnlyError::BufferTooSmall)));
    assert!(BulkOnly::new(64, 0, 64).is_ok());
}

#[test]
fn new_transport_is_idle() {
    let t = transport();
    assert_eq!(t.phase(), Phase::Idle);
    assert_eq!(t.status(), None);
    assert!(!t.has_command());
    assert!(!t.is_stalled());
    assert!(t.wants_packet());
    assert_eq!(t.in_packet(), None);
    assert_eq!(t.packet_size(), 64);
    assert_eq!(t.max_lun(), 0);
    assert!(t.block().is_empty());
}

#[test]
fn a_command_wrapper_starts_a_command() {
    let mut t = transport();
    let cdb = [0x12, 0, 0, 0, 36, 0];
    assert_eq!(t.receive(&wrapper(9, 36, true, &cdb)), Ok(Received::Command));
    assert_eq!(t.phase(), Phase::Command);
    assert!(t.has_command());
    assert_eq!(t.block(), &cdb);
    assert_eq!(t.lun(), 0);
    assert_eq!(t.data_transfer_len(), 36);
    assert_eq!(t.in_packet(), None);
    assert!(!t.wants_packet());
}

#[test]
fn a_bad_wrapper_stalls_until_reset() {
    let mut t = transport();
    let mut bad = wrapper(1, 0, false, &[0u8; 6]);
    bad[0] = 0;
    assert_eq!(t.receive(&bad), Ok(Received::Stall));
    assert!(t.is_stalled());
    assert_eq!(t.phase(), Phase::Stalled);
    assert!(!t.wants_packet());
    // good traffic is dropped while stalled
    assert_eq!(t.receive(&wrapper(1, 0, false, &[0u8; 6])), Ok(Received::Ignored));
    assert!(t.is_stalled());
    assert!(!t.has_command());
    t.reset();
    assert_eq!(t.phase(), Phase::Idle);
    assert_eq!(t.receive(&wrapper(1, 0, false, &[0u8; 6])), Ok(Received::Command));
}

#[test]
fn a_short_packet_while_idle_stalls() {
    let mut t = transport();
    assert_eq!(t.receive(&[0x55, 0x53, 0x42, 0x43]), Ok(Received::Stall));
    assert!(t.is_stalled());
}

#[test]
fn pass_without_data_goes_to_status_and_then_idle() {
    let mut t = with_command(0x0A0B_0C0D, 0, false);
    t.pass();
    assert_eq!(t.phase(), Phase::Status);
    assert_eq!(t.status(), Some(CommandStatus::Passed));
    assert!(!t.has_command());
    assert_eq!(t.in_packet(), Some(status(0x0A0B_0C0D, 0, 0)));
    // asking again gives the same packet until it is reported as sent
    assert_eq!(t.in_packet(), Some(status(0x0A0B_0C0D, 0, 0)));
    t.in_packet_sent();
    assert_eq!(t.phase(), Phase::Idle);
    assert_eq!(t.in_packet(), None);
    assert_eq!(t.status(), None);
}

#[test]
fn fail_reports_failed_and_the_whole_length_as_residue() {
    let mut t = with_command(5, 4096, true);
    t.fail();
    assert_eq!(t.in_packet(), Some(status(5, 4096, 1)));
    t.in_packet_sent();
    assert_eq!(t.phase(), Phase::Idle);
}

#[test]
fn the_first_decision_stands() {
    let mut t = with_command(5, 0, false);
    t.fail();
    t.pass();
    assert_eq!(t.status(), Some(CommandStatus::Failed));
}

#[test]
fn pass_and_fail_do_nothing_without_a_command() {
    let mut t = transport();
    t.pass();
    t.fail();
    assert_eq!(t.phase(), Phase::Idle);
    assert_eq!(t.status(), None);
}

#[test]
fn written_data_is_sent_in_packets_before_the_status() {
    let mut t = with_command(3, 100, true);
    let data: Vec<u8> = (0..100u8).collect();
    assert!(matches!(t.write_data(&data), Ok(100)));
    assert_eq!(t.phase(), Phase::Data);
    t.pass();
    assert_eq!(t.phase(), Phase::Data);
    assert_eq!(t.in_packet(), Some(data[..64].to_vec()));
    t.in_packet_sent();
    assert_eq!(t.in_packet(), Some(data[64..].to_vec()));
    t.in_packet_sent();
    assert_eq!(t.phase(), Phase::Status);
    assert_eq!(t.in_packet(), Some(status(3, 0, 0)));
    t.in_packet_sent();
    assert_eq!(t.phase(), Phase::Idle);
}

#[test]
fn write_data_takes_no_more_than_the_host_expects() {
    let mut t = with_command(3, 10, true);
    assert!(matches!(t.write_data(&[7u8; 64]), Ok(10)));
    assert_eq!(t.in_packet(), Some(vec![7u8; 10]));
}

#[test]
fn write_data_takes_no_more_than_the_buffer_holds() {
    let mut t = with_command(3, 4096, true);
    let mut staged = 0;
    for _ in 0..8 {
        assert!(matches!(t.write_data(&[1u8; 64]), Ok(64)));
        staged += 64;
    }
    assert_eq!(staged, 512);
    assert!(matches!(t.write_data(&[1u8; 64]), Ok(0)));
    t.in_packet_sent();
    assert!(matches!(t.write_data(&[2u8; 100]), Ok(64)));
}

#[test]
fn writing_past_what_the_host_expects_is_a_phase_error() {
    let mut t = with_command(3, 64, true);
    assert!(matches!(t.write_data(&[1u8; 64]), Ok(64)));
    assert!(matches!(
        t.write_data(&[1u8; 64]),
        Err(TransportError::Error(BulkOnlyError::InvalidState))
    ));
    assert_eq!(t.status(), Some(CommandStatus::PhaseError));
    t.in_packet_sent();
    assert_eq!(t.in_packet(), Some(status(3, 0, 2)));
}

#[test]
fn writing_when_the_host_expects_nothing_is_a_phase_error() {
    let mut t = with_command(8, 0, true);
    assert!(matches!(
        t.write_data(&[1, 2, 3]),
        Err(TransportError::Error(BulkOnlyError::InvalidState))
    ));
    assert_eq!(t.phase(), Phase::Status);
    assert_eq!(t.in_packet(), Some(status(8, 0, 2)));
    let mut t = with_command(8, 0, true);
    assert!(matches!(
        t.try_write_data_all(&[1, 2, 3]),
        Err(TransportError::Error(BulkOnlyError::InvalidState))
    ));
    assert_eq!(t.status(), Some(CommandStatus::PhaseError));
}

#[test]
fn writing_when_the_host_sends_is_a_phase_error() {
    let mut t = with_command(8, 512, false);
    assert!(matches!(
        t.write_data(&[1, 2, 3]),
        Err(TransportError::Error(BulkOnlyError::InvalidState))
    ));
    assert_eq!(t.in_packet(), Some(status(8, 512, 2)));
    // the handler cannot overrule the transport
    t.pass();
    assert_eq!(t.status(), Some(CommandStatus::PhaseError));
}

#[test]
fn an_empty_write_changes_nothing() {
    let mut t = with_command(8, 0, false);
    assert!(matches!(t.write_data(&[]), Ok(0)));
    assert!(matches!(t.try_write_data_all(&[]), Ok(())));
    assert_eq!(t.phase(), Phase::Command);
    assert!(t.has_command());
}

#[test]
fn write_without_a_command_is_an_invalid_state() {
    let mut t = transport();
    assert!(matches!(
        t.write_data(&[1]),
        Err(TransportError::Error(BulkOnlyError::InvalidState))
    ));
    assert!(matches!(
        t.try_write_data_all(&[1]),
        Err(TransportError::Error(BulkOnlyError::InvalidState))
    ));
    assert!(matches!(
        t.read_data(1),
        Err(TransportError::Error(BulkOnlyError::InvalidState))
    ));
    assert_eq!(t.phase(), Phase::Idle);
    assert_eq!(t.status(), None);
}

#[test]
fn try_write_data_all_cuts_to_the_declared_length() {
    let mut t = with_command(4, 8, true);
    let data: Vec<u8> = (10..46u8).collect();
    assert!(matches!(t.try_write_data_all(&data), Ok(())));
    t.pass();
    assert_eq!(t.in_packet(), Some(data[..8].to_vec()));
    t.in_packet_sent();
    assert_eq!(t.in_packet(), Some(status(4, 0, 0)));
}

#[test]
fn try_write_data_all_leaves_a_residue_when_the_answer_is_shorter() {
    let mut t = with_command(4, 255, true);
    assert!(matches!(t.try_write_data_all(&[9u8; 36]), Ok(())));
    t.pass();
    assert_eq!(t.in_packet(), Some(vec![9u8; 36]));
    t.in_packet_sent();
    assert_eq!(t.in_packet(), Some(status(4, 219, 0)));
}

#[test]
fn try_write_data_all_is_all_or_nothing() {
    let mut t = with_command(4, 4096, true);
    assert!(matches!(t.write_data(&[1u8; 500]), Ok(500)));
    assert!(matches!(
        t.try_write_data_all(&[2u8; 13]),
        Err(TransportError::Error(BulkOnlyError::IoBufferOverflow))
    ));
    assert!(t.has_command());
    assert!(matches!(t.try_write_data_all(&[2u8; 12]), Ok(())));
    for _ in 0..7 {
        t.in_packet_sent();
    }
    let mut last = vec![1u8; 52];
    last.extend_from_slice(&[2u8; 12]);
    assert_eq!(t.in_packet(), Some(last));
}

#[test]
fn host_data_is_staged_and_read() {
    let mut t = with_command(6, 128, false);
    assert!(t.wants_packet());
    let first: Vec<u8> = (0..64u8).collect();
    let second: Vec<u8> = (64..128u8).collect();
    assert_eq!(t.receive(&first), Ok(Received::Data));
    assert_eq!(t.phase(), Phase::Data);
    assert_eq!(t.read_data(64).unwrap(), first);
    assert!(t.read_data(64).unwrap().is_empty());
    assert_eq!(t.receive(&second), Ok(Received::Data));
    assert!(!t.wants_packet());
    assert_eq!(t.read_data(10).unwrap(), second[..10].to_vec());
    assert_eq!(t.read_data(100).unwrap(), second[10..].to_vec());
    t.pass();
    assert_eq!(t.in_packet(), Some(status(6, 0, 0)));
}

#[test]
fn closing_early_leaves_what_did_not_move_as_residue() {
    let mut t = with_command(6, 128, false);
    assert_eq!(t.receive(&[1u8; 64]), Ok(Received::Data));
    t.fail();
    assert_eq!(t.phase(), Phase::Status);
    assert_eq!(t.in_packet(), Some(status(6, 64, 1)));
}

#[test]
fn host_data_beyond_the_declared_length_is_refused() {
    let mut t = with_command(6, 10, false);
    assert_eq!(t.receive(&[1u8; 11]), Err(BulkOnlyError::InvalidState));
    assert_eq!(t.phase(), Phase::Command);
    assert_eq!(t.receive(&[1u8; 10]), Ok(Received::Data));
    assert_eq!(t.receive(&[1u8; 1]), Err(BulkOnlyError::InvalidState));
}

#[test]
fn host_data_beyond_the_buffer_is_refused() {
    let mut t = with_command(6, 4096, false);
    for _ in 0..8 {
        assert_eq!(t.receive(&[1u8; 64]), Ok(Received::Data));
    }
    assert!(!t.wants_packet());
    assert_eq!(t.receive(&[1u8; 64]), Err(BulkOnlyError::IoBufferOverflow));
    assert_eq!(t.read_data(64).unwrap().len(), 64);
    assert!(t.wants_packet());
    assert_eq!(t.receive(&[1u8; 64]), Ok(Received::Data));
}

#[test]
fn host_data_for_a_command_that_sends_is_refused() {
    let mut t = with_command(6, 64, true);
    assert_eq!(t.receive(&[1u8; 8]), Err(BulkOnlyError::InvalidState));
    let mut t = with_command(6, 0, false);
    assert_eq!(t.receive(&[1u8; 8]), Err(BulkOnlyError::InvalidState));
    t.pass();
    assert_eq!(t.receive(&wrapper(1, 0, false, &[0u8; 6])), Err(BulkOnlyError::InvalidState));
}

#[test]
fn reading_when_the_host_has_nothing_is_a_phase_error() {
    let mut t = with_command(6, 0, false);
    assert!(matches!(
        t.read_data(64),
        Err(TransportError::Error(BulkOnlyError::InvalidState))
    ));
    assert_eq!(t.in_packet(), Some(status(6, 0, 2)));
    let mut t = with_command(6, 64, true);
    assert!(t.read_data(64).is_err());
    assert_eq!(t.status(), Some(CommandStatus::PhaseError));
}

#[test]
fn reading_past_what_the_host_sent_is_a_phase_error() {
    let mut t = with_command(6, 8, false);
    assert_eq!(t.receive(&[5u8; 8]), Ok(Received::Data));
    assert_eq!(t.read_data(64).unwrap(), vec![5u8; 8]);
    assert!(t.read_data(64).is_err());
    assert_eq!(t.in_packet(), Some(status(6, 0, 2)));
}

#[test]
fn reading_nothing_changes_nothing() {
    let mut t = with_command(6, 0, false);
    assert!(t.read_data(0).unwrap().is_empty());
    assert!(t.has_command());
}

#[test]
fn abort_drops_the_command_without_a_status() {
    let mut t = with_command(6, 128, true);
    assert!(matches!(t.write_data(&[1u8; 64]), Ok(64)));
    let error = t.abort(EndpointError::Disabled);
    assert!(matches!(error, TransportError::Usb(EndpointError::Disabled)));
    assert_eq!(t.phase(), Phase::Idle);
    assert_eq!(t.in_packet(), None);
    assert_eq!(t.receive(&wrapper(7, 0, false, &[0u8; 6])), Ok(Received::Command));
}

#[test]
fn abort_hands_back_the_failure_it_was_given() {
    let mut t = transport();
    assert!(matches!(
        t.abort(EndpointError::BufferOverflow),
        TransportError::Usb(EndpointError::BufferOverflow)
    ));
}

#[test]
fn abort_keeps_a_stall() {
    let mut t = transport();
    assert_eq!(t.receive(&[0u8; 31]), Ok(Received::Stall));
    let _ = t.abort(EndpointError::Disabled);
    assert!(t.is_stalled());
}

#[test]
fn reset_drops_everything() {
    let mut t = with_command(6, 128, true);
    assert!(matches!(t.write_data(&[1u8; 64]), Ok(64)));
    t.pass();
    t.reset();
    assert_eq!(t.phase(), Phase::Idle);
    assert_eq!(t.status(), None);
    assert_eq!(t.in_packet(), None);
    assert!(t.block().is_empty());
    assert_eq!(t.data_transfer_len(), 0);
}

#[test]
fn in_packet_sent_does_nothing_when_nothing_is_ready() {
    let mut t = transport();
    t.in_packet_sent();
    assert_eq!(t.phase(), Phase::Idle);
    let mut t = with_command(1, 64, true);
    t.in_packet_sent();
    assert_eq!(t.phase(), Phase::Command);
}

#[test]
fn smaller_packets() {
    let mut t = BulkOnly::new(8, 0, 64).unwrap();
    assert_eq!(t.receive(&wrapper(1, 20, true, &[0u8; 6])), Ok(Received::Command));
    let data: Vec<u8> = (0..20u8).collect();
    assert!(matches!(t.try_write_data_all(&data), Ok(())));
    t.pass();
    assert_eq!(t.in_packet(), Some(data[..8].to_vec()));
    t.in_packet_sent();
    assert_eq!(t.in_packet(), Some(data[8..16].to_vec()));
    t.in_packet_sent();
    assert_eq!(t.in_packet(), Some(data[16..].to_vec()));
    t.in_packet_sent();
    // the status wrapper does not fit one packet of 8 bytes
    let whole = status(1, 0, 0);
    assert_eq!(t.phase(), Phase::Status);
    assert_eq!(t.in_packet(), Some(whole[..8].to_vec()));
    t.in_packet_sent();
    assert_eq!(t.phase(), Phase::Status);
    assert_eq!(t.in_packet(), Some(whole[8..].to_vec()));
    t.in_packet_sent();
    assert_eq!(t.phase(), Phase::Idle);
    assert_eq!(t.in_packet(), None);
}

#[test]
fn status_wrapper_fits_one_packet_of_16() {
    let mut t = BulkOnly::new(16, 0, 64).unwrap();
    assert_eq!(t.receive(&wrapper(5, 0, false, &[0u8; 6])), Ok(Received::Command));
    t.fail();
    assert_eq!(t.in_packet(), Some(status(5, 0, 1)));
    t.in_packet_sent();
    assert_eq!(t.phase(), Phase::Idle);
}

#[test]
fn a_wrapper_comes_in_parts_where_packets_are_small() {
    let bytes = wrapper(0x0102_0304, 512, true, &[0x28, 0, 0, 0, 0, 1, 0, 0, 1, 0]);

    let mut t = BulkOnly::new(8, 0, 64).unwrap();
    assert_eq!(t.receive(&bytes[..8]), Ok(Received::Partial));
    assert_eq!(t.phase(), Phase::Idle);
    assert!(!t.has_command());
    assert!(t.wants_packet());
    assert_eq!(t.receive(&bytes[8..16]), Ok(Received::Partial));
    assert_eq!(t.receive(&bytes[16..24]), Ok(Received::Partial));
    assert_eq!(t.receive(&bytes[24..]), Ok(Received::Command));
    assert_eq!(t.phase(), Phase::Command);
    assert_eq!(t.block(), &[0x28, 0, 0, 0, 0, 1, 0, 0, 1, 0]);
    assert_eq!(t.data_transfer_len(), 512);

    let mut t = BulkOnly::new(16, 0, 64).unwrap();
    assert_eq!(t.receive(&bytes[..16]), Ok(Received::Partial));
    assert_eq!(t.receive(&bytes[16..]), Ok(Received::Command));
    assert_eq!(t.block(), &[0x28, 0, 0, 0, 0, 1, 0, 0, 1, 0]);
}

#[test]
fn a_wrapper_in_parts_is_checked_as_a_whole() {
    let mut bytes = wrapper(1, 0, false, &[0u8; 6]);
    bytes[2] = 0x00;
    let mut t = BulkOnly::new(16, 0, 64).unwrap();
    assert_eq!(t.receive(&bytes[..16]), Ok(Received::Partial));
    assert_eq!(t.receive(&bytes[16..]), Ok(Received::Stall));
    assert!(t.is_stalled());
}

#[test]
fn a_short_part_breaks_the_framing() {
    let bytes = wrapper(1, 0, false, &[0u8; 6]);
    let mut t = BulkOnly::new(8, 0, 64).unwrap();
    assert_eq!(t.receive(&bytes[..8]), Ok(Received::Partial));
    assert_eq!(t.receive(&bytes[8..12]), Ok(Received::Stall));
    assert!(t.is_stalled());
    let mut t = BulkOnly::new(8, 0, 64).unwrap();
    assert_eq!(t.receive(&[]), Ok(Received::Stall));
}

#[test]
fn a_wrapper_that_runs_over_breaks_the_framing() {
    let bytes = wrapper(1, 0, false, &[0u8; 6]);
    let mut t = BulkOnly::new(8, 0, 64).unwrap();
    for part in bytes[..24].chunks(8) {
        assert_eq!(t.receive(part), Ok(Received::Partial));
    }
    assert_eq!(t.receive(&[0u8; 8]), Ok(Received::Stall));
    let mut t = BulkOnly::new(32, 0, 64).unwrap();
    assert_eq!(t.receive(&[0u8; 32]), Ok(Received::Stall));
}

#[test]
fn reset_drops_a_wrapper_that_is_half_there() {
    let bytes = wrapper(1, 0, false, &[0u8; 6]);
    let mut t = BulkOnly::new(16, 0, 64).unwrap();
    assert_eq!(t.receive(&bytes[..16]), Ok(Received::Partial));
    t.reset();
    assert_eq!(t.receive(&bytes[..16]), Ok(Received::Partial));
    assert_eq!(t.receive(&bytes[16..]), Ok(Received::Command));
    let mut t = BulkOnly::new(16, 0, 64).unwrap();
    assert_eq!(t.receive(&bytes[..16]), Ok(Received::Partial));
    let _ = t.abort(EndpointError::Disabled);
    assert_eq!(t.receive(&bytes[16..]), Ok(Received::Stall));
}
