use pico_usb_storage::usbd_storage::transport::bbb::{
    class_request, ClassRequest, CommandBlockWrapper, CommandStatusWrapper, Direction, CBW_LEN,
    CBW_SIGNATURE, CSW_LEN, CSW_SIGNATURE,
};
use pico_usb_storage::usbd_storage::{CLASS_MASS_STORAGE, SUBCLASS_SCSI};
use pico_usb_storage::usbd_storage::transport::{CommandStatus, TRANSPORT_VENDOR_SPECIFIC};

fn wrapper(tag: u32, len: u32, flags: u8, lun: u8, cdb: &[u8]) -> Vec<u8> {
    let mut bytes = vec![0x55, 0x53, 0x42, 0x43];
    bytes.extend_from_slice(&tag.to_le_bytes());
    bytes.extend_from_slice(&len.to_le_bytes());
    bytes.push(flags);
    bytes.push(lun);
    bytes.push(cdb.len() as u8);
    bytes.extend_from_slice(cdb);
    bytes.resize(31, 0);
    bytes
}

#[test]
fn constants() {
    assert_eq!(CBW_SIGNATURE.to_le_bytes(), *b"USBC");
    assert_eq!(CSW_SIGNATURE.to_le_bytes(), *b"USBS");
    assert_eq!(CBW_LEN, 31);
    assert_eq!(CSW_LEN, 13);
    assert_eq!(TRANSPORT_VENDOR_SPECIFIC, 0xFF);
}

#[test]
fn parse_reads_every_field() {
    let bytes = wrapper(0xDEAD_BEEF, 0x0102_0304, 0x80, 0, &[0x12, 0, 0, 0, 36, 0]);
    let cbw = CommandBlockWrapper::parse(&bytes, 0).unwrap();
    assert_eq!(cbw.tag, 0xDEAD_BEEF);
    assert_eq!(cbw.data_transfer_len, 0x0102_0304);
    assert_eq!(cbw.direction, Direction::In);
    assert_eq!(cbw.lun, 0);
    assert_eq!(cbw.block, vec![0x12, 0, 0, 0, 36, 0]);
}

#[test]
fn parse_reads_the_direction_from_bit_7() {
    let cdb = [0u8; 6];
    assert_eq!(
        CommandBlockWrapper::parse(&wrapper(1, 0, 0x00, 0, &cdb), 0).unwrap().direction,
        Direction::Out
    );
    assert_eq!(
        CommandBlockWrapper::parse(&wrapper(1, 0, 0x7F, 0, &cdb), 0).unwrap().direction,
        Direction::Out
    );
    assert_eq!(
        CommandBlockWrapper::parse(&wrapper(1, 0, 0x80, 0, &cdb), 0).unwrap().direction,
        Direction::In
    );
}

#[test]
fn parse_keeps_only_the_declared_bytes_of_the_block() {
    let mut bytes = wrapper(7, 0, 0, 0, &[0xAA; 16]);
    bytes[14] = 3;
    let cbw = CommandBlockWrapper::parse(&bytes, 0).unwrap();
    assert_eq!(cbw.block, vec![0xAA; 3]);
    bytes[14] = 16;
    assert_eq!(CommandBlockWrapper::parse(&bytes, 0).unwrap().block.len(), 16);
    bytes[14] = 1;
    assert_eq!(CommandBlockWrapper::parse(&bytes, 0).unwrap().block.len(), 1);
}

#[test]
fn parse_refuses_a_wrong_signature() {
    let mut bytes = wrapper(1, 0, 0, 0, &[0u8; 6]);
    bytes[0] = 0x54;
    assert!(CommandBlockWrapper::parse(&bytes, 0).is_none());
    let mut bytes = wrapper(1, 0, 0, 0, &[0u8; 6]);
    bytes[3] = 0x53;
    assert!(CommandBlockWrapper::parse(&bytes, 0).is_none());
}

#[test]
fn parse_refuses_a_wrong_length() {
    let bytes = wrapper(1, 0, 0, 0, &[0u8; 6]);
    assert!(CommandBlockWrapper::parse(&bytes[..30], 0).is_none());
    let mut long = bytes.clone();
    long.push(0);
    assert!(CommandBlockWrapper::parse(&long, 0).is_none());
    assert!(CommandBlockWrapper::parse(&[], 0).is_none());
    assert!(CommandBlockWrapper::parse(&bytes, 0).is_some());
}

#[test]
fn parse_refuses_a_block_length_outside_1_to_16() {
    let mut bytes = wrapper(1, 0, 0, 0, &[0u8; 6]);
    bytes[14] = 0;
    assert!(CommandBlockWrapper::parse(&bytes, 0).is_none());
    bytes[14] = 17;
    assert!(CommandBlockWrapper::parse(&bytes, 0).is_none());
    bytes[14] = 0xFF;
    assert!(CommandBlockWrapper::parse(&bytes, 0).is_none());
}

#[test]
fn parse_refuses_a_lun_the_device_does_not_have() {
    let bytes = wrapper(1, 0, 0, 1, &[0u8; 6]);
    assert!(CommandBlockWrapper::parse(&bytes, 0).is_none());
    assert!(CommandBlockWrapper::parse(&bytes, 1).is_some());
    let bytes = wrapper(1, 0, 0, 15, &[0u8; 6]);
    assert!(CommandBlockWrapper::parse(&bytes, 14).is_none());
    assert_eq!(CommandBlockWrapper::parse(&bytes, 15).unwrap().lun, 15);
}

#[test]
fn to_bytes_is_the_wire_layout() {
    let cbw = CommandBlockWrapper {
        tag: 0x1122_3344,
        data_transfer_len: 512,
        direction: Direction::In,
        lun: 0,
        block: vec![0x28, 0, 0, 0, 0, 1, 0, 0, 1, 0],
    };
    let bytes = cbw.to_bytes();
    assert_eq!(bytes, wrapper(0x1122_3344, 512, 0x80, 0, &[0x28, 0, 0, 0, 0, 1, 0, 0, 1, 0]));
    let back = CommandBlockWrapper::parse(&bytes, 0).unwrap();
    assert_eq!(back.tag, cbw.tag);
    assert_eq!(back.data_transfer_len, cbw.data_transfer_len);
    assert_eq!(back.direction, cbw.direction);
    assert_eq!(back.lun, cbw.lun);
    assert_eq!(back.block, cbw.block);
}

#[test]
fn blank_wrapper_is_empty() {
    let cbw = CommandBlockWrapper::blank();
    assert_eq!(cbw.tag, 0);
    assert_eq!(cbw.data_transfer_len, 0);
    assert_eq!(cbw.direction, Direction::Out);
    assert!(cbw.block.is_empty());
}

#[test]
fn status_wrapper_bytes() {
    let csw = CommandStatusWrapper {
        tag: 0xDEAD_BEEF,
        residue: 0x0000_0200,
        status: CommandStatus::Failed,
    };
    assert_eq!(
        csw.to_bytes(),
        vec![0x55, 0x53, 0x42, 0x53, 0xEF, 0xBE, 0xAD, 0xDE, 0x00, 0x02, 0x00, 0x00, 0x01]
    );
}

#[test]
fn status_codes() {
    assert_eq!(CommandStatus::Passed.code(), 0);
    assert_eq!(CommandStatus::Failed.code(), 1);
    assert_eq!(CommandStatus::PhaseError.code(), 2);
    assert_eq!(CommandStatus::default(), CommandStatus::Passed);
}

#[test]
fn status_wrapper_of_each_status_ends_in_its_code() {
    for (status, code) in [
        (CommandStatus::Passed, 0u8),
        (CommandStatus::Failed, 1),
        (CommandStatus::PhaseError, 2),
    ] {
        let bytes = CommandStatusWrapper { tag: 1, residue: 0, status }.to_bytes();
        assert_eq!(bytes.len(), 13);
        assert_eq!(bytes[12], code);
        assert_eq!(&bytes[4..8], &[1, 0, 0, 0]);
    }
}

#[test]
fn class_requests() {
    assert_eq!(class_request(false, 0xFF, 0, 0), Some(ClassRequest::Reset));
    assert_eq!(class_request(true, 0xFE, 0, 1), Some(ClassRequest::GetMaxLun));
    assert_eq!(class_request(true, 0xFF, 0, 0), None);
    assert_eq!(class_request(false, 0xFE, 0, 1), None);
    assert_eq!(class_request(false, 0xFF, 1, 0), None);
    assert_eq!(class_request(false, 0xFF, 0, 1), None);
    assert_eq!(class_request(true, 0xFE, 0, 0), None);
    assert_eq!(class_request(true, 0xFE, 1, 1), None);
    assert_eq!(class_request(true, 0x00, 0, 1), None);
}

#[test]
fn interface_codes() {
    assert_eq!(CLASS_MASS_STORAGE, 0x08);
    assert_eq!(SUBCLASS_SCSI, 0x06);
}
