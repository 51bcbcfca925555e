//! Bulk-Only Transport: the framing of commands, data and status on a pair
//! of bulk endpoints.
//!
//! The transport owns no endpoint. The caller reads packets from the OUT
//! endpoint and hands them in; it asks for the next IN packet, writes it, and
//! reports that it was sent. Between the two, a command handler moves
//! payload through the transport and closes the command.

use crate::usbd_storage::transport::{CommandStatus, Transport, TransportError};
use embassy_usb::driver::EndpointError;
use vstd::prelude::*;

verus! {

/// The first four bytes of a command wrapper, read as a little-endian number.
pub const CBW_SIGNATURE: u32 = 0x43425355;

/// The first four bytes of a status wrapper, read as a little-endian number.
pub const CSW_SIGNATURE: u32 = 0x53425355;

/// The length of a command wrapper.
pub const CBW_LEN: usize = 31;

/// The length of a status wrapper.
pub const CSW_LEN: usize = 13;

/// The longest command descriptor block that a wrapper carries.
pub const MAX_CDB_LEN: usize = 16;

/// The highest logical unit number that the protocol can express.
pub const LUN_LIMIT: u8 = 15;

/// What the transport itself can report, apart from endpoint failures.
#[derive(Clone, Copy, Debug, PartialEq, Eq, Structural)]
pub enum BulkOnlyError {
    /// The staging buffer has no room for what was to be written.
    IoBufferOverflow,
    /// The highest logical unit number is above 15.
    InvalidMaxLun,
    /// The packet size is none of 8, 16, 32 and 64.
    InvalidPacketSize,
    /// The staging buffer can hold neither a command wrapper nor a packet.
    BufferTooSmall,
    /// The call does not fit the phase the transport is in.
    InvalidState,
}

/// The direction of the data phase, as the command wrapper declares it.
#[derive(Clone, Copy, Debug, PartialEq, Eq, Structural)]
pub enum Direction {
    /// From the host to the device.
    Out,
    /// From the device to the host.
    In,
}

/// The phases of the transport.
#[derive(Clone, Copy, Debug, PartialEq, Eq, Structural)]
pub enum Phase {
    /// No command is in flight.
    Idle,
    /// A command wrapper was accepted and no payload has moved yet.
    Command,
    /// Payload is moving, or waits in the staging buffer to be sent.
    Data,
    /// The command is closed and its status wrapper is the next packet.
    Status,
    /// A wrapper was refused: both endpoints are to be stalled, and traffic
    /// is ignored until a reset.
    Stalled,
}

/// What the transport made of a packet from the host.
#[derive(Clone, Copy, Debug, PartialEq, Eq, Structural)]
pub enum Received {
    /// The first bytes of a command wrapper: more are to come.
    Partial,
    /// A command wrapper, or the last bytes of one: a command is now in
    /// flight.
    Command,
    /// Payload of the command in flight.
    Data,
    /// A wrapper that breaks the framing rules: stall both endpoints.
    Stall,
    /// Traffic while stalled: dropped.
    Ignored,
}

/// The number that four bytes spell, least significant byte first.
pub open spec fn le_value(s: Seq<u8>) -> nat {
    (s[0] + 256 * s[1] + 65536 * s[2] + 16777216 * s[3]) as nat
}

/// The four bytes of a number, least significant byte first.
pub open spec fn le_bytes(x: u32) -> Seq<u8> {
    seq![
        (x % 256) as u8,
        ((x / 256) % 256) as u8,
        ((x / 65536) % 256) as u8,
        (x / 16777216) as u8,
    ]
}

/// Spelling a number in four bytes and reading them back gives the number.
pub proof fn lemma_le_value_of_le_bytes(x: u32)
    ensures
        le_bytes(x).len() == 4,
        le_value(le_bytes(x)) == x,
{
}

fn read_le_u32(bytes: &[u8], at: usize) -> (r: u32)
    requires
        at + 4 <= bytes@.len(),
    ensures
        r == le_value(bytes@.subrange(at as int, at + 4)),
{
    let b0: u32 = bytes[at] as u32;
    let b1: u32 = bytes[at + 1] as u32;
    let b2: u32 = bytes[at + 2] as u32;
    let b3: u32 = bytes[at + 3] as u32;
    b0 + 256 * b1 + 65536 * b2 + 16777216 * b3
}

fn push_le_u32(out: &mut Vec<u8>, x: u32)
    ensures
        final(out)@ == old(out)@ + le_bytes(x),
{
    out.push((x % 256) as u8);
    out.push(((x / 256) % 256) as u8);
    out.push(((x / 65536) % 256) as u8);
    out.push((x / 16777216) as u8);
    assert(out@ =~= old(out)@ + le_bytes(x));
}

/// Appends the bytes of `src` from index `from` up to `to`.
fn push_range(out: &mut Vec<u8>, src: &[u8], from: usize, to: usize)
    requires
        from <= to <= src@.len(),
    ensures
        final(out)@ == old(out)@ + src@.subrange(from as int, to as int),
{
    let mut i: usize = from;
    while i < to
        invariant
            from <= i <= to <= src@.len(),
            out@ == old(out)@ + src@.subrange(from as int, i as int),
        decreases to - i,
    {
        out.push(src[i]);
        i = i + 1;
        assert(out@ =~= old(out)@ + src@.subrange(from as int, i as int));
    }
    assert(out@ =~= old(out)@ + src@.subrange(from as int, to as int));
}

/// A command wrapper: what the host sends to start a command.
#[derive(Debug)]
pub struct CommandBlockWrapper {
    /// The tag that the status wrapper must echo.
    pub tag: u32,
    /// The number of payload bytes that the host expects to move.
    pub data_transfer_len: u32,
    /// The direction of the data phase.
    pub direction: Direction,
    /// The logical unit the command is for.
    pub lun: u8,
    /// The command descriptor block, 1 to 16 bytes.
    pub block: Vec<u8>,
}

/// A command wrapper as a mathematical value.
pub struct CbwView {
    /// The tag that the status wrapper must echo.
    pub tag: u32,
    /// The number of payload bytes that the host expects to move.
    pub data_transfer_len: u32,
    /// The direction of the data phase.
    pub direction: Direction,
    /// The logical unit the command is for.
    pub lun: u8,
    /// The command descriptor block, 1 to 16 bytes.
    pub block: Seq<u8>,
}

impl View for CommandBlockWrapper {
    type V = CbwView;

    open spec fn view(&self) -> CbwView {
        CbwView {
            tag: self.tag,
            data_transfer_len: self.data_transfer_len,
            direction: self.direction,
            lun: self.lun,
            block: self.block@,
        }
    }
}

impl CbwView {
    /// The wrapper that stands in while no command is in flight.
    pub open spec fn blank() -> CbwView {
        CbwView {
            tag: 0,
            data_transfer_len: 0,
            direction: Direction::Out,
            lun: 0,
            block: Seq::empty(),
        }
    }

    /// The descriptor block has a length that a wrapper can declare.
    pub open spec fn wf(self) -> bool {
        1 <= self.block.len() <= MAX_CDB_LEN
    }

    /// The 31 bytes of the wrapper; the bytes after the descriptor block
    /// are zero.
    pub open spec fn bytes(self) -> Seq<u8> {
        le_bytes(CBW_SIGNATURE) + le_bytes(self.tag) + le_bytes(self.data_transfer_len) + seq![
            if self.direction == Direction::In { 0x80u8 } else { 0x00u8 },
            self.lun,
            self.block.len() as u8,
        ] + self.block + Seq::new((MAX_CDB_LEN - self.block.len()) as nat, |i: int| 0u8)
    }
}

impl CommandBlockWrapper {
    /// Whether a packet is a command wrapper that the device takes: it has
    /// 31 bytes, it starts with the signature, it declares a descriptor
    /// block of 1 to 16 bytes, and its logical unit is one the device has.
    pub open spec fn accepts(bytes: Seq<u8>, max_lun: u8) -> bool {
        &&& bytes.len() == CBW_LEN
        &&& le_value(bytes.subrange(0, 4)) == CBW_SIGNATURE
        &&& bytes[13] <= max_lun
        &&& 1 <= bytes[14] <= MAX_CDB_LEN
    }

    /// The wrapper that an accepted packet holds.
    pub open spec fn parsed(bytes: Seq<u8>) -> CbwView {
        CbwView {
            tag: le_value(bytes.subrange(4, 8)) as u32,
            data_transfer_len: le_value(bytes.subrange(8, 12)) as u32,
            direction: if bytes[12] >= 0x80 {
                Direction::In
            } else {
                Direction::Out
            },
            lun: bytes[13],
            block: bytes.subrange(15, 15 + bytes[14]),
        }
    }

    /// The wrapper that stands in while no command is in flight.
    pub fn blank() -> (r: Self)
        ensures
            r@ == CbwView::blank(),
    {
        CommandBlockWrapper {
            tag: 0,
            data_transfer_len: 0,
            direction: Direction::Out,
            lun: 0,
            block: Vec::new(),
        }
    }

    /// Reads a command wrapper from a packet; `None` when the packet is not
    /// one that the device takes.
    pub fn parse(bytes: &[u8], max_lun: u8) -> (r: Option<Self>)
        ensures
            r is Some == Self::accepts(bytes@, max_lun),
            r matches Some(c) ==> c@ == Self::parsed(bytes@) && c@.wf(),
    {
        if bytes.len() != CBW_LEN {
            return None;
        }
        if read_le_u32(bytes, 0) != CBW_SIGNATURE {
            return None;
        }
        let lun = bytes[13];
        let block_len = bytes[14];
        if lun > max_lun || block_len < 1 || block_len as usize > MAX_CDB_LEN {
            return None;
        }
        let tag = read_le_u32(bytes, 4);
        let data_transfer_len = read_le_u32(bytes, 8);
        let direction = if bytes[12] >= 0x80 {
            Direction::In
        } else {
            Direction::Out
        };
        let mut block: Vec<u8> = Vec::new();
        push_range(&mut block, bytes, 15, 15 + block_len as usize);
        assert(block@ =~= bytes@.subrange(15, 15 + bytes@[14]));
        Some(CommandBlockWrapper { tag, data_transfer_len, direction, lun, block })
    }

    /// The 31 bytes of the wrapper.
    pub fn to_bytes(&self) -> (r: Vec<u8>)
        requires
            self@.wf(),
        ensures
            r@ == self@.bytes(),
            r@.len() == CBW_LEN,
    {
        let mut out: Vec<u8> = Vec::new();
        push_le_u32(&mut out, CBW_SIGNATURE);
        push_le_u32(&mut out, self.tag);
        push_le_u32(&mut out, self.data_transfer_len);
        out.push(
            match self.direction {
                Direction::In => 0x80u8,
                Direction::Out => 0x00u8,
            },
        );
        out.push(self.lun);
        out.push(self.block.len() as u8);
        push_range(&mut out, self.block.as_slice(), 0, self.block.len());
        let ghost head = out@;
        assert(self.block@.subrange(0, self.block@.len() as int) =~= self.block@);
        let mut pad: usize = self.block.len();
        while pad < MAX_CDB_LEN
            invariant
                self.block@.len() <= pad <= MAX_CDB_LEN,
                out@ == head + Seq::new((pad - self.block@.len()) as nat, |i: int| 0u8),
            decreases MAX_CDB_LEN - pad,
        {
            out.push(0u8);
            pad = pad + 1;
            assert(out@ =~= head + Seq::new((pad - self.block@.len()) as nat, |i: int| 0u8));
        }
        assert(out@ =~= self@.bytes());
        out
    }

    /// A wrapper that the device takes reads back as itself from its bytes.
    pub proof fn lemma_bytes_then_parse(c: CbwView, max_lun: u8)
        requires
            c.wf(),
            c.lun <= max_lun,
        ensures
            Self::accepts(c.bytes(), max_lun),
            Self::parsed(c.bytes()) == c,
    {
        let b = c.bytes();
        lemma_le_value_of_le_bytes(CBW_SIGNATURE);
        lemma_le_value_of_le_bytes(c.tag);
        lemma_le_value_of_le_bytes(c.data_transfer_len);
        assert(b.subrange(0, 4) =~= le_bytes(CBW_SIGNATURE));
        assert(b.subrange(4, 8) =~= le_bytes(c.tag));
        assert(b.subrange(8, 12) =~= le_bytes(c.data_transfer_len));
        assert(b.subrange(15, 15 + b[14]) =~= c.block);
    }
}

/// A status wrapper: what the device sends to close a command.
#[derive(Clone, Copy, Debug, PartialEq, Eq, Structural)]
pub struct CommandStatusWrapper {
    /// The tag of the command wrapper that this answers.
    pub tag: u32,
    /// The bytes that the host expected and that did not move.
    pub residue: u32,
    /// How the command ended.
    pub status: CommandStatus,
}

impl CommandStatusWrapper {
    /// The 13 bytes of the wrapper: signature, tag and residue as
    /// little-endian numbers, then the status byte.
    pub open spec fn bytes(self) -> Seq<u8> {
        le_bytes(CSW_SIGNATURE) + le_bytes(self.tag) + le_bytes(self.residue) + seq![
            self.status.spec_code(),
        ]
    }

    /// The 13 bytes of the wrapper.
    pub fn to_bytes(&self) -> (r: Vec<u8>)
        ensures
            r@ == self.bytes(),
            r@.len() == CSW_LEN,
    {
        let mut out: Vec<u8> = Vec::new();
        push_le_u32(&mut out, CSW_SIGNATURE);
        push_le_u32(&mut out, self.tag);
        push_le_u32(&mut out, self.residue);
        out.push(self.status.code());
        assert(out@ =~= self.bytes());
        out
    }
}

/// The class request that resets the transport.
pub const REQUEST_MASS_STORAGE_RESET: u8 = 0xFF;

/// The class request that asks for the highest logical unit number.
pub const REQUEST_GET_MAX_LUN: u8 = 0xFE;

/// The control requests of the transport.
#[derive(Clone, Copy, Debug, PartialEq, Eq, Structural)]
pub enum ClassRequest {
    /// Bulk-Only Mass Storage Reset: drop the command in flight, lift the
    /// stall, return to idle.
    Reset,
    /// Get Max LUN: answer with one byte, the highest logical unit number.
    GetMaxLun,
}

/// Which request of the transport a class request to the interface is,
/// from its direction and the request, value and length fields of its setup
/// packet. A reset goes to the device, with value 0 and no data; the
/// question for the highest logical unit goes to the host, with value 0 and
/// one byte of data.
pub open spec fn spec_class_request(to_host: bool, request: u8, value: u16, length: u16) -> Option<
    ClassRequest,
> {
    if !to_host && request == REQUEST_MASS_STORAGE_RESET && value == 0 && length == 0 {
        Some(ClassRequest::Reset)
    } else if to_host && request == REQUEST_GET_MAX_LUN && value == 0 && length == 1 {
        Some(ClassRequest::GetMaxLun)
    } else {
        None
    }
}

/// Tells which request of the transport a class request to the interface
/// is; `None` for a request that is none of the transport's.
pub fn class_request(to_host: bool, request: u8, value: u16, length: u16) -> (r: Option<
    ClassRequest,
>)
    ensures
        r == spec_class_request(to_host, request, value, length),
{
    if !to_host && request == REQUEST_MASS_STORAGE_RESET && value == 0 && length == 0 {
        Some(ClassRequest::Reset)
    } else if to_host && request == REQUEST_GET_MAX_LUN && value == 0 && length == 1 {
        Some(ClassRequest::GetMaxLun)
    } else {
        None
    }
}

/// The transport as a mathematical value.
pub struct BulkOnlyView {
    /// The phase the transport is in.
    pub phase: Phase,
    /// The wrapper of the command in flight; blank when there is none.
    pub cbw: CbwView,
    /// The payload bytes moved so far for the command in flight.
    pub moved: nat,
    /// How the command ended, once the handler or the transport has said so.
    pub status: Option<CommandStatus>,
    /// What waits in the transport: payload on its way to the host and not
    /// yet sent, payload of the host that the handler has not taken yet, or,
    /// while idle, the first bytes of a command wrapper that is arriving in
    /// several packets.
    pub staged: Seq<u8>,
    /// The bytes of the status wrapper that have been sent already.
    pub status_sent: nat,
    /// The size of a full packet on the bulk endpoints.
    pub packet_size: nat,
    /// The highest logical unit number the device has.
    pub max_lun: u8,
    /// The most payload that can wait in the transport.
    pub capacity: nat,
}

impl BulkOnlyView {
    /// The settings are ones that a transport can be made with.
    pub open spec fn configured(self) -> bool {
        &&& self.packet_size == 8 || self.packet_size == 16 || self.packet_size == 32
            || self.packet_size == 64
        &&& self.max_lun <= LUN_LIMIT
        &&& self.capacity >= CBW_LEN
        &&& self.capacity >= self.packet_size
        &&& self.capacity <= usize::MAX
    }

    /// What holds of a transport at all times.
    pub open spec fn wf(self) -> bool {
        &&& self.configured()
        &&& self.staged.len() <= self.capacity
        &&& self.moved <= self.cbw.data_transfer_len
        &&& match self.phase {
            Phase::Idle => {
                &&& self.cbw == CbwView::blank()
                &&& self.moved == 0
                &&& self.status is None
                &&& self.status_sent == 0
                &&& self.staged.len() < CBW_LEN
            },
            Phase::Stalled => {
                &&& self.cbw == CbwView::blank()
                &&& self.moved == 0
                &&& self.status is None
                &&& self.status_sent == 0
                &&& self.staged.len() == 0
            },
            Phase::Command => {
                &&& self.cbw.wf()
                &&& self.cbw.lun <= self.max_lun
                &&& self.moved == 0
                &&& self.status is None
                &&& self.status_sent == 0
                &&& self.staged.len() == 0
            },
            Phase::Data => {
                &&& self.cbw.wf()
                &&& self.cbw.lun <= self.max_lun
                &&& self.moved > 0
                &&& self.staged.len() <= self.moved
                &&& self.status_sent == 0
                &&& self.status is Some ==> self.cbw.direction == Direction::In
                    && self.staged.len() > 0
            },
            Phase::Status => {
                &&& self.cbw.wf()
                &&& self.cbw.lun <= self.max_lun
                &&& self.status is Some
                &&& self.staged.len() == 0
                &&& self.status_sent < CSW_LEN
            },
        }
    }

    /// A command is in flight and still open: the handler has work to do.
    pub open spec fn in_flight(self) -> bool {
        (self.phase == Phase::Command || self.phase == Phase::Data) && self.status is None
    }

    /// The host expects payload from the device.
    pub open spec fn to_host(self) -> bool {
        self.cbw.direction == Direction::In && self.cbw.data_transfer_len > 0
    }

    /// The host has payload for the device.
    pub open spec fn from_host(self) -> bool {
        self.cbw.direction == Direction::Out && self.cbw.data_transfer_len > 0
    }

    /// The payload bytes that the host still expects to move.
    pub open spec fn remaining(self) -> nat {
        (self.cbw.data_transfer_len - self.moved) as nat
    }

    /// The room left in the staging buffer.
    pub open spec fn room(self) -> nat {
        (self.capacity - self.staged.len()) as nat
    }

    /// The transport with no command in flight, in the given phase.
    pub open spec fn cleared(self, phase: Phase) -> BulkOnlyView {
        BulkOnlyView {
            phase,
            cbw: CbwView::blank(),
            moved: 0,
            status: None,
            staged: Seq::empty(),
            status_sent: 0,
            ..self
        }
    }

    /// An idle transport with the given settings and nothing in it.
    pub open spec fn idle(packet_size: u16, max_lun: u8, capacity: usize) -> BulkOnlyView {
        BulkOnlyView {
            phase: Phase::Idle,
            cbw: CbwView::blank(),
            moved: 0,
            status: None,
            staged: Seq::empty(),
            status_sent: 0,
            packet_size: packet_size as nat,
            max_lun,
            capacity: capacity as nat,
        }
    }

    /// The transport after a reset: idle, whatever it was doing.
    pub open spec fn reset(self) -> BulkOnlyView {
        self.cleared(Phase::Idle)
    }

    /// The transport after an endpoint failed: the command in flight is
    /// dropped without a status wrapper. A stall stays until a reset.
    pub open spec fn aborted(self) -> BulkOnlyView {
        if self.phase == Phase::Stalled {
            self
        } else {
            self.cleared(Phase::Idle)
        }
    }

    /// The transport after the command in flight was closed with a status.
    /// Payload on its way to the host is still sent before the status
    /// wrapper; payload from the host that nobody took is dropped. Without
    /// an open command nothing changes.
    pub open spec fn closed(self, status: CommandStatus) -> BulkOnlyView {
        if !self.in_flight() {
            self
        } else if self.cbw.direction == Direction::In && self.staged.len() > 0 {
            BulkOnlyView { status: Some(status), ..self }
        } else {
            BulkOnlyView {
                phase: Phase::Status,
                status: Some(status),
                staged: Seq::empty(),
                ..self
            }
        }
    }

    /// Whether the transport is ready for a packet of the host: it is idle,
    /// or the command in flight takes payload, the host has more of it, and
    /// a full packet fits the staging buffer.
    pub open spec fn wants_packet(self) -> bool {
        ||| self.phase == Phase::Idle
        ||| {
            &&& self.in_flight()
            &&& self.from_host()
            &&& self.remaining() > 0
            &&& self.room() >= self.packet_size
        }
    }

    /// What the transport makes of a packet from the host.
    ///
    /// While idle, packets are put together to a command wrapper. A full
    /// packet that leaves the wrapper short is a part of it. The packet that
    /// brings it to its 31 bytes completes it, and the wrapper is then taken
    /// or refused. A packet that ends the transfer before that, or goes
    /// beyond 31 bytes, breaks the framing.
    pub open spec fn receive_result(self, packet: Seq<u8>) -> Result<Received, BulkOnlyError> {
        match self.phase {
            Phase::Stalled => Ok(Received::Ignored),
            Phase::Idle => if self.staged.len() + packet.len() == CBW_LEN {
                if CommandBlockWrapper::accepts(self.staged + packet, self.max_lun) {
                    Ok(Received::Command)
                } else {
                    Ok(Received::Stall)
                }
            } else if self.staged.len() + packet.len() < CBW_LEN && packet.len()
                == self.packet_size {
                Ok(Received::Partial)
            } else {
                Ok(Received::Stall)
            },
            _ => if !self.in_flight() || !self.from_host() || packet.len() > self.remaining() {
                Err(BulkOnlyError::InvalidState)
            } else if packet.len() > self.room() {
                Err(BulkOnlyError::IoBufferOverflow)
            } else {
                Ok(Received::Data)
            },
        }
    }

    /// The transport after a packet from the host.
    ///
    /// While idle, a part of a command wrapper is kept, a wrapper that the
    /// device takes puts a command in flight, and anything else stalls the
    /// transport. While stalled, the packet is dropped. With a command in
    /// flight that takes payload, the packet is staged for the handler and
    /// counted as moved. A packet that is refused changes nothing.
    pub open spec fn received(self, packet: Seq<u8>) -> BulkOnlyView {
        match self.receive_result(packet) {
            Ok(Received::Partial) => BulkOnlyView { staged: self.staged + packet, ..self },
            Ok(Received::Command) => BulkOnlyView {
                phase: Phase::Command,
                cbw: CommandBlockWrapper::parsed(self.staged + packet),
                moved: 0,
                status: None,
                staged: Seq::empty(),
                ..self
            },
            Ok(Received::Stall) => self.cleared(Phase::Stalled),
            Ok(Received::Data) => if packet.len() == 0 {
                self
            } else {
                BulkOnlyView {
                    phase: Phase::Data,
                    moved: self.moved + packet.len(),
                    staged: self.staged + packet,
                    ..self
                }
            },
            _ => self,
        }
    }

    /// How many bytes a write of the handler stages: as many as it offers,
    /// as the host still expects and as the staging buffer has room for.
    pub open spec fn write_count(self, len: nat) -> nat {
        let n = if len <= self.remaining() { len } else { self.remaining() };
        if n <= self.room() { n } else { self.room() }
    }

    /// Whether a write of `len` bytes contradicts what the host declared:
    /// the host expects no payload from the device, or it has had all it
    /// asked for.
    pub open spec fn write_contradicts(self, len: nat) -> bool {
        len > 0 && (!self.to_host() || self.remaining() == 0)
    }

    /// What a write of the handler returns.
    pub open spec fn write_result(self, data: Seq<u8>) -> Result<
        nat,
        TransportError<BulkOnlyError>,
    > {
        if !self.in_flight() || self.write_contradicts(data.len()) {
            Err(TransportError::Error(BulkOnlyError::InvalidState))
        } else {
            Ok(self.write_count(data.len()))
        }
    }

    /// The transport after `count` bytes of `data` were staged for the host.
    pub open spec fn staged_for_host(self, data: Seq<u8>, count: nat) -> BulkOnlyView {
        if count == 0 {
            self
        } else {
            BulkOnlyView {
                phase: Phase::Data,
                moved: self.moved + count,
                staged: self.staged + data.subrange(0, count as int),
                ..self
            }
        }
    }

    /// The transport after a write of the handler. Without an open command
    /// nothing changes. A write that contradicts what the host declared
    /// closes the command with a phase error. Otherwise the first
    /// `write_count` bytes are staged and counted as moved.
    pub open spec fn written(self, data: Seq<u8>) -> BulkOnlyView {
        if !self.in_flight() {
            self
        } else if self.write_contradicts(data.len()) {
            self.closed(CommandStatus::PhaseError)
        } else {
            self.staged_for_host(data, self.write_count(data.len()))
        }
    }

    /// How many bytes of a payload are written when all of it must go in
    /// one write: all of it, or as much as the host still expects.
    pub open spec fn whole_count(self, len: nat) -> nat {
        if len <= self.remaining() {
            len
        } else {
            self.remaining()
        }
    }

    /// What a write of a whole payload returns.
    pub open spec fn write_all_result(self, data: Seq<u8>) -> Result<
        (),
        TransportError<BulkOnlyError>,
    > {
        if !self.in_flight() || (data.len() > 0 && !self.to_host()) {
            Err(TransportError::Error(BulkOnlyError::InvalidState))
        } else if self.whole_count(data.len()) > self.room() {
            Err(TransportError::Error(BulkOnlyError::IoBufferOverflow))
        } else {
            Ok(())
        }
    }

    /// The transport after a write of a whole payload. The payload is cut
    /// to what the host still expects, and staged whole or not at all. A
    /// payload for a host that expects none closes the command with a phase
    /// error.
    pub open spec fn written_all(self, data: Seq<u8>) -> BulkOnlyView {
        if !self.in_flight() {
            self
        } else if data.len() > 0 && !self.to_host() {
            self.closed(CommandStatus::PhaseError)
        } else if self.whole_count(data.len()) > self.room() {
            self
        } else {
            self.staged_for_host(data, self.whole_count(data.len()))
        }
    }

    /// Whether a read of up to `max` bytes contradicts what the host
    /// declared: the host has no payload for the device, or all of it was
    /// taken already.
    pub open spec fn read_contradicts(self, max: nat) -> bool {
        max > 0 && (!self.from_host() || (self.remaining() == 0 && self.staged.len() == 0))
    }

    /// How many bytes a read of the handler takes: as many as it asks for
    /// and as are staged.
    pub open spec fn read_count(self, max: nat) -> nat {
        if max <= self.staged.len() {
            max
        } else {
            self.staged.len()
        }
    }

    /// What a read of the handler returns: the first staged bytes.
    pub open spec fn read_result(self, max: nat) -> Result<
        Seq<u8>,
        TransportError<BulkOnlyError>,
    > {
        if !self.in_flight() || self.read_contradicts(max) {
            Err(TransportError::Error(BulkOnlyError::InvalidState))
        } else {
            Ok(self.staged.subrange(0, self.read_count(max) as int))
        }
    }

    /// The transport after a read of the handler. Without an open command
    /// nothing changes. A read that contradicts what the host declared
    /// closes the command with a phase error. Otherwise the bytes handed
    /// out leave the staging buffer.
    pub open spec fn read(self, max: nat) -> BulkOnlyView {
        if !self.in_flight() {
            self
        } else if self.read_contradicts(max) {
            self.closed(CommandStatus::PhaseError)
        } else {
            BulkOnlyView {
                staged: self.staged.subrange(
                    self.read_count(max) as int,
                    self.staged.len() as int,
                ),
                ..self
            }
        }
    }

    /// The status wrapper of the command in flight: it echoes the tag and
    /// holds, as residue, what the host expected minus what moved.
    pub open spec fn status_wrapper(self) -> CommandStatusWrapper {
        CommandStatusWrapper {
            tag: self.cbw.tag,
            residue: self.remaining() as u32,
            status: self.status->0,
        }
    }

    /// The number of staged bytes that go into the next packet to the host:
    /// a full packet, or what is left.
    pub open spec fn packet_len(self) -> nat {
        if self.staged.len() <= self.packet_size {
            self.staged.len()
        } else {
            self.packet_size
        }
    }

    /// Whether staged payload is on its way to the host.
    pub open spec fn sending(self) -> bool {
        self.phase == Phase::Data && self.cbw.direction == Direction::In && self.staged.len() > 0
    }

    /// The number of bytes of the status wrapper that go into the next
    /// packet to the host: a full packet, or what is left of the wrapper.
    pub open spec fn status_len(self) -> nat {
        if CSW_LEN - self.status_sent <= self.packet_size {
            (CSW_LEN - self.status_sent) as nat
        } else {
            self.packet_size
        }
    }

    /// The next packet for the host, if there is one: staged payload, at
    /// most one packet of it; after the payload, the status wrapper, which
    /// takes two packets where one cannot hold it.
    pub open spec fn in_packet(self) -> Option<Seq<u8>> {
        if self.sending() {
            Some(self.staged.subrange(0, self.packet_len() as int))
        } else if self.phase == Phase::Status {
            Some(
                self.status_wrapper().bytes().subrange(
                    self.status_sent as int,
                    (self.status_sent + self.status_len()) as int,
                ),
            )
        } else {
            None
        }
    }

    /// The transport after the packet of [`Self::in_packet`] was sent. The
    /// payload sent leaves the staging buffer; once none is left and the
    /// command is closed, the status wrapper is next. After the last byte
    /// of the status wrapper the transport is idle, however the command
    /// ended.
    pub open spec fn packet_sent(self) -> BulkOnlyView {
        if self.sending() {
            let rest = self.staged.subrange(self.packet_len() as int, self.staged.len() as int);
            BulkOnlyView {
                phase: if rest.len() == 0 && self.status is Some {
                    Phase::Status
                } else {
                    Phase::Data
                },
                staged: rest,
                ..self
            }
        } else if self.phase == Phase::Status {
            if self.status_sent + self.status_len() == CSW_LEN {
                self.cleared(Phase::Idle)
            } else {
                BulkOnlyView { status_sent: self.status_sent + self.status_len(), ..self }
            }
        } else {
            self
        }
    }
}

/// What the host and the bus do to a sound transport leaves it sound: a
/// packet received, a packet sent, a reset, the failure of an endpoint.
pub proof fn lemma_traffic_keeps_the_transport_sound(transport: BulkOnlyView, packet: Seq<u8>)
    requires
        transport.wf(),
    ensures
        transport.received(packet).wf(),
        transport.packet_sent().wf(),
        transport.reset().wf(),
        transport.aborted().wf(),
{
    if transport.receive_result(packet) == Ok::<Received, BulkOnlyError>(Received::Command) {
        let whole = transport.staged + packet;
        assert(CommandBlockWrapper::parsed(whole).block.len() == whole[14]);
    }
}

/// What the handler does to a sound transport leaves it sound: closing the
/// command, writing payload, reading payload.
pub proof fn lemma_handling_keeps_the_transport_sound(
    transport: BulkOnlyView,
    status: CommandStatus,
    data: Seq<u8>,
    max: nat,
)
    requires
        transport.wf(),
    ensures
        transport.closed(status).wf(),
        transport.written(data).wf(),
        transport.written_all(data).wf(),
        transport.read(max).wf(),
{
}

/// The Bulk-Only Transport state machine.
pub struct BulkOnly {
    phase: Phase,
    cbw: CommandBlockWrapper,
    moved: u32,
    status: Option<CommandStatus>,
    buf: Vec<u8>,
    status_sent: usize,
    packet_size: u16,
    max_lun: u8,
    capacity: usize,
}

impl Transport for BulkOnly {
    /// The interface protocol code of Bulk-Only Transport.
    const PROTO: u8 = 0x50;
}

impl View for BulkOnly {
    type V = BulkOnlyView;

    closed spec fn view(&self) -> BulkOnlyView {
        BulkOnlyView {
            phase: self.phase,
            cbw: self.cbw@,
            moved: self.moved as nat,
            status: self.status,
            staged: self.buf@,
            status_sent: self.status_sent as nat,
            packet_size: self.packet_size as nat,
            max_lun: self.max_lun,
            capacity: self.capacity as nat,
        }
    }
}

impl BulkOnly {
    /// Whether a transport can be made with these settings, and the error
    /// if it cannot.
    pub open spec fn new_result(packet_size: u16, max_lun: u8, capacity: usize) -> Result<
        (),
        BulkOnlyError,
    > {
        if max_lun > LUN_LIMIT {
            Err(BulkOnlyError::InvalidMaxLun)
        } else if !(packet_size == 8 || packet_size == 16 || packet_size == 32 || packet_size
            == 64) {
            Err(BulkOnlyError::InvalidPacketSize)
        } else if capacity < CBW_LEN || capacity < packet_size {
            Err(BulkOnlyError::BufferTooSmall)
        } else {
            Ok(())
        }
    }

    /// Makes an idle transport for endpoints with the given packet size, a
    /// device with logical units 0 to `max_lun`, and a staging buffer of
    /// `capacity` bytes.
    pub fn new(packet_size: u16, max_lun: u8, capacity: usize) -> (r: Result<
        BulkOnly,
        BulkOnlyError,
    >)
        ensures
            match r {
                Ok(t) => {
                    &&& Self::new_result(packet_size, max_lun, capacity) is Ok
                    &&& t@ == BulkOnlyView::idle(packet_size, max_lun, capacity)
                    &&& t@.wf()
                },
                Err(e) => Self::new_result(packet_size, max_lun, capacity) == Err::<
                    (),
                    BulkOnlyError,
                >(e),
            },
    {
        if max_lun > LUN_LIMIT {
            return Err(BulkOnlyError::InvalidMaxLun);
        }
        if !(packet_size == 8 || packet_size == 16 || packet_size == 32 || packet_size == 64) {
            return Err(BulkOnlyError::InvalidPacketSize);
        }
        if capacity < CBW_LEN || capacity < packet_size as usize {
            return Err(BulkOnlyError::BufferTooSmall);
        }
        Ok(
            BulkOnly {
                phase: Phase::Idle,
                cbw: CommandBlockWrapper::blank(),
                moved: 0,
                status: None,
                buf: Vec::new(),
                status_sent: 0,
                packet_size,
                max_lun,
                capacity,
            },
        )
    }

    /// The phase the transport is in.
    pub fn phase(&self) -> (r: Phase)
        ensures
            r == self@.phase,
    {
        self.phase
    }

    /// How the command in flight ended, once that is decided.
    pub fn status(&self) -> (r: Option<CommandStatus>)
        ensures
            r == self@.status,
    {
        self.status
    }

    /// The size of a full packet on the bulk endpoints.
    pub fn packet_size(&self) -> (r: u16)
        ensures
            r == self@.packet_size,
    {
        self.packet_size
    }

    /// The highest logical unit number the device has.
    pub fn max_lun(&self) -> (r: u8)
        ensures
            r == self@.max_lun,
    {
        self.max_lun
    }

    /// Whether both endpoints are to be stalled.
    pub fn is_stalled(&self) -> (r: bool)
        ensures
            r == (self@.phase == Phase::Stalled),
    {
        self.phase == Phase::Stalled
    }

    /// Whether a command is in flight and still open.
    pub fn has_command(&self) -> (r: bool)
        ensures
            r == self@.in_flight(),
    {
        (self.phase == Phase::Command || self.phase == Phase::Data) && self.status.is_none()
    }

    /// The logical unit that the command in flight is for.
    pub fn lun(&self) -> (r: u8)
        ensures
            r == self@.cbw.lun,
    {
        self.cbw.lun
    }

    /// The descriptor block of the command in flight; empty when there is
    /// none.
    pub fn block(&self) -> (r: &[u8])
        ensures
            r@ == self@.cbw.block,
    {
        self.cbw.block.as_slice()
    }

    /// The number of payload bytes that the host declared for the command
    /// in flight.
    pub fn data_transfer_len(&self) -> (r: u32)
        ensures
            r == self@.cbw.data_transfer_len,
    {
        self.cbw.data_transfer_len
    }

    /// Whether the transport is ready for a packet of the host.
    pub fn wants_packet(&self) -> (r: bool)
        requires
            self@.wf(),
        ensures
            r == self@.wants_packet(),
    {
        if self.phase == Phase::Idle {
            return true;
        }
        self.has_command() && self.cbw.direction == Direction::Out && self.cbw.data_transfer_len
            > self.moved && self.capacity - self.buf.len() >= self.packet_size as usize
    }

    /// Takes a packet that was read from the OUT endpoint.
    pub fn receive(&mut self, packet: &[u8]) -> (r: Result<Received, BulkOnlyError>)
        requires
            old(self)@.wf(),
        ensures
            final(self)@.wf(),
            r == old(self)@.receive_result(packet@),
            final(self)@ == old(self)@.received(packet@),
    {
        match self.phase {
            Phase::Stalled => Ok(Received::Ignored),
            Phase::Idle => {
                if packet.len() > CBW_LEN - self.buf.len() {
                    self.clear(Phase::Stalled);
                    return Ok(Received::Stall);
                }
                if self.buf.len() + packet.len() == CBW_LEN {
                    push_range(&mut self.buf, packet, 0, packet.len());
                    assert(packet@.subrange(0, packet@.len() as int) =~= packet@);
                    match CommandBlockWrapper::parse(self.buf.as_slice(), self.max_lun) {
                        Some(cbw) => {
                            self.cbw = cbw;
                            self.phase = Phase::Command;
                            self.buf.clear();
                            Ok(Received::Command)
                        },
                        None => {
                            self.clear(Phase::Stalled);
                            Ok(Received::Stall)
                        },
                    }
                } else if packet.len() == self.packet_size as usize {
                    push_range(&mut self.buf, packet, 0, packet.len());
                    assert(packet@.subrange(0, packet@.len() as int) =~= packet@);
                    Ok(Received::Partial)
                } else {
                    self.clear(Phase::Stalled);
                    Ok(Received::Stall)
                }
            },
            _ => {
                if !self.has_command() || self.cbw.direction != Direction::Out
                    || self.cbw.data_transfer_len == 0 || packet.len() > (
                self.cbw.data_transfer_len - self.moved) as usize {
                    return Err(BulkOnlyError::InvalidState);
                }
                if packet.len() > self.capacity - self.buf.len() {
                    return Err(BulkOnlyError::IoBufferOverflow);
                }
                if packet.len() > 0 {
                    push_range(&mut self.buf, packet, 0, packet.len());
                    assert(packet@.subrange(0, packet@.len() as int) =~= packet@);
                    self.moved = self.moved + packet.len() as u32;
                    self.phase = Phase::Data;
                }
                Ok(Received::Data)
            },
        }
    }

    /// Closes the command in flight as passed.
    pub fn pass(&mut self)
        requires
            old(self)@.wf(),
        ensures
            final(self)@.wf(),
            final(self)@ == old(self)@.closed(CommandStatus::Passed),
    {
        self.close(CommandStatus::Passed);
    }

    /// Closes the command in flight as failed.
    pub fn fail(&mut self)
        requires
            old(self)@.wf(),
        ensures
            final(self)@.wf(),
            final(self)@ == old(self)@.closed(CommandStatus::Failed),
    {
        self.close(CommandStatus::Failed);
    }

    fn close(&mut self, status: CommandStatus)
        requires
            old(self)@.wf(),
        ensures
            final(self)@.wf(),
            final(self)@ == old(self)@.closed(status),
    {
        if !self.has_command() {
            return ;
        }
        self.status = Some(status);
        if !(self.cbw.direction == Direction::In && self.buf.len() > 0) {
            self.phase = Phase::Status;
            self.buf.clear();
        }
    }

    /// Stages payload for the host and returns how much of it was taken.
    pub fn write_data(&mut self, data: &[u8]) -> (r: Result<usize, TransportError<BulkOnlyError>>)
        requires
            old(self)@.wf(),
        ensures
            final(self)@.wf(),
            final(self)@ == old(self)@.written(data@),
            match r {
                Ok(n) => old(self)@.write_result(data@) == Ok::<
                    nat,
                    TransportError<BulkOnlyError>,
                >(n as nat),
                Err(e) => old(self)@.write_result(data@) == Err::<
                    nat,
                    TransportError<BulkOnlyError>,
                >(e),
            },
    {
        if !self.has_command() {
            return Err(TransportError::Error(BulkOnlyError::InvalidState));
        }
        let remaining: usize = (self.cbw.data_transfer_len - self.moved) as usize;
        if data.len() > 0 && (self.cbw.direction != Direction::In || self.cbw.data_transfer_len
            == 0 || remaining == 0) {
            self.close(CommandStatus::PhaseError);
            return Err(TransportError::Error(BulkOnlyError::InvalidState));
        }
        let room: usize = self.capacity - self.buf.len();
        let wanted: usize = if data.len() <= remaining {
            data.len()
        } else {
            remaining
        };
        let count: usize = if wanted <= room {
            wanted
        } else {
            room
        };
        self.stage(data, count);
        Ok(count)
    }

    /// Stages a payload for the host, whole or not at all. A payload longer
    /// than what the host still expects is cut to that.
    pub fn try_write_data_all(&mut self, data: &[u8]) -> (r: Result<
        (),
        TransportError<BulkOnlyError>,
    >)
        requires
            old(self)@.wf(),
        ensures
            final(self)@.wf(),
            final(self)@ == old(self)@.written_all(data@),
            r == old(self)@.write_all_result(data@),
    {
        if !self.has_command() {
            return Err(TransportError::Error(BulkOnlyError::InvalidState));
        }
        if data.len() > 0 && (self.cbw.direction != Direction::In || self.cbw.data_transfer_len
            == 0) {
            self.close(CommandStatus::PhaseError);
            return Err(TransportError::Error(BulkOnlyError::InvalidState));
        }
        let remaining: usize = (self.cbw.data_transfer_len - self.moved) as usize;
        let count: usize = if data.len() <= remaining {
            data.len()
        } else {
            remaining
        };
        if count > self.capacity - self.buf.len() {
            return Err(TransportError::Error(BulkOnlyError::IoBufferOverflow));
        }
        self.stage(data, count);
        Ok(())
    }

    fn stage(&mut self, data: &[u8], count: usize)
        requires
            old(self)@.wf(),
            old(self)@.in_flight(),
            count <= data@.len(),
            count <= old(self)@.remaining(),
            count <= old(self)@.room(),
            count > 0 ==> old(self)@.to_host(),
        ensures
            final(self)@.wf(),
            final(self)@ == old(self)@.staged_for_host(data@, count as nat),
    {
        if count > 0 {
            push_range(&mut self.buf, data, 0, count);
            self.moved = self.moved + count as u32;
            self.phase = Phase::Data;
        }
    }

    /// Hands out payload of the host that is staged, at most `max` bytes.
    pub fn read_data(&mut self, max: usize) -> (r: Result<Vec<u8>, TransportError<BulkOnlyError>>)
        requires
            old(self)@.wf(),
        ensures
            final(self)@.wf(),
            final(self)@ == old(self)@.read(max as nat),
            match r {
                Ok(bytes) => old(self)@.read_result(max as nat) == Ok::<
                    Seq<u8>,
                    TransportError<BulkOnlyError>,
                >(bytes@),
                Err(e) => old(self)@.read_result(max as nat) == Err::<
                    Seq<u8>,
                    TransportError<BulkOnlyError>,
                >(e),
            },
    {
        if !self.has_command() {
            return Err(TransportError::Error(BulkOnlyError::InvalidState));
        }
        if max > 0 && (self.cbw.direction != Direction::Out || self.cbw.data_transfer_len == 0 || (
        self.cbw.data_transfer_len == self.moved && self.buf.len() == 0)) {
            self.close(CommandStatus::PhaseError);
            return Err(TransportError::Error(BulkOnlyError::InvalidState));
        }
        let count: usize = if max <= self.buf.len() {
            max
        } else {
            self.buf.len()
        };
        let rest = self.buf.split_off(count);
        let mut taken = rest;
        core::mem::swap(&mut self.buf, &mut taken);
        Ok(taken)
    }

    /// The next packet to write to the IN endpoint, if there is one.
    pub fn in_packet(&self) -> (r: Option<Vec<u8>>)
        requires
            self@.wf(),
        ensures
            match r {
                Some(bytes) => self@.in_packet() == Some(bytes@),
                None => self@.in_packet() is None,
            },
    {
        if self.phase == Phase::Data && self.cbw.direction == Direction::In && self.buf.len() > 0 {
            let n: usize = if self.buf.len() <= self.packet_size as usize {
                self.buf.len()
            } else {
                self.packet_size as usize
            };
            let mut out: Vec<u8> = Vec::new();
            push_range(&mut out, self.buf.as_slice(), 0, n);
            Some(out)
        } else if self.phase == Phase::Status {
            let status = match self.status {
                Some(s) => s,
                None => CommandStatus::PhaseError,
            };
            let csw = CommandStatusWrapper {
                tag: self.cbw.tag,
                residue: self.cbw.data_transfer_len - self.moved,
                status,
            };
            let bytes = csw.to_bytes();
            let left: usize = CSW_LEN - self.status_sent;
            let n: usize = if left <= self.packet_size as usize {
                left
            } else {
                self.packet_size as usize
            };
            let mut out: Vec<u8> = Vec::new();
            push_range(&mut out, bytes.as_slice(), self.status_sent, self.status_sent + n);
            Some(out)
        } else {
            None
        }
    }

    /// Records that the packet of [`Self::in_packet`] was written to the
    /// endpoint.
    pub fn in_packet_sent(&mut self)
        requires
            old(self)@.wf(),
        ensures
            final(self)@.wf(),
            final(self)@ == old(self)@.packet_sent(),
    {
        if self.phase == Phase::Data && self.cbw.direction == Direction::In && self.buf.len() > 0 {
            let n: usize = if self.buf.len() <= self.packet_size as usize {
                self.buf.len()
            } else {
                self.packet_size as usize
            };
            let mut rest = self.buf.split_off(n);
            core::mem::swap(&mut self.buf, &mut rest);
            if self.buf.len() == 0 && self.status.is_some() {
                self.phase = Phase::Status;
            }
        } else if self.phase == Phase::Status {
            let left: usize = CSW_LEN - self.status_sent;
            if left <= self.packet_size as usize {
                self.clear(Phase::Idle);
            } else {
                self.status_sent = self.status_sent + self.packet_size as usize;
            }
        }
    }

    /// Returns to idle after a Mass-Storage Reset or a bus reset: the
    /// command in flight is dropped and a stall is lifted.
    pub fn reset(&mut self)
        requires
            old(self)@.configured(),
        ensures
            final(self)@.wf(),
            final(self)@ == old(self)@.reset(),
    {
        self.clear(Phase::Idle);
    }

    /// Drops the command in flight after an endpoint failed, and wraps the
    /// failure for the caller. No status wrapper is sent for the command.
    pub fn abort(&mut self, failure: EndpointError) -> (r: TransportError<BulkOnlyError>)
        requires
            old(self)@.wf(),
        ensures
            final(self)@.wf(),
            final(self)@ == old(self)@.aborted(),
            r == TransportError::<BulkOnlyError>::Usb(failure),
    {
        if self.phase != Phase::Stalled {
            self.clear(Phase::Idle);
        }
        TransportError::Usb(failure)
    }

    fn clear(&mut self, phase: Phase)
        requires
            old(self)@.configured(),
            phase == Phase::Idle || phase == Phase::Stalled,
        ensures
            final(self)@.wf(),
            final(self)@ == old(self)@.cleared(phase),
    {
        self.phase = phase;
        self.cbw = CommandBlockWrapper::blank();
        self.moved = 0;
        self.status = None;
        self.status_sent = 0;
        self.buf.clear();
    }
}

} // verus!
