//! The device as one value: the backing store, the state that outlives a
//! poll, and the transport.
//!
//! The caller owns the endpoints and runs the loop. It hands in each packet
//! that it read, lets the device do the work of one poll, writes out the
//! packet that the device has ready, and reports resets and endpoint
//! failures.

use crate::config::{
    MAX_LUN,
    STORAGE_LEN,
    TRANSPORT_BUF_SIZE,
    USB_PACKET_SIZE,
};
use crate::processor::{
    lemma_process_is_sound,
    process_command,
    reject,
    rejected,
    spec_process,
    Outcome,
};
use crate::scsi::command::{decode, spec_cdb_len, spec_decode};
use crate::scsi::enums::additional_sense_code::AdditionalSenseCode;
use crate::state::{State, ILLEGAL_REQUEST};
use crate::usbd_storage::transport::bbb::{
    lemma_traffic_keeps_the_transport_sound,
    BulkOnly,
    BulkOnlyError,
    BulkOnlyView,
    CommandBlockWrapper,
    Phase,
    Received,
};
use crate::usbd_storage::transport::{CommandStatus, TransportError};
use embassy_usb::driver::EndpointError;
use vstd::prelude::*;

verus! {

/// The device as a mathematical value.
pub struct DeviceView {
    /// The transfer state and the sense state.
    pub state: State,
    /// The backing store.
    pub storage: Seq<u8>,
    /// The transport.
    pub transport: BulkOnlyView,
}

impl DeviceView {
    /// What holds of a device at all times: the backing store has its
    /// length, the transport is sound, and the transfer state is clear
    /// unless a command is in flight and open.
    pub open spec fn wf(self) -> bool {
        &&& self.storage.len() == STORAGE_LEN
        &&& self.transport.wf()
        &&& !self.transport.in_flight() ==> self.state.storage_offset == 0
    }

    /// The device as it is made: a backing store of zeros, nothing to
    /// report, nothing under way, and an idle transport with the settings
    /// of the configuration.
    pub open spec fn fresh() -> DeviceView {
        DeviceView {
            state: State::cleared(),
            storage: Seq::new(STORAGE_LEN as nat, |i: int| 0u8),
            transport: BulkOnlyView::idle(USB_PACKET_SIZE, MAX_LUN, TRANSPORT_BUF_SIZE),
        }
    }

    /// The device after a packet from the host: the transport takes it, and
    /// nothing else changes.
    pub open spec fn received(self, packet: Seq<u8>) -> DeviceView {
        DeviceView { transport: self.transport.received(packet), ..self }
    }

    /// What one poll does. With no open command in flight, nothing. With
    /// one, its descriptor block is decoded and the processor does one poll
    /// of work for it; a block that is malformed is rejected with the sense
    /// data of an invalid field.
    pub open spec fn polled(self) -> Outcome {
        if !self.transport.in_flight() {
            Outcome {
                state: self.state,
                storage: self.storage,
                transport: self.transport,
                result: Ok(()),
            }
        } else {
            match spec_decode(self.transport.cbw.block, self.transport.cbw.lun) {
                Ok(command) => spec_process(
                    self.state,
                    self.storage,
                    command.kind,
                    self.transport,
                ),
                Err(_) => rejected(
                    self.state,
                    self.storage,
                    self.transport,
                    AdditionalSenseCode::InvalidFieldInCdb,
                ),
            }
        }
    }

    /// The device that a poll leaves behind.
    pub open spec fn after_poll(self) -> DeviceView {
        DeviceView {
            state: self.polled().state,
            storage: self.polled().storage,
            transport: self.polled().transport,
        }
    }

    /// The device after the packet it had ready was sent.
    pub open spec fn packet_sent(self) -> DeviceView {
        DeviceView { transport: self.transport.packet_sent(), ..self }
    }

    /// The device after a reset: no command in flight, no sense data, no
    /// transfer under way. The backing store stays.
    pub open spec fn reset(self) -> DeviceView {
        DeviceView {
            state: State::cleared(),
            storage: self.storage,
            transport: self.transport.reset(),
        }
    }

    /// The device after an endpoint failed: the command in flight is dropped
    /// and its transfer state with it. The sense data stays.
    pub open spec fn aborted(self) -> DeviceView {
        DeviceView {
            state: self.state.transfer_done(),
            storage: self.storage,
            transport: self.transport.aborted(),
        }
    }
}

/// The device.
pub struct Device {
    state: State,
    storage: Vec<u8>,
    transport: BulkOnly,
}

impl View for Device {
    type V = DeviceView;

    closed spec fn view(&self) -> DeviceView {
        DeviceView { state: self.state, storage: self.storage@, transport: self.transport@ }
    }
}

impl Device {
    /// A device with a backing store of zeros, nothing to report and an
    /// idle transport.
    pub fn new() -> (r: Device)
        ensures
            r@ == DeviceView::fresh(),
            r@.wf(),
    {
        let transport = BulkOnly::new(USB_PACKET_SIZE, MAX_LUN, TRANSPORT_BUF_SIZE);
        let storage: Vec<u8> = vec![0u8; STORAGE_LEN];
        assert(storage@ =~= Seq::new(STORAGE_LEN as nat, |i: int| 0u8));
        Device { state: State::new(), storage, transport: transport.unwrap() }
    }

    /// The transfer state and the sense state.
    pub fn state(&self) -> (r: State)
        ensures
            r == self@.state,
    {
        self.state
    }

    /// The backing store.
    pub fn storage(&self) -> (r: &[u8])
        ensures
            r@ == self@.storage,
    {
        self.storage.as_slice()
    }

    /// The transport.
    pub fn transport(&self) -> (r: &BulkOnly)
        ensures
            r@ == self@.transport,
    {
        &self.transport
    }

    /// Whether the device is ready for a packet of the host.
    pub fn wants_packet(&self) -> (r: bool)
        requires
            self@.wf(),
        ensures
            r == self@.transport.wants_packet(),
    {
        self.transport.wants_packet()
    }

    /// Whether both endpoints are to be stalled.
    pub fn is_stalled(&self) -> (r: bool)
        ensures
            r == (self@.transport.phase == Phase::Stalled),
    {
        self.transport.is_stalled()
    }

    /// Takes a packet that was read from the OUT endpoint.
    pub fn receive(&mut self, packet: &[u8]) -> (r: Result<Received, BulkOnlyError>)
        requires
            old(self)@.wf(),
        ensures
            final(self)@.wf(),
            final(self)@ == old(self)@.received(packet@),
            r == old(self)@.transport.receive_result(packet@),
    {
        self.transport.receive(packet)
    }

    /// Does the work of one poll.
    pub fn poll(&mut self) -> (r: Result<(), TransportError<BulkOnlyError>>)
        requires
            old(self)@.wf(),
        ensures
            final(self)@.wf(),
            final(self)@ == old(self)@.after_poll(),
            r == old(self)@.polled().result,
    {
        if !self.transport.has_command() {
            return Ok(());
        }
        match decode(self.transport.block(), self.transport.lun()) {
            Ok(command) => process_command(
                &mut self.state,
                &mut self.storage,
                command.kind,
                &mut self.transport,
            ),
            Err(_) => {
                reject(
                    &mut self.state,
                    &mut self.transport,
                    AdditionalSenseCode::InvalidFieldInCdb,
                );
                Ok(())
            },
        }
    }

    /// The next packet to write to the IN endpoint, if there is one.
    pub fn in_packet(&self) -> (r: Option<Vec<u8>>)
        requires
            self@.wf(),
        ensures
            match r {
                Some(bytes) => self@.transport.in_packet() == Some(bytes@),
                None => self@.transport.in_packet() is None,
            },
    {
        self.transport.in_packet()
    }

    /// Records that the packet of [`Self::in_packet`] was written to the
    /// endpoint.
    pub fn in_packet_sent(&mut self)
        requires
            old(self)@.wf(),
        ensures
            final(self)@.wf(),
            final(self)@ == old(self)@.packet_sent(),
    {
        self.transport.in_packet_sent();
    }

    /// Handles a Mass-Storage Reset or a bus reset.
    pub fn reset(&mut self)
        requires
            old(self)@.wf(),
        ensures
            final(self)@.wf(),
            final(self)@ == old(self)@.reset(),
    {
        self.state.reset();
        self.transport.reset();
    }

    /// Handles the failure of an endpoint: the command in flight is dropped,
    /// and the failure comes back wrapped for the caller to report.
    pub fn endpoint_failed(&mut self, failure: EndpointError) -> (r: TransportError<BulkOnlyError>)
        requires
            old(self)@.wf(),
        ensures
            final(self)@.wf(),
            final(self)@ == old(self)@.aborted(),
            r == TransportError::<BulkOnlyError>::Usb(failure),
    {
        self.state.storage_offset = 0;
        self.transport.abort(failure)
    }
}

/// A poll leaves a sound device sound.
pub proof fn lemma_poll_keeps_the_device_sound(device: DeviceView)
    requires
        device.wf(),
    ensures
        device.after_poll().wf(),
{
    if device.transport.in_flight() {
        match spec_decode(device.transport.cbw.block, device.transport.cbw.lun) {
            Ok(command) => lemma_process_is_sound(
                device.state,
                device.storage,
                command.kind,
                device.transport,
            ),
            Err(_) => {},
        }
    }
}

/// Whatever happens to a sound device leaves it sound: a packet from the
/// host, a poll, a packet sent, a reset, the failure of an endpoint. So on
/// every path the transfer state is clear when no command is open, and the
/// backing store keeps its length.
pub proof fn lemma_every_step_keeps_the_device_sound(device: DeviceView, packet: Seq<u8>)
    requires
        device.wf(),
    ensures
        device.received(packet).wf(),
        device.after_poll().wf(),
        device.packet_sent().wf(),
        device.reset().wf(),
        device.aborted().wf(),
{
    lemma_traffic_keeps_the_transport_sound(device.transport, packet);
    lemma_poll_keeps_the_device_sound(device);
}

/// A descriptor block with an operation code outside the supported set is
/// no decoding error: the poll rejects the command in the normal way, with
/// a failed status and the sense data of an invalid operation code.
pub proof fn lemma_poll_rejects_unknown(device: DeviceView)
    requires
        device.wf(),
        device.transport.in_flight(),
        spec_cdb_len(device.transport.cbw.block[0]) is None,
    ensures
        device.polled().result is Ok,
        device.polled().storage == device.storage,
        device.polled().transport.status == Some(CommandStatus::Failed),
        device.polled().state.sense() == (ILLEGAL_REQUEST, 0x20u8, 0x00u8),
        device.after_poll().wf(),
{
}

/// A descriptor block that is shorter than the commands of its operation
/// code are is rejected in the same way, with the sense data of an invalid
/// field in the descriptor block.
pub proof fn lemma_poll_rejects_malformed(device: DeviceView)
    requires
        device.wf(),
        device.transport.in_flight(),
        spec_cdb_len(device.transport.cbw.block[0]) matches Some(len)
            && device.transport.cbw.block.len() < len,
    ensures
        device.polled().result is Ok,
        device.polled().storage == device.storage,
        device.polled().transport.status == Some(CommandStatus::Failed),
        device.polled().state.sense() == (ILLEGAL_REQUEST, 0x24u8, 0x00u8),
        device.after_poll().wf(),
{
}

/// No command leaves the transport stuck: once a command is closed and its
/// staged payload is gone, the status wrapper is what the host gets next,
/// in one packet or in two, and when its last byte is sent the transport
/// is idle, however the command ended. The wrapper echoes the tag of the
/// command and holds, as residue, what the host expected minus what moved.
pub proof fn lemma_status_then_idle(device: DeviceView)
    requires
        device.wf(),
        device.transport.phase == Phase::Status,
        device.transport.status_sent == 0,
    ensures
        ({
            let wrapper = device.transport.status_wrapper();
            let first = device.transport.in_packet()->0;
            let next = device.packet_sent();
            &&& wrapper.tag == device.transport.cbw.tag
            &&& wrapper.residue == device.transport.cbw.data_transfer_len
                - device.transport.moved
            &&& wrapper.status == device.transport.status->0
            &&& next.wf()
            &&& device.transport.packet_size >= 16 ==> first == wrapper.bytes()
                && next.transport.phase == Phase::Idle
            &&& device.transport.packet_size == 8 ==> first + next.transport.in_packet()->0
                == wrapper.bytes() && next.packet_sent().transport.phase == Phase::Idle
                && next.packet_sent().wf()
        }),
{
    let wrapper = device.transport.status_wrapper();
    let first = device.transport.in_packet()->0;
    let next = device.packet_sent();
    if device.transport.packet_size >= 16 {
        assert(first =~= wrapper.bytes());
    } else {
        assert(next.transport.status_wrapper() == wrapper);
        assert(first + next.transport.in_packet()->0 =~= wrapper.bytes());
    }
}

/// A packet that breaks the framing stalls the idle transport; from then
/// on every packet is dropped, a poll does nothing, and only a reset
/// brings the transport back to idle.
pub proof fn lemma_stall_until_reset(device: DeviceView, bad: Seq<u8>, later: Seq<u8>)
    requires
        device.wf(),
        device.transport.phase == Phase::Idle,
        device.transport.receive_result(bad) == Ok::<Received, BulkOnlyError>(Received::Stall),
    ensures
        device.received(bad).transport.phase == Phase::Stalled,
        device.received(bad).received(later) == device.received(bad),
        device.received(bad).after_poll() == device.received(bad),
        device.received(bad).aborted().transport.phase == Phase::Stalled,
        device.received(bad).reset().transport.phase == Phase::Idle,
        device.received(bad).reset().wf(),
{
}

/// A command wrapper may come in one packet or, where a packet is smaller
/// than the wrapper, in several full packets and a last one: either way the
/// same command is in flight afterwards.
pub proof fn lemma_wrapper_in_parts(device: DeviceView, wrapper: Seq<u8>)
    requires
        device.wf(),
        device.transport.phase == Phase::Idle,
        device.transport.staged.len() == 0,
        CommandBlockWrapper::accepts(wrapper, device.transport.max_lun),
    ensures
        ({
            let size = device.transport.packet_size as int;
            let whole = device.received(wrapper);
            &&& whole.transport.phase == Phase::Command
            &&& whole.transport.cbw == CommandBlockWrapper::parsed(wrapper)
            &&& whole.wf()
            &&& size == 16 ==> device.received(wrapper.subrange(0, 16)).received(
                wrapper.subrange(16, 31),
            ) == whole
            &&& size == 8 ==> device.received(wrapper.subrange(0, 8)).received(
                wrapper.subrange(8, 16),
            ).received(wrapper.subrange(16, 24)).received(wrapper.subrange(24, 31)) == whole
        }),
{
    let t = device.transport;
    assert(t.staged + wrapper =~= wrapper);
    if t.packet_size == 16 {
        let a = t.received(wrapper.subrange(0, 16));
        assert(a.staged =~= wrapper.subrange(0, 16));
        assert(a.staged + wrapper.subrange(16, 31) =~= wrapper);
    }
    if t.packet_size == 8 {
        let a = t.received(wrapper.subrange(0, 8));
        assert(a.staged =~= wrapper.subrange(0, 8));
        let b = a.received(wrapper.subrange(8, 16));
        assert(b.staged =~= wrapper.subrange(0, 16));
        let c = b.received(wrapper.subrange(16, 24));
        assert(c.staged =~= wrapper.subrange(0, 24));
        assert(c.staged + wrapper.subrange(24, 31) =~= wrapper);
    }
}

} // verus!
