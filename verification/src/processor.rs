//! The command processor: what the device does for each command, one poll
//! at a time.
//!
//! A command with a fixed answer stages the answer and passes. A read or a
//! write moves at most one packet per poll and stays open until all of its
//! blocks have moved; how far it has come is kept in the transfer state.
//! Whatever is rejected closes the command as failed and leaves sense data
//! behind.

use crate::config::{BLOCKS, BLOCK_SIZE, STORAGE_LEN};
use crate::responses::{
    inquiry,
    mode_sense10,
    mode_sense6,
    read_capacity10,
    read_capacity16,
    read_format_capacities,
    request_sense,
    spec_inquiry,
    spec_mode_sense10,
    spec_mode_sense6,
    spec_read_capacity10,
    spec_read_capacity16,
    spec_read_format_capacities,
    spec_request_sense,
};
use crate::scsi::command::ScsiCommand;
use crate::scsi::enums::additional_sense_code::AdditionalSenseCode;
use crate::state::{State, ILLEGAL_REQUEST};
use crate::usbd_storage::transport::bbb::{BulkOnly, BulkOnlyError, BulkOnlyView};
use crate::usbd_storage::transport::{CommandStatus, TransportError};
use vstd::prelude::*;

verus! {

/// What one poll of the processor leaves behind.
pub struct Outcome {
    /// The transfer state and the sense state.
    pub state: State,
    /// The backing store.
    pub storage: Seq<u8>,
    /// The transport.
    pub transport: BulkOnlyView,
    /// What the processor returns: a transport error, if there was one.
    pub result: Result<(), TransportError<BulkOnlyError>>,
}

/// Whether `len` blocks from block `lba` on lie inside the backing store.
pub open spec fn in_range(lba: u32, len: u32) -> bool {
    lba + len <= BLOCKS
}

/// The length in bytes of `len` blocks.
pub open spec fn byte_len(len: u32) -> nat {
    (len * BLOCK_SIZE) as nat
}

/// The index in the backing store of the first byte of block `lba`.
pub open spec fn byte_start(lba: u32) -> nat {
    (BLOCK_SIZE * lba) as nat
}

/// The most that one poll moves when `left` bytes are still to move: a full
/// packet, or what is left.
pub open spec fn chunk_len(transport: BulkOnlyView, left: nat) -> nat {
    if left <= transport.packet_size {
        left
    } else {
        transport.packet_size
    }
}

/// The backing store with `bytes` written from index `at` on.
pub open spec fn stored(storage: Seq<u8>, at: nat, bytes: Seq<u8>) -> Seq<u8> {
    storage.subrange(0, at as int) + bytes + storage.subrange(
        (at + bytes.len()) as int,
        storage.len() as int,
    )
}

/// The transfer state after a poll: cleared once the command is closed.
pub open spec fn settled(state: State, transport: BulkOnlyView) -> State {
    if transport.in_flight() {
        state
    } else {
        state.transfer_done()
    }
}

/// A command that passes without payload.
pub open spec fn passed(state: State, storage: Seq<u8>, transport: BulkOnlyView) -> Outcome {
    Outcome {
        state: state.transfer_done(),
        storage,
        transport: transport.closed(CommandStatus::Passed),
        result: Ok(()),
    }
}

/// A command that is rejected: it fails, the sense data says why, and the
/// backing store is as it was.
pub open spec fn rejected(
    state: State,
    storage: Seq<u8>,
    transport: BulkOnlyView,
    code: AdditionalSenseCode,
) -> Outcome {
    Outcome {
        state: state.with_sense(ILLEGAL_REQUEST, code).transfer_done(),
        storage,
        transport: transport.closed(CommandStatus::Failed),
        result: Ok(()),
    }
}

/// A command with a fixed answer: the answer is staged in one write, cut
/// to what the host expects, and the command passes. If the write fails,
/// the failure is returned and the command is left as the transport left
/// it.
pub open spec fn answered(
    state: State,
    storage: Seq<u8>,
    transport: BulkOnlyView,
    payload: Seq<u8>,
) -> Outcome {
    let after = transport.written_all(payload);
    match transport.write_all_result(payload) {
        Ok(_) => passed(state, storage, after),
        Err(e) => Outcome {
            state: settled(state, after),
            storage,
            transport: after,
            result: Err(e),
        },
    }
}

/// A request for the sense data: the answer holds the sense data, and once
/// it is staged the sense data is cleared.
pub open spec fn sense_reported(
    state: State,
    storage: Seq<u8>,
    transport: BulkOnlyView,
) -> Outcome {
    let out = answered(state, storage, transport, spec_request_sense(state.sense()));
    if out.result is Ok {
        Outcome { state: State::cleared(), ..out }
    } else {
        out
    }
}

/// The state and the transport after `count` more bytes of a transfer of
/// `total` bytes have moved: the command passes when all have moved, and
/// stays open otherwise.
pub open spec fn advanced(
    state: State,
    storage: Seq<u8>,
    transport: BulkOnlyView,
    count: nat,
    total: nat,
) -> Outcome {
    if state.storage_offset + count == total {
        passed(state, storage, transport)
    } else {
        Outcome {
            state: State { storage_offset: (state.storage_offset + count) as usize, ..state },
            storage,
            transport,
            result: Ok(()),
        }
    }
}

/// One poll of a read. Blocks outside the backing store are rejected. A
/// read that has moved all its bytes passes. Otherwise the next bytes of
/// the range, one packet at most, are written to the transport, and the
/// transfer advances by what the transport took.
pub open spec fn read_polled(
    state: State,
    storage: Seq<u8>,
    transport: BulkOnlyView,
    lba: u32,
    len: u32,
) -> Outcome {
    if !in_range(lba, len) {
        rejected(state, storage, transport, AdditionalSenseCode::LogicalBlockAddressOutOfRange)
    } else if state.storage_offset >= byte_len(len) {
        passed(state, storage, transport)
    } else {
        let start = byte_start(lba) + state.storage_offset;
        let n = chunk_len(transport, (byte_len(len) - state.storage_offset) as nat);
        let data = storage.subrange(start as int, start + n);
        let after = transport.written(data);
        match transport.write_result(data) {
            Ok(count) => advanced(state, storage, after, count, byte_len(len)),
            Err(e) => Outcome {
                state: settled(state, after),
                storage,
                transport: after,
                result: Err(e),
            },
        }
    }
}

/// One poll of a write. Blocks outside the backing store are rejected, and
/// the backing store is not touched. A write that has moved all its bytes
/// passes. Otherwise the staged bytes of the host, one packet at most, go
/// to the next place in the range, and the transfer advances by their
/// number.
pub open spec fn write_polled(
    state: State,
    storage: Seq<u8>,
    transport: BulkOnlyView,
    lba: u32,
    len: u32,
) -> Outcome {
    if !in_range(lba, len) {
        rejected(state, storage, transport, AdditionalSenseCode::LogicalBlockAddressOutOfRange)
    } else if state.storage_offset >= byte_len(len) {
        passed(state, storage, transport)
    } else {
        let start = (byte_start(lba) + state.storage_offset) as nat;
        let n = chunk_len(transport, (byte_len(len) - state.storage_offset) as nat);
        let after = transport.read(n);
        match transport.read_result(n) {
            Ok(bytes) => advanced(
                state,
                stored(storage, start, bytes),
                after,
                bytes.len(),
                byte_len(len),
            ),
            Err(e) => Outcome {
                state: settled(state, after),
                storage,
                transport: after,
                result: Err(e),
            },
        }
    }
}

/// One poll of the processor for the command in flight.
pub open spec fn spec_process(
    state: State,
    storage: Seq<u8>,
    kind: ScsiCommand,
    transport: BulkOnlyView,
) -> Outcome {
    match kind {
        ScsiCommand::TestUnitReady => passed(state, storage, transport),
        ScsiCommand::Inquiry => answered(state, storage, transport, spec_inquiry()),
        ScsiCommand::RequestSense => sense_reported(state, storage, transport),
        ScsiCommand::ReadCapacity10 => answered(state, storage, transport, spec_read_capacity10()),
        ScsiCommand::ReadCapacity16 => answered(state, storage, transport, spec_read_capacity16()),
        ScsiCommand::ReadFormatCapacities => answered(
            state,
            storage,
            transport,
            spec_read_format_capacities(),
        ),
        ScsiCommand::Read { lba, len } => read_polled(state, storage, transport, lba, len),
        ScsiCommand::Write { lba, len } => write_polled(state, storage, transport, lba, len),
        ScsiCommand::ModeSense6 => answered(state, storage, transport, spec_mode_sense6()),
        ScsiCommand::ModeSense10 => answered(state, storage, transport, spec_mode_sense10()),
        ScsiCommand::Unknown(_) => rejected(
            state,
            storage,
            transport,
            AdditionalSenseCode::InvalidCommandOperationCode,
        ),
    }
}

/// Closes the command as failed and records why.
pub fn reject(state: &mut State, transport: &mut BulkOnly, code: AdditionalSenseCode)
    requires
        old(transport)@.wf(),
        old(transport)@.in_flight(),
    ensures
        final(transport)@.wf(),
        !final(transport)@.in_flight(),
        final(transport)@ == old(transport)@.closed(CommandStatus::Failed),
        *final(state) == old(state).with_sense(ILLEGAL_REQUEST, code).transfer_done(),
{
    state.set_sense(ILLEGAL_REQUEST, code);
    state.storage_offset = 0;
    transport.fail();
}

fn pass(state: &mut State, transport: &mut BulkOnly)
    requires
        old(transport)@.wf(),
        old(transport)@.in_flight(),
    ensures
        final(transport)@.wf(),
        !final(transport)@.in_flight(),
        final(transport)@ == old(transport)@.closed(CommandStatus::Passed),
        *final(state) == old(state).transfer_done(),
{
    state.storage_offset = 0;
    transport.pass();
}

fn answer(state: &mut State, transport: &mut BulkOnly, payload: &[u8]) -> (r: Result<
    (),
    TransportError<BulkOnlyError>,
>)
    requires
        old(transport)@.wf(),
        old(transport)@.in_flight(),
    ensures
        final(transport)@.wf(),
        !final(transport)@.in_flight() ==> final(state).storage_offset == 0,
        r is Ok ==> !final(transport)@.in_flight(),
        ({
            let out = answered(*old(state), Seq::<u8>::empty(), old(transport)@, payload@);
            &&& *final(state) == out.state
            &&& final(transport)@ == out.transport
            &&& r == out.result
        }),
{
    match transport.try_write_data_all(payload) {
        Ok(_) => {
            pass(state, transport);
            Ok(())
        },
        Err(e) => {
            if !transport.has_command() {
                state.storage_offset = 0;
            }
            Err(e)
        },
    }
}

fn advance(state: &mut State, transport: &mut BulkOnly, count: usize, total: usize)
    requires
        old(transport)@.wf(),
        old(transport)@.in_flight(),
        old(state).storage_offset + count <= total,
    ensures
        final(transport)@.wf(),
        !final(transport)@.in_flight() ==> final(state).storage_offset == 0,
        ({
            let out = advanced(
                *old(state),
                Seq::<u8>::empty(),
                old(transport)@,
                count as nat,
                total as nat,
            );
            &&& *final(state) == out.state
            &&& final(transport)@ == out.transport
        }),
{
    if state.storage_offset + count == total {
        pass(state, transport);
    } else {
        state.storage_offset = state.storage_offset + count;
    }
}

/// Writes `bytes` into the backing store from index `at` on.
fn store(storage: &mut Vec<u8>, at: usize, bytes: &[u8])
    requires
        at + bytes@.len() <= old(storage)@.len(),
    ensures
        final(storage)@ == stored(old(storage)@, at as nat, bytes@),
        final(storage)@.len() == old(storage)@.len(),
{
    let end: usize = storage.len();
    let mut i: usize = 0;
    while i < bytes.len()
        invariant
            i <= bytes@.len(),
            at + bytes@.len() <= storage@.len(),
            storage@.len() == end,
            storage@.len() == old(storage)@.len(),
            storage@ == stored(old(storage)@, at as nat, bytes@.subrange(0, i as int)),
        decreases bytes@.len() - i,
    {
        storage.set(at + i, bytes[i]);
        i = i + 1;
        assert(storage@ =~= stored(old(storage)@, at as nat, bytes@.subrange(0, i as int)));
    }
    assert(bytes@.subrange(0, i as int) =~= bytes@);
}

/// Does the work of one poll for the command in flight.
///
/// The transfer state, the backing store and the transport change as
/// [`spec_process`] says, and the result is the one it names. When the
/// command is closed afterwards, the transfer state is clear.
pub fn process_command(
    state: &mut State,
    storage: &mut Vec<u8>,
    kind: ScsiCommand,
    transport: &mut BulkOnly,
) -> (r: Result<(), TransportError<BulkOnlyError>>)
    requires
        old(storage)@.len() == STORAGE_LEN,
        old(transport)@.wf(),
        old(transport)@.in_flight(),
    ensures
        final(storage)@.len() == STORAGE_LEN,
        final(transport)@.wf(),
        !final(transport)@.in_flight() ==> final(state).storage_offset == 0,
        ({
            let out = spec_process(*old(state), old(storage)@, kind, old(transport)@);
            &&& *final(state) == out.state
            &&& final(storage)@ == out.storage
            &&& final(transport)@ == out.transport
            &&& r == out.result
        }),
{
    match kind {
        ScsiCommand::TestUnitReady => {
            pass(state, transport);
            Ok(())
        },
        ScsiCommand::Inquiry => {
            let payload = inquiry();
            answer(state, transport, payload.as_slice())
        },
        ScsiCommand::RequestSense => {
            let payload = request_sense(state.peek_sense());
            match answer(state, transport, payload.as_slice()) {
                Ok(_) => {
                    state.reset();
                    Ok(())
                },
                Err(e) => Err(e),
            }
        },
        ScsiCommand::ReadCapacity10 => {
            let payload = read_capacity10();
            answer(state, transport, payload.as_slice())
        },
        ScsiCommand::ReadCapacity16 => {
            let payload = read_capacity16();
            answer(state, transport, payload.as_slice())
        },
        ScsiCommand::ReadFormatCapacities => {
            let payload = read_format_capacities();
            answer(state, transport, payload.as_slice())
        },
        ScsiCommand::Read { lba, len } => {
            if lba as u64 + len as u64 > BLOCKS as u64 {
                reject(state, transport, AdditionalSenseCode::LogicalBlockAddressOutOfRange);
                return Ok(());
            }
            let total: usize = (len * BLOCK_SIZE) as usize;
            if state.storage_offset >= total {
                pass(state, transport);
                return Ok(());
            }
            let start: usize = (BLOCK_SIZE * lba) as usize + state.storage_offset;
            let left: usize = total - state.storage_offset;
            let packet: usize = transport.packet_size() as usize;
            let n: usize = if left <= packet {
                left
            } else {
                packet
            };
            let data = vstd::slice::slice_subrange(storage.as_slice(), start, start + n);
            match transport.write_data(data) {
                Ok(count) => {
                    advance(state, transport, count, total);
                    Ok(())
                },
                Err(e) => {
                    if !transport.has_command() {
                        state.storage_offset = 0;
                    }
                    Err(e)
                },
            }
        },
        ScsiCommand::Write { lba, len } => {
            if lba as u64 + len as u64 > BLOCKS as u64 {
                reject(state, transport, AdditionalSenseCode::LogicalBlockAddressOutOfRange);
                return Ok(());
            }
            let total: usize = (len * BLOCK_SIZE) as usize;
            if state.storage_offset >= total {
                pass(state, transport);
                return Ok(());
            }
            let start: usize = (BLOCK_SIZE * lba) as usize + state.storage_offset;
            let left: usize = total - state.storage_offset;
            let packet: usize = transport.packet_size() as usize;
            let n: usize = if left <= packet {
                left
            } else {
                packet
            };
            match transport.read_data(n) {
                Ok(bytes) => {
                    store(storage, start, bytes.as_slice());
                    advance(state, transport, bytes.len(), total);
                    Ok(())
                },
                Err(e) => {
                    if !transport.has_command() {
                        state.storage_offset = 0;
                    }
                    Err(e)
                },
            }
        },
        ScsiCommand::ModeSense6 => {
            let payload = mode_sense6();
            answer(state, transport, payload.as_slice())
        },
        ScsiCommand::ModeSense10 => {
            let payload = mode_sense10();
            answer(state, transport, payload.as_slice())
        },
        ScsiCommand::Unknown(_) => {
            reject(state, transport, AdditionalSenseCode::InvalidCommandOperationCode);
            Ok(())
        },
    }
}

/// What holds after every poll: the backing store has its length, the
/// transport is sound, and the transfer state is clear unless the command
/// is still open.
pub open spec fn sound(out: Outcome) -> bool {
    &&& out.storage.len() == STORAGE_LEN
    &&& out.transport.wf()
    &&& !out.transport.in_flight() ==> out.state.storage_offset == 0
}

/// A command with a fixed answer leaves the device sound, whether the
/// answer could be staged or not.
pub proof fn lemma_answered_is_sound(
    state: State,
    storage: Seq<u8>,
    transport: BulkOnlyView,
    payload: Seq<u8>,
)
    requires
        storage.len() == STORAGE_LEN,
        transport.wf(),
        transport.in_flight(),
    ensures
        sound(answered(state, storage, transport, payload)),
{
}

/// A request for the sense data leaves the device sound.
pub proof fn lemma_sense_reported_is_sound(
    state: State,
    storage: Seq<u8>,
    transport: BulkOnlyView,
)
    requires
        storage.len() == STORAGE_LEN,
        transport.wf(),
        transport.in_flight(),
    ensures
        sound(sense_reported(state, storage, transport)),
{
}

/// A poll of a read leaves the device sound.
pub proof fn lemma_read_polled_is_sound(
    state: State,
    storage: Seq<u8>,
    transport: BulkOnlyView,
    lba: u32,
    len: u32,
)
    requires
        storage.len() == STORAGE_LEN,
        transport.wf(),
        transport.in_flight(),
    ensures
        sound(read_polled(state, storage, transport, lba, len)),
{
}

/// A poll of a write leaves the device sound: whatever the host staged is
/// stored inside the range of the command, and the backing store keeps its
/// length.
pub proof fn lemma_write_polled_is_sound(
    state: State,
    storage: Seq<u8>,
    transport: BulkOnlyView,
    lba: u32,
    len: u32,
)
    requires
        storage.len() == STORAGE_LEN,
        transport.wf(),
        transport.in_flight(),
    ensures
        sound(write_polled(state, storage, transport, lba, len)),
{
}

/// Every poll of the processor leaves the device sound, whatever the
/// command and however it ends.
pub proof fn lemma_process_is_sound(
    state: State,
    storage: Seq<u8>,
    kind: ScsiCommand,
    transport: BulkOnlyView,
)
    requires
        storage.len() == STORAGE_LEN,
        transport.wf(),
        transport.in_flight(),
    ensures
        sound(spec_process(state, storage, kind, transport)),
{
    match kind {
        ScsiCommand::Inquiry => lemma_answered_is_sound(state, storage, transport, spec_inquiry()),
        ScsiCommand::RequestSense => lemma_sense_reported_is_sound(state, storage, transport),
        ScsiCommand::ReadCapacity10 => lemma_answered_is_sound(
            state,
            storage,
            transport,
            spec_read_capacity10(),
        ),
        ScsiCommand::ReadCapacity16 => lemma_answered_is_sound(
            state,
            storage,
            transport,
            spec_read_capacity16(),
        ),
        ScsiCommand::ReadFormatCapacities => lemma_answered_is_sound(
            state,
            storage,
            transport,
            spec_read_format_capacities(),
        ),
        ScsiCommand::ModeSense6 => lemma_answered_is_sound(
            state,
            storage,
            transport,
            spec_mode_sense6(),
        ),
        ScsiCommand::ModeSense10 => lemma_answered_is_sound(
            state,
            storage,
            transport,
            spec_mode_sense10(),
        ),
        ScsiCommand::Read { lba, len } => lemma_read_polled_is_sound(
            state,
            storage,
            transport,
            lba,
            len,
        ),
        ScsiCommand::Write { lba, len } => lemma_write_polled_is_sound(
            state,
            storage,
            transport,
            lba,
            len,
        ),
        _ => {},
    }
}

/// A read or a write of blocks that do not all lie inside the backing store
/// is rejected, whatever the state of the transfer: the command fails, the
/// sense data names the address as out of range, and the backing store is
/// not touched.
pub proof fn lemma_out_of_range_is_rejected(
    state: State,
    storage: Seq<u8>,
    transport: BulkOnlyView,
    lba: u32,
    len: u32,
)
    requires
        transport.wf(),
        transport.in_flight(),
        lba + len > BLOCKS,
    ensures
        ({
            let reading = spec_process(state, storage, ScsiCommand::Read { lba, len }, transport);
            let writing = spec_process(state, storage, ScsiCommand::Write { lba, len }, transport);
            &&& reading == writing
            &&& reading.result is Ok
            &&& reading.storage == storage
            &&& reading.transport.status == Some(CommandStatus::Failed)
            &&& !reading.transport.in_flight()
            &&& reading.transport.moved == transport.moved
            &&& reading.state.sense() == (ILLEGAL_REQUEST, 0x21u8, 0x00u8)
            &&& reading.state.storage_offset == 0
        }),
{
}

/// A command with an operation code outside the supported set is rejected:
/// the command fails, the sense data names the operation code as invalid,
/// and the backing store is not touched.
pub proof fn lemma_unknown_is_rejected(
    state: State,
    storage: Seq<u8>,
    transport: BulkOnlyView,
    op_code: u8,
)
    requires
        transport.wf(),
        transport.in_flight(),
    ensures
        ({
            let out = spec_process(state, storage, ScsiCommand::Unknown(op_code), transport);
            &&& out.result is Ok
            &&& out.storage == storage
            &&& out.transport.status == Some(CommandStatus::Failed)
            &&& !out.transport.in_flight()
            &&& out.state.sense() == (ILLEGAL_REQUEST, 0x20u8, 0x00u8)
            &&& out.state.storage_offset == 0
        }),
{
}

/// Sense data is reported once. A request for it that succeeds stages the
/// sense data as it stands and clears it, so that the next request, if no
/// command was rejected in between, stages sense data of all zeros.
pub proof fn lemma_sense_is_reported_once(
    state: State,
    storage: Seq<u8>,
    first: BulkOnlyView,
    second: BulkOnlyView,
)
    requires
        first.wf(),
        first.in_flight(),
        second.wf(),
        second.in_flight(),
        spec_process(state, storage, ScsiCommand::RequestSense, first).result is Ok,
    ensures
        ({
            let once = spec_process(state, storage, ScsiCommand::RequestSense, first);
            let twice = spec_process(once.state, once.storage, ScsiCommand::RequestSense, second);
            &&& once.transport == first.written_all(spec_request_sense(state.sense())).closed(
                CommandStatus::Passed,
            )
            &&& once.state.sense() == (0u8, 0u8, 0u8)
            &&& twice.result is Ok ==> twice.transport == second.written_all(
                spec_request_sense((0u8, 0u8, 0u8)),
            ).closed(CommandStatus::Passed)
            &&& twice.state.sense() == (0u8, 0u8, 0u8)
        }),
{
}

/// A command with a fixed answer hands the host the answer, or the start of
/// it when the host declared less than its length: on a command that has
/// just been accepted, with the host expecting payload, the staged bytes
/// are the answer cut to the declared length, and the command has passed.
pub proof fn lemma_answer_is_cut_to_declared(
    state: State,
    storage: Seq<u8>,
    transport: BulkOnlyView,
    payload: Seq<u8>,
)
    requires
        transport.wf(),
        transport.phase == crate::usbd_storage::transport::bbb::Phase::Command,
        transport.to_host(),
        payload.len() <= transport.capacity,
    ensures
        ({
            let out = answered(state, storage, transport, payload);
            let sent = if payload.len() <= transport.cbw.data_transfer_len {
                payload.len()
            } else {
                transport.cbw.data_transfer_len as nat
            };
            &&& out.result is Ok
            &&& out.transport.staged == payload.subrange(0, sent as int)
            &&& out.transport.moved == sent
            &&& out.transport.status == Some(CommandStatus::Passed)
            &&& out.storage == storage
        }),
{
    let sent = transport.whole_count(payload.len());
    assert(transport.staged + payload.subrange(0, sent as int) =~= payload.subrange(
        0,
        sent as int,
    ));
}

} // verus!
