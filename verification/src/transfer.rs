//! Whole transfers: a read or a write as a run of polls.
//!
//! One poll moves one packet at most, so a transfer of many packets takes
//! as many polls. A cycle of a read is a poll and then the packet that the
//! host takes; a cycle of a write is a packet that the host sends and then a
//! poll. The lemmas say what a run of such cycles adds up to.

use crate::config::{lemma_geometry, BLOCKS, BLOCK_SIZE, STORAGE_LEN};
use crate::processor::{
    byte_len,
    byte_start,
    chunk_len,
    in_range,
    read_polled,
    stored,
    write_polled,
};
use crate::state::State;
use crate::usbd_storage::transport::bbb::{BulkOnlyView, Direction, Phase};
use crate::usbd_storage::transport::CommandStatus;
use vstd::prelude::*;

verus! {

/// A device in the middle of a transfer, and what the host has of it.
pub struct Run {
    /// The transfer state and the sense state.
    pub state: State,
    /// The backing store.
    pub storage: Seq<u8>,
    /// The transport.
    pub transport: BulkOnlyView,
    /// The payload that the host has taken so far.
    pub sent: Seq<u8>,
}

/// A command that has just been accepted, with nothing moved yet, for a
/// transfer of `len` blocks in the given direction, of which the host
/// declared every byte.
pub open spec fn fresh(run: Run, direction: Direction, len: u32) -> bool {
    &&& run.transport.wf()
    &&& run.transport.phase == Phase::Command
    &&& run.transport.cbw.direction == direction
    &&& run.transport.cbw.data_transfer_len == byte_len(len)
    &&& run.state.storage_offset == 0
    &&& run.storage.len() == STORAGE_LEN
    &&& run.sent.len() == 0
}

/// One cycle of a read: the device does one poll, and the host takes the
/// payload packet that is ready, if one is.
pub open spec fn read_cycle(run: Run, lba: u32, len: u32) -> Run {
    let out = read_polled(run.state, run.storage, run.transport, lba, len);
    if out.transport.sending() {
        Run {
            state: out.state,
            storage: out.storage,
            transport: out.transport.packet_sent(),
            sent: run.sent + out.transport.in_packet()->0,
        }
    } else {
        Run { state: out.state, storage: out.storage, transport: out.transport, sent: run.sent }
    }
}

/// A number of read cycles in a row.
pub open spec fn read_cycles(run: Run, lba: u32, len: u32, cycles: nat) -> Run
    decreases cycles,
{
    if cycles == 0 {
        run
    } else {
        read_cycle(read_cycles(run, lba, len, (cycles - 1) as nat), lba, len)
    }
}

/// One cycle of a write: the host sends a packet of payload, and the device
/// does one poll.
pub open spec fn write_cycle(run: Run, lba: u32, len: u32, packet: Seq<u8>) -> Run {
    let out = write_polled(
        run.state,
        run.storage,
        run.transport.received(packet),
        lba,
        len,
    );
    Run { state: out.state, storage: out.storage, transport: out.transport, sent: run.sent }
}

/// A number of write cycles in a row, in which the host sends the payload
/// packet by packet, each packet full.
pub open spec fn write_cycles(run: Run, lba: u32, len: u32, payload: Seq<u8>, cycles: nat) -> Run
    decreases cycles,
{
    if cycles == 0 {
        run
    } else {
        let before = write_cycles(run, lba, len, payload, (cycles - 1) as nat);
        let size = run.transport.packet_size;
        write_cycle(
            before,
            lba,
            len,
            payload.subrange((cycles - 1) * size, (cycles * size) as int),
        )
    }
}

/// A poll of a read moves exactly one chunk: a full packet, or what is left
/// of the transfer if that is less. This holds whenever the host still
/// expects that much and the staging buffer has room for it.
pub proof fn lemma_read_poll_moves_a_chunk(
    state: State,
    storage: Seq<u8>,
    transport: BulkOnlyView,
    lba: u32,
    len: u32,
)
    requires
        transport.wf(),
        transport.in_flight(),
        transport.to_host(),
        storage.len() == STORAGE_LEN,
        in_range(lba, len),
        state.storage_offset < byte_len(len),
        chunk_len(transport, (byte_len(len) - state.storage_offset) as nat)
            <= transport.remaining(),
        chunk_len(transport, (byte_len(len) - state.storage_offset) as nat) <= transport.room(),
    ensures
        ({
            let left = (byte_len(len) - state.storage_offset) as nat;
            let chunk = chunk_len(transport, left);
            let start = byte_start(lba) + state.storage_offset;
            let out = read_polled(state, storage, transport, lba, len);
            &&& chunk > 0
            &&& out.result is Ok
            &&& out.storage == storage
            &&& out.transport.moved == transport.moved + chunk
            &&& out.transport.staged == transport.staged + storage.subrange(
                start as int,
                start + chunk,
            )
            &&& chunk < left ==> out.state.storage_offset == state.storage_offset + chunk
                && out.transport.in_flight()
            &&& chunk == left ==> out.state.storage_offset == 0 && out.transport.status == Some(
                CommandStatus::Passed,
            )
        }),
{
    lemma_geometry();
    let left = (byte_len(len) - state.storage_offset) as nat;
    let chunk = chunk_len(transport, left);
    let start = byte_start(lba) + state.storage_offset;
    let data = storage.subrange(start as int, start + chunk);
    assert(data.subrange(0, chunk as int) =~= data);
}

/// A poll of a write takes what the host has staged, one chunk at most, and
/// puts it at the next place in the range.
pub proof fn lemma_write_poll_moves_a_chunk(
    state: State,
    storage: Seq<u8>,
    transport: BulkOnlyView,
    lba: u32,
    len: u32,
)
    requires
        transport.wf(),
        transport.in_flight(),
        transport.from_host(),
        storage.len() == STORAGE_LEN,
        in_range(lba, len),
        state.storage_offset < byte_len(len),
        transport.staged.len() > 0,
    ensures
        ({
            let left = (byte_len(len) - state.storage_offset) as nat;
            let chunk = transport.read_count(chunk_len(transport, left));
            let start = (byte_start(lba) + state.storage_offset) as nat;
            let out = write_polled(state, storage, transport, lba, len);
            &&& chunk > 0
            &&& out.result is Ok
            &&& out.storage == stored(storage, start, transport.staged.subrange(0, chunk as int))
            &&& out.storage.len() == storage.len()
            &&& out.transport.moved == transport.moved
            &&& chunk < left ==> out.state.storage_offset == state.storage_offset + chunk
                && out.transport.in_flight() && out.transport.staged
                == transport.staged.subrange(chunk as int, transport.staged.len() as int)
            &&& chunk == left ==> out.state.storage_offset == 0 && out.transport.status == Some(
                CommandStatus::Passed,
            ) && out.transport.phase == Phase::Status
        }),
{
    lemma_geometry();
}

/// The length of a transfer is a whole number of packets.
pub proof fn lemma_whole_packets(len: u32, size: nat)
    requires
        size == 8 || size == 16 || size == 32 || size == 64,
    ensures
        byte_len(len) % size == 0,
        byte_len(len) == (byte_len(len) / size) * size,
{
    let total = byte_len(len);
    assert(total == len * 4096);
    if size == 8 {
        assert(total == 8 * (len * 512));
        assert(total % 8 == 0 && total == (total / 8) * 8);
    } else if size == 16 {
        assert(total == 16 * (len * 256));
        assert(total % 16 == 0 && total == (total / 16) * 16);
    } else if size == 32 {
        assert(total == 32 * (len * 128));
        assert(total % 32 == 0 && total == (total / 32) * 32);
    } else {
        assert(total == 64 * (len * 64));
        assert(total % 64 == 0 && total == (total / 64) * 64);
    }
}

/// Where a read stands after `cycles` cycles, for a command that has just
/// been accepted and a host that takes each packet as it comes.
///
/// Each cycle moves one full packet and the offset grows by as much, until
/// the last packet has gone: only then does the command pass, with nothing
/// left over. What the host has taken is the range of the backing store, as
/// far as the transfer has come. The backing store is as it was.
pub proof fn lemma_read_run(run: Run, lba: u32, len: u32, cycles: nat)
    requires
        fresh(run, Direction::In, len),
        in_range(lba, len),
        cycles * run.transport.packet_size <= byte_len(len),
    ensures
        ({
            let size = run.transport.packet_size;
            let after = read_cycles(run, lba, len, cycles);
            let done = cycles * size;
            &&& after.transport.wf()
            &&& after.storage == run.storage
            &&& after.state.sense() == run.state.sense()
            &&& after.transport.cbw == run.transport.cbw
            &&& after.transport.packet_size == size
            &&& after.transport.moved == done
            &&& after.transport.staged.len() == 0
            &&& after.sent == run.storage.subrange(
                byte_start(lba) as int,
                (byte_start(lba) + done) as int,
            )
            &&& done < byte_len(len) ==> after.state.storage_offset == done
                && after.transport.in_flight()
            &&& done == byte_len(len) && cycles > 0 ==> {
                &&& after.state.storage_offset == 0
                &&& after.transport.phase == Phase::Status
                &&& after.transport.status == Some(CommandStatus::Passed)
                &&& after.transport.remaining() == 0
            }
        }),
    decreases cycles,
{
    lemma_geometry();
    let size = run.transport.packet_size;
    let start = byte_start(lba);
    if cycles == 0 {
        assert(run.sent =~= run.storage.subrange(start as int, start as int));
        assert(0 * size == 0) by (nonlinear_arith);
    } else {
        let k = (cycles - 1) as nat;
        assert(k * size + size == cycles * size) by (nonlinear_arith)
            requires
                k + 1 == cycles,
        ;
        assert(k * size >= 0) by (nonlinear_arith);
        lemma_read_run(run, lba, len, k);
        let before = read_cycles(run, lba, len, k);
        let left = (byte_len(len) - before.state.storage_offset) as nat;
        lemma_read_poll_moves_a_chunk(before.state, before.storage, before.transport, lba, len);
        let out = read_polled(before.state, before.storage, before.transport, lba, len);
        assert(before.transport.staged =~= Seq::<u8>::empty());
        let data = run.storage.subrange(
            (start + k * size) as int,
            (start + k * size + size) as int,
        );
        assert(out.transport.staged =~= data);
        assert(out.transport.sending());
        assert(out.transport.in_packet()->0 =~= data);
        assert(out.transport.packet_sent().staged =~= Seq::<u8>::empty());
        let after = read_cycles(run, lba, len, cycles);
        assert(after == read_cycle(before, lba, len));
        assert(after.sent =~= run.storage.subrange(start as int, (start + cycles * size) as int));
    }
}

/// Where a write stands after `cycles` cycles, for a command that has just
/// been accepted and a host that sends the payload in full packets.
///
/// Each cycle moves one packet into the backing store and the offset grows
/// by as much, until the last packet has come: only then does the command
/// pass. The backing store holds the payload, as far as it has come, in the
/// range of the command, and is as it was everywhere else.
pub proof fn lemma_write_run(run: Run, lba: u32, len: u32, payload: Seq<u8>, cycles: nat)
    requires
        fresh(run, Direction::Out, len),
        in_range(lba, len),
        payload.len() == byte_len(len),
        cycles * run.transport.packet_size <= byte_len(len),
    ensures
        ({
            let size = run.transport.packet_size;
            let after = write_cycles(run, lba, len, payload, cycles);
            let done = cycles * size;
            &&& after.transport.wf()
            &&& after.storage == stored(
                run.storage,
                byte_start(lba),
                payload.subrange(0, done as int),
            )
            &&& after.storage.len() == STORAGE_LEN
            &&& after.state.sense() == run.state.sense()
            &&& after.transport.cbw == run.transport.cbw
            &&& after.transport.packet_size == size
            &&& after.transport.moved == done
            &&& after.transport.staged.len() == 0
            &&& done < byte_len(len) ==> after.state.storage_offset == done
                && after.transport.in_flight()
            &&& done == byte_len(len) && cycles > 0 ==> {
                &&& after.state.storage_offset == 0
                &&& after.transport.phase == Phase::Status
                &&& after.transport.status == Some(CommandStatus::Passed)
                &&& after.transport.remaining() == 0
            }
        }),
    decreases cycles,
{
    lemma_geometry();
    let size = run.transport.packet_size;
    let start = byte_start(lba);
    if cycles == 0 {
        assert(0 * size == 0) by (nonlinear_arith);
        assert(run.storage =~= stored(run.storage, start, payload.subrange(0, 0)));
    } else {
        let k = (cycles - 1) as nat;
        assert(k * size + size == cycles * size) by (nonlinear_arith)
            requires
                k + 1 == cycles,
        ;
        assert(k * size >= 0) by (nonlinear_arith);
        lemma_write_run(run, lba, len, payload, k);
        let before = write_cycles(run, lba, len, payload, k);
        let packet = payload.subrange((k * size) as int, (cycles * size) as int);
        let taken = before.transport.received(packet);
        assert(before.transport.staged =~= Seq::<u8>::empty());
        assert(taken.staged =~= packet);
        lemma_write_poll_moves_a_chunk(before.state, before.storage, taken, lba, len);
        let out = write_polled(before.state, before.storage, taken, lba, len);
        assert(taken.staged.subrange(0, size as int) =~= packet);
        let after = write_cycles(run, lba, len, payload, cycles);
        assert(after == write_cycle(before, lba, len, packet));
        assert(after.storage =~= stored(
            run.storage,
            start,
            payload.subrange(0, (cycles * size) as int),
        ));
    }
}

/// What was written is what is read: after a write of a payload to a range
/// of blocks inside the backing store, a read of the same range hands the
/// host the same bytes.
pub proof fn lemma_write_then_read(
    writing: Run,
    reading: Run,
    lba: u32,
    len: u32,
    payload: Seq<u8>,
)
    requires
        in_range(lba, len),
        payload.len() == byte_len(len),
        fresh(writing, Direction::Out, len),
        fresh(reading, Direction::In, len),
        reading.storage == write_cycles(
            writing,
            lba,
            len,
            payload,
            byte_len(len) / writing.transport.packet_size,
        ).storage,
    ensures
        read_cycles(reading, lba, len, byte_len(len) / reading.transport.packet_size).sent
            == payload,
{
    lemma_geometry();
    let total = byte_len(len);
    let write_size = writing.transport.packet_size;
    let read_size = reading.transport.packet_size;
    lemma_whole_packets(len, write_size);
    lemma_whole_packets(len, read_size);
    lemma_write_run(writing, lba, len, payload, total / write_size);
    lemma_read_run(reading, lba, len, total / read_size);
    assert(payload.subrange(0, total as int) =~= payload);
    assert(stored(writing.storage, byte_start(lba), payload).subrange(
        byte_start(lba) as int,
        (byte_start(lba) + total) as int,
    ) =~= payload);
}

} // verus!
