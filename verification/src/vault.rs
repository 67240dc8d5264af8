//! Operations on several blocks of a vault: runs of blocks, erasure of a
//! block, and the canary blocks that show whether a vault was tampered with.

use vstd::prelude::*;
use crate::crypto;
use crate::disk;
use crate::disk::DiskOp;
use crate::encoding;
use crate::encoding::{slice_part, write_at};
use crate::labels;
use crate::virtual_volume;
use crate::volume_laws;
use crate::virtual_volume::{VirtualVolume, BLOCK_SIZE, DATA_START_BLOCK, MAX_DATA_BLOCKS, PAYLOAD_SIZE};

verus! {

/// Block that holds the identity stamp.
pub const ID_STAMP_BLOCK: u64 = 994;

/// First canary block; it follows the identity stamp.
pub const CANARY_START_BLOCK: u64 = 995;

/// Number of canary blocks.
pub const CANARY_SLOTS: u64 = 5;

/// How many of `n` blocks from `start` on are data blocks.
pub open spec fn span(v: virtual_volume::VolumeView, start: nat, n: nat) -> nat {
    if !v.is_data_block(start) {
        0
    } else if v.total_blocks - start < n {
        (v.total_blocks - start) as nat
    } else {
        n
    }
}

/// Part `i` of a buffer that holds one payload after another.
pub open spec fn payload_of(data: Seq<u8>, i: int) -> Seq<u8> {
    data.subrange(i * 4068, i * 4068 + 4068)
}

// ---------------------------------------------------------------------------
// Runs of blocks
// ---------------------------------------------------------------------------

/// How many of `n` blocks from `start` on are data blocks.
pub fn block_span(volume: &VirtualVolume, start: u64, n: u32) -> (count: u32)
    requires
        volume@.wf(),
    ensures
        count == span(volume@, start as nat, n as nat),
{
    let total: u64 = volume.total_blocks();
    if start < DATA_START_BLOCK || start >= total {
        0
    } else if total - start < n as u64 {
        (total - start) as u32
    } else {
        n
    }
}

/// Decrypts blocks from `start` on into `out`, one payload after another, up
/// to the first that cannot be read. `raws` are the blocks of the file from
/// `start` on, as far as the file could be read.
pub fn read_vault_blocks(
    volume: &VirtualVolume,
    start: u64,
    n: u32,
    raws: &Vec<[u8; BLOCK_SIZE]>,
    out: &mut [u8],
) -> (count: u32)
    requires
        volume@.wf(),
        raws@.len() <= n,
        old(out)@.len() == n * 4068,
    ensures
        count <= raws@.len(),
        forall|i: int| #![trigger raws@[i]]
            0 <= i < count ==> {
                &&& volume@.is_data_block((start + i) as nat)
                &&& virtual_volume::block_opened(volume@.key, (start + i) as nat, raws@[i]@) == Some(
                    payload_of(final(out)@, i),
                )
            },
        count < raws@.len() && volume@.is_data_block((start + count) as nat) ==> virtual_volume::block_opened(
            volume@.key,
            (start + count) as nat,
            raws@[count as int]@,
        ) is None,
        final(out)@.len() == old(out)@.len(),
        final(out)@.subrange(count * 4068, n * 4068) == old(out)@.subrange(count * 4068, n * 4068),
{
    let ghost before = out@;
    let room: usize = out.len();
    let mut count: u32 = 0;
    while (count as usize) < raws.len()
        invariant
            volume@.wf(),
            raws@.len() <= n,
            before == old(out)@,
            room == before.len() == n * 4068,
            out@.len() == before.len(),
            count <= raws@.len(),
            count > 0 ==> start + count <= DATA_START_BLOCK + MAX_DATA_BLOCKS,
            forall|i: int| #![trigger raws@[i]]
                0 <= i < count ==> {
                    &&& volume@.is_data_block((start + i) as nat)
                    &&& virtual_volume::block_opened(volume@.key, (start + i) as nat, raws@[i]@) == Some(
                        payload_of(out@, i),
                    )
                },
            out@.subrange(count * 4068, n * 4068) == before.subrange(count * 4068, n * 4068),
        decreases raws@.len() - count,
    {
        let mut payload: [u8; PAYLOAD_SIZE] = [0u8; 4068];
        let raw: &[u8; BLOCK_SIZE] = &raws[count as usize];
        if volume.read_block(start + count as u64, raw, &mut payload).is_err() {
            return count;
        }
        let ghost prior = out@;
        assert(count * 4068 + 4068 <= room);
        write_at(out, count as usize * 4068, payload.as_slice());
        proof {
            assert(payload_of(out@, count as int) =~= payload@);
            assert forall|i: int| #![trigger raws@[i]] 0 <= i < count implies payload_of(out@, i) == payload_of(
                prior,
                i,
            ) by {
                assert(payload_of(out@, i) =~= payload_of(prior, i));
            }
            assert(out@.subrange((count + 1) * 4068, n * 4068) =~= before.subrange((count + 1) * 4068, n * 4068)) by {
                assert forall|j: int| (count + 1) * 4068 <= j < n * 4068 implies out@[j] == before[j] by {
                    assert(prior.subrange(count * 4068, n * 4068)[j - count * 4068] == before.subrange(
                        count * 4068,
                        n * 4068,
                    )[j - count * 4068]);
                }
            }
        }
        count = count + 1;
    }
    count
}

/// Encrypts the payloads in `data` for the blocks from `start` on, up to the
/// first that is not a data block. Each block has a list of operations of its
/// own.
pub fn write_vault_blocks(volume: &VirtualVolume, start: u64, n: u32, data: &[u8]) -> (batches: Vec<Vec<DiskOp>>)
    requires
        volume@.wf(),
        data@.len() == n * 4068,
    ensures
        batches@.len() == span(volume@, start as nat, n as nat),
        forall|i: int| #![trigger batches@[i]]
            0 <= i < batches@.len() ==> virtual_volume::writes_block(
                volume@.key,
                (start + i) as nat,
                payload_of(data@, i),
                disk::views(batches@[i]@),
            ) && crypto::drawn(disk::views(batches@[i]@)[1]->data),
{
    let room: usize = data.len();
    let count: u32 = block_span(volume, start, n);
    let mut batches: Vec<Vec<DiskOp>> = Vec::new();
    let mut i: u32 = 0;
    while i < count
        invariant
            volume@.wf(),
            room == data@.len() == n * 4068,
            i <= count <= n,
            count == span(volume@, start as nat, n as nat),
            batches@.len() == i,
            forall|j: int| #![trigger batches@[j]]
                0 <= j < i ==> virtual_volume::writes_block(
                    volume@.key,
                    (start + j) as nat,
                    payload_of(data@, j),
                    disk::views(batches@[j]@),
                ) && crypto::drawn(disk::views(batches@[j]@)[1]->data),
        decreases count - i,
    {
        assert(i * 4068 + 4068 <= room);
        let mut payload: [u8; PAYLOAD_SIZE] = [0u8; 4068];
        let at: usize = i as usize * 4068;
        write_at(&mut payload, 0, slice_part(data, at, at + 4068));
        assert(payload@ =~= payload_of(data@, i as int));
        match volume.write_block(start + i as u64, &payload) {
            Ok(ops) => {
                batches.push(ops);
            },
            Err(_) => {
                return batches;
            },
        }
        i = i + 1;
    }
    batches
}

// ---------------------------------------------------------------------------
// Erasure of a block
// ---------------------------------------------------------------------------

/// `ops` store some payload in a block, in place of what it held.
pub open spec fn erases_block(v: virtual_volume::VolumeView, block_idx: nat, ops: Seq<disk::DiskOpView>) -> bool {
    exists|noise: Seq<u8>|
        noise.len() == 4068 && #[trigger] virtual_volume::writes_block(v.key, block_idx, noise, ops)
}

/// `ops` store a payload that was drawn in a block, in place of what it held.
pub open spec fn fills_block_with_noise(
    v: virtual_volume::VolumeView,
    block_idx: nat,
    ops: Seq<disk::DiskOpView>,
) -> bool {
    exists|noise: Seq<u8>|
        noise.len() == 4068 && crypto::drawn(noise) && #[trigger] virtual_volume::writes_block(
            v.key,
            block_idx,
            noise,
            ops,
        )
}

/// The first half of erasing a block: overwrites it with random bytes. The
/// error is the code 3.
pub fn secure_erase_block(volume: &VirtualVolume, block_idx: u64) -> (ops: Result<Vec<DiskOp>, u32>)
    requires
        volume@.wf(),
    ensures
        match ops {
            Ok(list) => {
                &&& volume@.is_data_block(block_idx as nat)
                &&& erases_block(volume@, block_idx as nat, disk::views(list@))
                &&& fills_block_with_noise(volume@, block_idx as nat, disk::views(list@))
                &&& crypto::drawn(disk::views(list@)[1]->data)
            },
            Err(code) => !volume@.is_data_block(block_idx as nat) && code == 3,
        },
{
    let mut payload: [u8; PAYLOAD_SIZE] = [0u8; 4068];
    crypto::fill_random(&mut payload);
    match volume.write_block(block_idx, &payload) {
        Ok(list) => {
            assert(erases_block(volume@, block_idx as nat, disk::views(list@)));
            assert(fills_block_with_noise(volume@, block_idx as nat, disk::views(list@)));
            Ok(list)
        },
        Err(_) => Err(3),
    }
}

/// An erased block decrypts to what it was overwritten with, and is free. The
/// file stays that of the vault.
pub proof fn law_erased_block_is_overwritten_and_free(
    file: Seq<u8>,
    v: virtual_volume::VolumeView,
    block_idx: nat,
    ops: Seq<disk::DiskOpView>,
    after: virtual_volume::VolumeView,
    free_ops: Seq<disk::DiskOpView>,
)
    requires
        v.wf(),
        volume_laws::holds(file, v),
        erases_block(v, block_idx, ops),
        v.changes_bit(block_idx, false, after, free_ops),
    ensures
        ({
            let end = disk::run(disk::run(file, ops), free_ops);
            &&& volume_laws::holds(end, after)
            &&& !after.allocated()[block_idx - DATA_START_BLOCK]
            &&& exists|noise: Seq<u8>|
                noise.len() == 4068 && #[trigger] virtual_volume::writes_block(v.key, block_idx, noise, ops)
                    && virtual_volume::block_opened(v.key, block_idx, volume_laws::block_of(end, block_idx)) == Some(
                    noise,
                )
        }),
{
    let noise = choose|noise: Seq<u8>|
        noise.len() == 4068 && #[trigger] virtual_volume::writes_block(v.key, block_idx, noise, ops);
    let mid = disk::run(file, ops);
    volume_laws::law_read_after_write(file, v, block_idx, noise, ops);
    volume_laws::law_bitmap_change_holds(mid, v, block_idx, false, after, free_ops);
    assert(volume_laws::block_of(disk::run(mid, free_ops), block_idx) == volume_laws::block_of(mid, block_idx));
}

/// The second half of erasing a block: frees it, once it has been overwritten.
/// The code is 0 where the block is free now, and 3 where it was not
/// overwritten or is not an allocated block.
pub fn finish_secure_erase(volume: &mut VirtualVolume, block_idx: u64, overwritten: bool) -> (done: (u32, Vec<DiskOp>))
    requires
        old(volume)@.wf(),
    ensures
        final(volume)@.wf(),
        ({
            let v = old(volume)@;
            if overwritten && v.is_data_block(block_idx as nat) && v.allocated()[block_idx - DATA_START_BLOCK] {
                &&& done.0 == 0
                &&& v.changes_bit(block_idx as nat, false, final(volume)@, disk::views(done.1@))
            } else {
                &&& done.0 == 3
                &&& done.1@.len() == 0
                &&& final(volume)@ == v
            }
        }),
{
    if !overwritten {
        return (3, Vec::new());
    }
    match volume.free_block(block_idx) {
        Ok(list) => (0, list),
        Err(_) => (3, Vec::new()),
    }
}

// ---------------------------------------------------------------------------
// Canary blocks
// ---------------------------------------------------------------------------

/// The text `CANARY`, with which the payload of a canary block starts.
pub open spec fn canary_mark() -> Seq<u8> {
    seq![67, 65, 78, 65, 82, 89]
}

/// `raw` is read as the canary block of `slot`, and its payload starts with
/// the mark.
pub open spec fn canary_slot_intact(v: virtual_volume::VolumeView, slot: int, raw: Seq<u8>) -> bool {
    let block_idx = (CANARY_START_BLOCK + slot) as nat;
    &&& v.is_data_block(block_idx)
    &&& virtual_volume::block_opened(v.key, block_idx, raw) matches Some(payload) && payload.subrange(0, 6)
        == canary_mark()
}

/// Payload of the canary block of `slot`.
pub open spec fn canary_payload_bytes(slot: u8, noise: Seq<u8>) -> Seq<u8> {
    canary_mark() + seq![slot, 1u8] + noise
}

/// Whether the canary blocks were found intact.
pub struct CanaryState {
    intact: bool,
}

impl View for CanaryState {
    type V = bool;

    closed spec fn view(&self) -> bool {
        self.intact
    }
}

impl CanaryState {
    /// Nothing has been found out yet.
    pub fn new() -> (state: Self)
        ensures
            !state@,
    {
        CanaryState { intact: false }
    }
}

/// Holds the five canary blocks of the file against their mark; a block that
/// could not be read is `None`. The code is 0 where all are intact, which is
/// then remembered, and 2 otherwise.
pub fn validate_canary_slots(
    state: &mut CanaryState,
    volume: &VirtualVolume,
    raws: &Vec<Option<[u8; BLOCK_SIZE]>>,
) -> (code: u32)
    requires
        volume@.wf(),
        raws@.len() == CANARY_SLOTS,
    ensures
        code == 0 || code == 2,
        code == 0 <==> forall|i: int| #![trigger raws@[i]]
            0 <= i < CANARY_SLOTS ==> raws@[i] is Some && canary_slot_intact(volume@, i, raws@[i]->Some_0@),
        code == 0 ==> forall|i: int| #![trigger raws@[i]]
            0 <= i < 5 ==> raws@[i] is Some && 995 + i < volume@.total_blocks && ({
                let payload = virtual_volume::block_opened(volume@.key, (995 + i) as nat, raws@[i]->Some_0@);
                payload is Some && payload->Some_0.subrange(0, 6) == seq![67u8, 65u8, 78u8, 65u8, 82u8, 89u8]
            }),
        final(state)@ == (old(state)@ || code == 0),
{
    let mut slot: u64 = 0;
    while slot < CANARY_SLOTS
        invariant
            volume@.wf(),
            raws@.len() == CANARY_SLOTS,
            slot <= CANARY_SLOTS,
            *state == *old(state),
            forall|i: int| #![trigger raws@[i]]
                0 <= i < slot ==> raws@[i] is Some && canary_slot_intact(volume@, i, raws@[i]->Some_0@),
        decreases CANARY_SLOTS - slot,
    {
        let intact: bool = match &raws[slot as usize] {
            Some(raw) => check_canary_slot(volume, slot, raw),
            None => false,
        };
        if !intact {
            assert(!(raws@[slot as int] is Some && canary_slot_intact(
                volume@,
                slot as int,
                raws@[slot as int]->Some_0@,
            )));
            return 2;
        }
        slot = slot + 1;
    }
    state.intact = true;
    0
}

/// Whether `raw` is the canary block of `slot`.
fn check_canary_slot(volume: &VirtualVolume, slot: u64, raw: &[u8; BLOCK_SIZE]) -> (intact: bool)
    requires
        volume@.wf(),
        slot < CANARY_SLOTS,
    ensures
        intact == canary_slot_intact(volume@, slot as int, raw@),
        intact == (995 + slot < volume@.total_blocks && ({
            let payload = virtual_volume::block_opened(volume@.key, (995 + slot) as nat, raw@);
            payload is Some && payload->Some_0.subrange(0, 6) == seq![67u8, 65u8, 78u8, 65u8, 82u8, 89u8]
        })),
{
    let mut buf: [u8; PAYLOAD_SIZE] = [0u8; 4068];
    if volume.read_block(CANARY_START_BLOCK + slot, raw, &mut buf).is_err() {
        return false;
    }
    let intact: bool = buf[0] == 67 && buf[1] == 65 && buf[2] == 78 && buf[3] == 65 && buf[4] == 82 && buf[5] == 89;
    proof {
        let head = buf@.subrange(0, 6);
        if intact {
            assert(head =~= canary_mark());
        }
        if head == canary_mark() {
            assert(head[0] == 67 && head[1] == 65 && head[2] == 78 && head[3] == 65 && head[4] == 82 && head[5] == 89);
        }
    }
    intact
}

/// 1 where the canary blocks have been found intact, 0 otherwise.
pub fn canary_slots_intact(state: &CanaryState) -> (flag: u32)
    ensures
        flag == (if state@ { 1u32 } else { 0u32 }),
{
    if state.intact {
        1
    } else {
        0
    }
}

/// The payload of the canary block of `slot`.
pub fn canary_payload(slot: u8, noise: &[u8; 4060]) -> (payload: [u8; PAYLOAD_SIZE])
    ensures
        payload@ == canary_payload_bytes(slot, noise@),
{
    let head: [u8; 8] = [67, 65, 78, 65, 82, 89, slot, 1];
    let mut payload: [u8; PAYLOAD_SIZE] = [0u8; 4068];
    write_at(&mut payload, 0, head.as_slice());
    write_at(&mut payload, 8, noise.as_slice());
    assert(payload@ =~= canary_payload_bytes(slot, noise@));
    payload
}

/// What setting up the canary blocks asks of the file.
pub struct CanaryInit {
    /// One list for each block that was reserved; a failure to carry one out
    /// is passed over.
    pub reservations: Vec<Vec<DiskOp>>,
    /// One list for each canary block, in order.
    pub slots: Vec<Vec<DiskOp>>,
    /// 0 where every canary block is a data block, 2 otherwise.
    pub code: u32,
}

/// For each block from the identity stamp to the last canary, `after` has it
/// allocated; everything else is as in `v`.
pub open spec fn reserves_fixed_blocks(
    v: virtual_volume::VolumeView,
    after: virtual_volume::VolumeView,
    upto: int,
) -> bool {
    &&& after.key == v.key
    &&& after.total_blocks == v.total_blocks
    &&& after.path == v.path
    &&& forall|i: int| #![trigger after.allocated()[i]]
        0 <= i < v.data_blocks() ==> after.allocated()[i] == (v.allocated()[i] || ID_STAMP_BLOCK <= DATA_START_BLOCK
            + i < upto)
}

/// Sets the canary blocks up: reserves them and the block of the identity
/// stamp, and encrypts a payload with the mark for each.
pub fn init_canary_slots(volume: &mut VirtualVolume) -> (made: CanaryInit)
    requires
        old(volume)@.wf(),
    ensures
        final(volume)@.wf(),
        reserves_fixed_blocks(old(volume)@, final(volume)@, CANARY_START_BLOCK + CANARY_SLOTS),
        forall|file: Seq<u8>| #![trigger disk::run_all(file, disk::all_views(made.reservations@))]
            volume_laws::holds(file, old(volume)@) ==> volume_laws::holds(
                disk::run_all(file, disk::all_views(made.reservations@)),
                final(volume)@,
            ),
        forall|i: int| #![trigger made.reservations@[i]]
            0 <= i < made.reservations@.len() ==> made.reservations@[i]@.len() == 0 || disk::restores_times(
                disk::views(made.reservations@[i]@),
            ),
        made.slots@.len() == span(old(volume)@, CANARY_START_BLOCK as nat, CANARY_SLOTS as nat),
        made.code == (if made.slots@.len() == CANARY_SLOTS { 0u32 } else { 2u32 }),
        forall|i: int| #![trigger made.slots@[i]]
            0 <= i < made.slots@.len() ==> {
                &&& writes_canary(old(volume)@, i as u8, disk::views(made.slots@[i]@))
                &&& writes_fresh_canary(old(volume)@, i as u8, disk::views(made.slots@[i]@))
                &&& crypto::drawn(disk::views(made.slots@[i]@)[1]->data)
            },
{
    let ghost v = volume@;
    let mut reservations: Vec<Vec<DiskOp>> = Vec::new();
    let mut block_idx: u64 = ID_STAMP_BLOCK;
    while block_idx < CANARY_START_BLOCK + CANARY_SLOTS
        invariant
            ID_STAMP_BLOCK <= block_idx <= CANARY_START_BLOCK + CANARY_SLOTS,
            v.wf(),
            volume@.wf(),
            reserves_fixed_blocks(v, volume@, block_idx as int),
            forall|i: int| #![trigger reservations@[i]]
                0 <= i < reservations@.len() ==> reservations@[i]@.len() == 0 || disk::restores_times(
                    disk::views(reservations@[i]@),
                ),
            forall|file: Seq<u8>| #![trigger disk::run_all(file, disk::all_views(reservations@))]
                volume_laws::holds(file, v) ==> volume_laws::holds(
                    disk::run_all(file, disk::all_views(reservations@)),
                    volume@,
                ),
        decreases CANARY_START_BLOCK + CANARY_SLOTS - block_idx,
    {
        let ghost prior = volume@;
        let ghost batches = reservations@;
        if let Ok(ops) = volume.reserve_block(block_idx) {
            proof {
                lemma_reservation_holds(v, batches, prior, block_idx as nat, ops, volume@);
            }
            reservations.push(ops);
        }
        proof {
            assert forall|i: int| #![trigger volume@.allocated()[i]] 0 <= i < v.data_blocks() implies volume@.allocated()[i]
                == (v.allocated()[i] || ID_STAMP_BLOCK <= DATA_START_BLOCK + i < block_idx + 1) by {
                assert(prior.allocated()[i] == (v.allocated()[i] || ID_STAMP_BLOCK <= DATA_START_BLOCK + i < block_idx));
            }
        }
        block_idx = block_idx + 1;
    }
    let mut slots: Vec<Vec<DiskOp>> = Vec::new();
    let mut slot: u8 = 0;
    while slot < 5
        invariant
            slot <= 5,
            v.wf(),
            volume@.wf(),
            volume@.key == v.key,
            volume@.total_blocks == v.total_blocks,
            reserves_fixed_blocks(v, volume@, CANARY_START_BLOCK + CANARY_SLOTS),
            forall|i: int| #![trigger reservations@[i]]
                0 <= i < reservations@.len() ==> reservations@[i]@.len() == 0 || disk::restores_times(
                    disk::views(reservations@[i]@),
                ),
            slots@.len() == slot,
            slot <= span(v, CANARY_START_BLOCK as nat, CANARY_SLOTS as nat),
            v == old(volume)@,
            forall|file: Seq<u8>| #![trigger disk::run_all(file, disk::all_views(reservations@))]
                volume_laws::holds(file, v) ==> volume_laws::holds(
                    disk::run_all(file, disk::all_views(reservations@)),
                    volume@,
                ),
            forall|i: int| #![trigger slots@[i]]
                0 <= i < slot ==> {
                    &&& writes_canary(v, i as u8, disk::views(slots@[i]@))
                    &&& writes_fresh_canary(v, i as u8, disk::views(slots@[i]@))
                    &&& crypto::drawn(disk::views(slots@[i]@)[1]->data)
                },
        decreases 5 - slot,
    {
        let mut noise: [u8; 4060] = [0u8; 4060];
        crypto::fill_random(&mut noise);
        let payload: [u8; PAYLOAD_SIZE] = canary_payload(slot, &noise);
        match volume.write_block(CANARY_START_BLOCK + slot as u64, &payload) {
            Ok(ops) => {
                assert(virtual_volume::writes_block(
                    v.key,
                    (CANARY_START_BLOCK + slot) as nat,
                    canary_payload_bytes(slot, noise@),
                    disk::views(ops@),
                ));
                assert(writes_canary(v, slot, disk::views(ops@)));
                assert(writes_fresh_canary(v, slot, disk::views(ops@)));
                slots.push(ops);
            },
            Err(_) => {
                return CanaryInit { reservations, slots, code: 2 };
            },
        }
        slot = slot + 1;
    }
    CanaryInit { reservations, slots, code: 0 }
}

/// Carrying out one more reservation keeps the file that of the vault.
proof fn lemma_reservation_holds(
    v: virtual_volume::VolumeView,
    batches: Seq<Vec<DiskOp>>,
    prior: virtual_volume::VolumeView,
    block_idx: nat,
    ops: Vec<DiskOp>,
    after: virtual_volume::VolumeView,
)
    requires
        prior.wf(),
        (after == prior && ops@.len() == 0) || prior.changes_bit(block_idx, true, after, disk::views(ops@)),
        forall|file: Seq<u8>| #![trigger disk::run_all(file, disk::all_views(batches))]
            volume_laws::holds(file, v) ==> volume_laws::holds(disk::run_all(file, disk::all_views(batches)), prior),
    ensures
        forall|file: Seq<u8>| #![trigger disk::run_all(file, disk::all_views(batches.push(ops)))]
            volume_laws::holds(file, v) ==> volume_laws::holds(
                disk::run_all(file, disk::all_views(batches.push(ops))),
                after,
            ),
{
    assert forall|file: Seq<u8>| #![trigger disk::run_all(file, disk::all_views(batches.push(ops)))]
        volume_laws::holds(file, v) implies volume_laws::holds(
        disk::run_all(file, disk::all_views(batches.push(ops))),
        after,
    ) by {
        disk::lemma_run_all_push(file, batches, ops);
        let mid = disk::run_all(file, disk::all_views(batches));
        if ops@.len() > 0 {
            volume_laws::law_bitmap_change_holds(mid, prior, block_idx, true, after, disk::views(ops@));
        }
    }
}

/// `ops` store the mark of `slot`, its number and some noise in its block.
pub open spec fn writes_canary(v: virtual_volume::VolumeView, slot: u8, ops: Seq<disk::DiskOpView>) -> bool {
    exists|noise: Seq<u8>|
        noise.len() == 4060 && #[trigger] virtual_volume::writes_block(
            v.key,
            (CANARY_START_BLOCK + slot) as nat,
            canary_payload_bytes(slot, noise),
            ops,
        )
}

/// The same, with noise that was drawn.
pub open spec fn writes_fresh_canary(v: virtual_volume::VolumeView, slot: u8, ops: Seq<disk::DiskOpView>) -> bool {
    exists|noise: Seq<u8>|
        noise.len() == 4060 && crypto::drawn(noise) && #[trigger] virtual_volume::writes_block(
            v.key,
            (CANARY_START_BLOCK + slot) as nat,
            canary_payload_bytes(slot, noise),
            ops,
        )
}

/// Canary blocks that have been set up, and not been touched since, are found
/// intact.
pub proof fn law_canaries_intact_once_set_up(
    file: Seq<u8>,
    v: virtual_volume::VolumeView,
    slots: Seq<Seq<disk::DiskOpView>>,
)
    requires
        v.wf(),
        volume_laws::holds(file, v),
        span(v, CANARY_START_BLOCK as nat, CANARY_SLOTS as nat) == CANARY_SLOTS,
        slots.len() == CANARY_SLOTS,
        forall|i: int| #![trigger slots[i]] 0 <= i < CANARY_SLOTS ==> writes_canary(v, i as u8, slots[i]),
    ensures
        forall|i: int| #![trigger canary_slot_intact(v, i, volume_laws::block_of(disk::run_all(file, slots), (CANARY_START_BLOCK + i) as nat))]
            0 <= i < CANARY_SLOTS ==> canary_slot_intact(
                v,
                i,
                volume_laws::block_of(disk::run_all(file, slots), (CANARY_START_BLOCK + i) as nat),
            ),
{
    let payloads = Seq::new(
        5,
        |i: int|
            canary_payload_bytes(
                i as u8,
                choose|noise: Seq<u8>|
                    noise.len() == 4060 && #[trigger] virtual_volume::writes_block(
                        v.key,
                        (CANARY_START_BLOCK + i as u8) as nat,
                        canary_payload_bytes(i as u8, noise),
                        slots[i],
                    ),
            ),
    );
    assert forall|i: int| #![trigger slots[i]] 0 <= i < slots.len() implies virtual_volume::writes_block(
        v.key,
        (CANARY_START_BLOCK + i) as nat,
        payloads[i],
        slots[i],
    ) by {
        assert(writes_canary(v, i as u8, slots[i]));
    }
    volume_laws::law_run_read_after_write(file, v, CANARY_START_BLOCK as nat, payloads, slots);
    let end = disk::run_all(file, slots);
    assert forall|i: int| #![trigger canary_slot_intact(v, i, volume_laws::block_of(end, (CANARY_START_BLOCK + i) as nat))]
        0 <= i < CANARY_SLOTS implies canary_slot_intact(
        v,
        i,
        volume_laws::block_of(end, (CANARY_START_BLOCK + i) as nat),
    ) by {
        assert(payloads[i].subrange(0, 6) =~= canary_mark());
    }
}

// ---------------------------------------------------------------------------
// Laws
// ---------------------------------------------------------------------------

/// Tampering is noticed in every one of the five canary blocks: a block that
/// does not decrypt under the key of its place, or whose payload starts with
/// anything but the mark, is not intact. A block that does both is.
pub proof fn law_tampered_canary_is_noticed(
    v: virtual_volume::VolumeView,
    slot: int,
    nonce: Seq<u8>,
    sealed: Seq<u8>,
)
    requires
        0 <= slot < 5,
        nonce.len() == 12,
        sealed.len() == 4084,
    ensures
        ({
            let key = crypto::hmac_sha256(
                v.key,
                encoding::le_bytes((995 + slot) as nat, 8) + labels::label("blk_key_v1"),
            )@;
            let payload = crypto::chacha20poly1305_open(key, nonce, sealed);
            let mark = seq![67u8, 65u8, 78u8, 65u8, 82u8, 89u8];
            let intact = canary_slot_intact(v, slot, nonce + sealed);
            &&& v.total_blocks <= 995 + slot ==> !intact
            &&& payload is None ==> !intact
            &&& payload is Some && payload->Some_0.subrange(0, 6) != mark ==> !intact
            &&& 995 + slot < v.total_blocks && payload is Some && payload->Some_0.subrange(0, 6) == mark ==> intact
        }),
{
    volume_laws::law_block_opens_under_its_nonce(v.key, (995 + slot) as nat, nonce, sealed);
}

/// All canaries are intact only where each of the five blocks could be read and
/// decrypts under the key of its place to a payload that starts with the mark.
pub proof fn law_each_canary_counts(v: virtual_volume::VolumeView, raws: Seq<Option<[u8; BLOCK_SIZE]>>, slot: int)
    requires
        raws.len() == 5,
        0 <= slot < 5,
        forall|i: int| #![trigger raws[i]]
            0 <= i < 5 ==> raws[i] is Some && canary_slot_intact(v, i, raws[i]->Some_0@),
    ensures
        995 + slot < v.total_blocks,
        raws[slot] is Some,
        virtual_volume::block_opened(v.key, (995 + slot) as nat, raws[slot]->Some_0@) is Some,
        virtual_volume::block_opened(v.key, (995 + slot) as nat, raws[slot]->Some_0@)->Some_0.subrange(0, 6)
            == labels::label("CANARY"),
{
    assert(raws[slot] is Some && canary_slot_intact(v, slot, raws[slot]->Some_0@));
    reveal_strlit("CANARY");
    labels::lemma_label("CANARY");
    assert(labels::label("CANARY") =~= canary_mark());
}

/// A canary block that has been set up decrypts to the mark, the number of its
/// slot, the number 1, and bytes that were drawn for it.
pub proof fn law_canary_holds_mark_and_noise(
    file: Seq<u8>,
    v: virtual_volume::VolumeView,
    slot: u8,
    ops: Seq<disk::DiskOpView>,
)
    requires
        v.wf(),
        volume_laws::holds(file, v),
        slot < 5,
        1000 <= v.total_blocks,
        writes_fresh_canary(v, slot, ops),
    ensures
        ({
            let block = volume_laws::block_of(disk::run(file, ops), (995 + slot) as nat);
            let opened = virtual_volume::block_opened(v.key, (995 + slot) as nat, block);
            let payload = opened->Some_0;
            &&& opened is Some
            &&& payload.len() == 4068
            &&& payload.subrange(0, 6) == labels::label("CANARY")
            &&& payload[6] == slot
            &&& payload[7] == 1
            &&& crypto::drawn(payload.subrange(8, 4068))
        }),
{
    let noise = choose|noise: Seq<u8>|
        noise.len() == 4060 && crypto::drawn(noise) && #[trigger] virtual_volume::writes_block(
            v.key,
            (CANARY_START_BLOCK + slot) as nat,
            canary_payload_bytes(slot, noise),
            ops,
        );
    let payload = canary_payload_bytes(slot, noise);
    volume_laws::law_read_after_write(file, v, (995 + slot) as nat, payload, ops);
    reveal_strlit("CANARY");
    labels::lemma_label("CANARY");
    assert(payload.subrange(0, 6) =~= labels::label("CANARY"));
    assert(payload.subrange(8, 4068) =~= noise);
}

/// A block that has been overwritten for its erasure decrypts to 4068 bytes
/// that were drawn for it, whatever it held.
pub proof fn law_erased_block_holds_noise(
    file: Seq<u8>,
    v: virtual_volume::VolumeView,
    block_idx: nat,
    ops: Seq<disk::DiskOpView>,
)
    requires
        v.wf(),
        volume_laws::holds(file, v),
        v.is_data_block(block_idx),
        fills_block_with_noise(v, block_idx, ops),
    ensures
        ({
            let block = volume_laws::block_of(disk::run(file, ops), block_idx);
            let opened = virtual_volume::block_opened(v.key, block_idx, block);
            opened is Some && opened->Some_0.len() == 4068 && crypto::drawn(opened->Some_0)
        }),
        erases_block(v, block_idx, ops),
{
    let noise = choose|noise: Seq<u8>|
        noise.len() == 4068 && crypto::drawn(noise) && #[trigger] virtual_volume::writes_block(
            v.key,
            block_idx,
            noise,
            ops,
        );
    volume_laws::law_read_after_write(file, v, block_idx, noise, ops);
}

/// A run of blocks goes as far as it was asked for and as the vault reaches,
/// and nowhere where it does not start at a data block.
pub proof fn law_span_is_the_data_blocks(v: virtual_volume::VolumeView, start: nat, n: nat, i: nat)
    ensures
        i < span(v, start, n) <==> i < n && 9 <= start && start + i < v.total_blocks,
{
}

/// The payloads in a buffer follow one another without a gap.
pub proof fn law_payloads_follow_one_another(data: Seq<u8>, i: int, j: int)
    requires
        0 <= i,
        i * 4068 + 4068 <= data.len(),
        0 <= j < 4068,
    ensures
        payload_of(data, i).len() == 4068,
        payload_of(data, i)[j] == data[i * 4068 + j],
{
}

/// The blocks from 994 to 999 are reserved, every other block is allocated
/// where it was before, and the vault is otherwise the same.
pub proof fn law_fixed_blocks_are_reserved(
    v: virtual_volume::VolumeView,
    after: virtual_volume::VolumeView,
    block_idx: nat,
)
    requires
        reserves_fixed_blocks(v, after, CANARY_START_BLOCK + CANARY_SLOTS),
        v.is_data_block(block_idx),
    ensures
        994 <= block_idx <= 999 ==> after.allocated()[block_idx - 9],
        !(994 <= block_idx <= 999) ==> after.allocated()[block_idx - 9] == v.allocated()[block_idx - 9],
        after.key == v.key,
        after.path == v.path,
        after.total_blocks == v.total_blocks,
{
}

} // verus!
