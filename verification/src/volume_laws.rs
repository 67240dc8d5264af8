//! What holds of a vault and its file over several operations.

use vstd::prelude::*;
use crate::bitmap;
use crate::crypto;
use crate::disk;
use crate::encoding;
use crate::labels;
use crate::virtual_volume;
use crate::virtual_volume::{
    BITMAP_SIZE, DATA_START_BLOCK, MAX_DATA_BLOCKS, VAULT_VERSION, VolumeError,
};

verus! {

/// The superblock of a vault file.
pub open spec fn superblock_of(file: Seq<u8>) -> Seq<u8> {
    file.subrange(0, 4096)
}

/// The bitmap of a vault file.
pub open spec fn bitmap_of(file: Seq<u8>) -> Seq<u8> {
    file.subrange(4096, 4096 + BITMAP_SIZE)
}

/// Block `block_idx` of a vault file.
pub open spec fn block_of(file: Seq<u8>, block_idx: nat) -> Seq<u8> {
    file.subrange(block_idx as int * 4096, block_idx as int * 4096 + 4096)
}

/// `file` is the file of the vault `v`: it has the full length, opens under
/// the key of `v`, and holds its bitmap.
pub open spec fn holds(file: Seq<u8>, v: virtual_volume::VolumeView) -> bool {
    &&& file.len() == v.total_blocks * 4096
    &&& virtual_volume::open_error(v.key, superblock_of(file)) is None
    &&& virtual_volume::superblock_total(superblock_of(file)) == v.total_blocks
    &&& bitmap_of(file) == v.bitmap
}

/// A vault that has been created has its file.
pub proof fn law_created_file_holds(path: Seq<char>, master_key: Seq<u8>, data_blocks: nat)
    requires
        master_key.len() == 32,
        data_blocks <= MAX_DATA_BLOCKS,
    ensures
        ({
            let file = disk::run(Seq::empty(), virtual_volume::new_volume_ops(master_key, data_blocks));
            let v = virtual_volume::new_volume(path, master_key, data_blocks);
            &&& v.wf()
            &&& v.allocated() == Seq::new(data_blocks, |i: int| false)
            &&& holds(file, v)
        }),
{
    let ops = virtual_volume::new_volume_ops(master_key, data_blocks);
    let v = virtual_volume::new_volume(path, master_key, data_blocks);
    let total = v.total_blocks;
    let hash = crypto::sha256(master_key);
    let sb = virtual_volume::superblock_bytes(VAULT_VERSION as nat, total, data_blocks, hash@);
    virtual_volume::law_superblock_roundtrip(VAULT_VERSION, total as u64, data_blocks as u64, hash);
    bitmap::lemma_zero_bits(v.bitmap, data_blocks);
    disk::lemma_run_short(Seq::empty(), ops[0], ops[1], ops[2], ops[3]);
    assert(ops =~= seq![ops[0], ops[1], ops[2], ops[3]]);
    let file = disk::run(Seq::empty(), ops);
    let f1 = disk::run_one(Seq::empty(), ops[0]);
    let f2 = disk::run_one(f1, ops[1]);
    let f3 = disk::run_one(f2, ops[2]);
    assert(f1.len() == total * 4096);
    assert(f2.len() == total * 4096);
    assert(f3.len() == total * 4096);
    assert(file == f3);
    assert(superblock_of(file) =~= sb);
    assert(bitmap_of(file) =~= v.bitmap);
}

/// A vault is opened again as it was left: with the same blocks allocated and
/// the same number of them free, whatever number the superblock names.
pub proof fn law_reopen(file: Seq<u8>, v: virtual_volume::VolumeView)
    requires
        v.wf(),
        holds(file, v),
    ensures
        virtual_volume::open_error(v.key, superblock_of(file)) is None,
        virtual_volume::opened_volume(v.path, v.key, superblock_of(file), bitmap_of(file))
            == (virtual_volume::VolumeView { unsynced: 0, ..v }),
{
}

/// A vault is refused to every key whose SHA-256 is not that of its own key.
pub proof fn law_wrong_key_refused(file: Seq<u8>, v: virtual_volume::VolumeView, other_key: Seq<u8>)
    requires
        holds(file, v),
        crypto::sha256(other_key)@ != crypto::sha256(v.key)@,
    ensures
        virtual_volume::open_error(other_key, superblock_of(file)) == Some(VolumeError::WrongKey),
{
}

/// Allocating, reserving or freeing a block keeps the file that of the vault
/// and leaves every data block as it is.
pub proof fn law_bitmap_change_holds(
    file: Seq<u8>,
    v: virtual_volume::VolumeView,
    block_idx: nat,
    value: bool,
    after: virtual_volume::VolumeView,
    ops: Seq<disk::DiskOpView>,
)
    requires
        v.wf(),
        holds(file, v),
        v.changes_bit(block_idx, value, after, ops),
    ensures
        holds(disk::run(file, ops), after),
        forall|i: nat|
            v.is_data_block(i) ==> #[trigger] block_of(disk::run(file, ops), i) == block_of(file, i),
{
    let end = disk::run(file, ops);
    disk::lemma_run_short(file, ops[0], ops[1], ops[2], ops[3]);
    if ops.len() == 3 {
        assert(ops =~= seq![ops[0], ops[1], ops[2]]);
    } else {
        assert(ops =~= seq![ops[0], ops[1], ops[2], ops[3]]);
    }
    assert(end == disk::overwrite(file, 4096, after.bitmap));
    assert(end.len() == file.len());
    assert(superblock_of(end) =~= superblock_of(file));
    assert(bitmap_of(end) =~= after.bitmap);
    assert forall|i: nat| v.is_data_block(i) implies #[trigger] block_of(end, i) == block_of(file, i) by {
        assert(block_of(end, i) =~= block_of(file, i));
    }
}

/// What is read from a block is what was written to it last. Writing a block
/// keeps the file that of the vault and leaves every other block as it is.
pub proof fn law_read_after_write(
    file: Seq<u8>,
    v: virtual_volume::VolumeView,
    block_idx: nat,
    plaintext: Seq<u8>,
    ops: Seq<disk::DiskOpView>,
)
    requires
        v.wf(),
        holds(file, v),
        v.is_data_block(block_idx),
        virtual_volume::writes_block(v.key, block_idx, plaintext, ops),
    ensures
        virtual_volume::block_opened(v.key, block_idx, block_of(disk::run(file, ops), block_idx)) == Some(plaintext),
        holds(disk::run(file, ops), v),
        forall|i: nat|
            v.is_data_block(i) && i != block_idx ==> #[trigger] block_of(disk::run(file, ops), i) == block_of(
                file,
                i,
            ),
{
    let nonce = choose|nonce: Seq<u8>| virtual_volume::seals_block(v.key, block_idx, nonce, plaintext, ops);
    let end = disk::run(file, ops);
    let sealed = virtual_volume::block_sealed(v.key, block_idx, nonce, plaintext);
    disk::lemma_run_short(file, ops[0], ops[1], ops[2], ops[3]);
    assert(ops =~= seq![ops[0], ops[1], ops[2], ops[3]]);
    let mid = disk::overwrite(file, block_idx * 4096, nonce);
    assert(end == disk::overwrite(mid, block_idx * 4096 + 12, sealed));
    assert(mid.len() == file.len());
    assert(end.len() == file.len());
    assert(block_of(end, block_idx) =~= nonce + sealed);
    assert(superblock_of(end) =~= superblock_of(file));
    assert(bitmap_of(end) =~= bitmap_of(file));
    assert forall|i: nat| v.is_data_block(i) && i != block_idx implies #[trigger] block_of(end, i) == block_of(
        file,
        i,
    ) by {
        assert(block_of(end, i) =~= block_of(file, i));
    }
}

/// A raw write stores the bytes as they are. It keeps the file that of the
/// vault and leaves every other block as it is.
pub proof fn law_raw_write_stores_bytes(
    file: Seq<u8>,
    v: virtual_volume::VolumeView,
    block_idx: nat,
    data: Seq<u8>,
)
    requires
        v.wf(),
        holds(file, v),
        v.is_data_block(block_idx),
        data.len() == 4096,
    ensures
        ({
            let end = disk::run(file, virtual_volume::raw_write_ops(block_idx, data));
            &&& block_of(end, block_idx) == data
            &&& holds(end, v)
            &&& forall|i: nat|
                v.is_data_block(i) && i != block_idx ==> #[trigger] block_of(end, i) == block_of(file, i)
        }),
{
    let ops = virtual_volume::raw_write_ops(block_idx, data);
    disk::lemma_run_short(file, ops[0], ops[1], ops[2], ops[2]);
    assert(ops =~= seq![ops[0], ops[1], ops[2]]);
    let end = disk::run(file, ops);
    assert(end == disk::overwrite(file, block_idx * 4096, data));
    assert(end.len() == file.len());
    assert(block_of(end, block_idx) =~= data);
    assert(superblock_of(end) =~= superblock_of(file));
    assert(bitmap_of(end) =~= bitmap_of(file));
    assert forall|i: nat| v.is_data_block(i) && i != block_idx implies #[trigger] block_of(end, i) == block_of(
        file,
        i,
    ) by {
        assert(block_of(end, i) =~= block_of(file, i));
    }
}

/// A raw read is of the bytes of the block, and leaves the file as it is.
pub proof fn law_raw_read_is_of_block(file: Seq<u8>, v: virtual_volume::VolumeView, block_idx: nat)
    requires
        v.wf(),
        holds(file, v),
        v.is_data_block(block_idx),
    ensures
        block_idx * 4096 + 4096 <= file.len(),
        disk::read_by(file, virtual_volume::raw_read_ops(block_idx)[1]) == block_of(file, block_idx),
        disk::run(file, virtual_volume::raw_read_ops(block_idx)) == file,
{
    let ops = virtual_volume::raw_read_ops(block_idx);
    disk::lemma_run_short(file, ops[0], ops[1], ops[2], ops[2]);
    assert(ops =~= seq![ops[0], ops[1], ops[2]]);
}

/// The file shows no activity: after a block has been written, the size, the
/// access time and the modification time of the file, and the bitmap in it,
/// are what they were before.
pub proof fn law_block_write_shows_nothing(
    files: Seq<disk::TimedFile>,
    v: virtual_volume::VolumeView,
    block_idx: nat,
    plaintext: Seq<u8>,
    ops: Seq<disk::DiskOpView>,
)
    requires
        v.wf(),
        holds(files[0].data, v),
        v.is_data_block(block_idx),
        virtual_volume::writes_block(v.key, block_idx, plaintext, ops),
        disk::is_course(files, ops),
    ensures
        files.last().atime == files[0].atime,
        files.last().mtime == files[0].mtime,
        files.last().data.len() == files[0].data.len(),
        bitmap_of(files.last().data) == bitmap_of(files[0].data),
{
    law_read_after_write(files[0].data, v, block_idx, plaintext, ops);
    let nonce = choose|nonce: Seq<u8>| virtual_volume::seals_block(v.key, block_idx, nonce, plaintext, ops);
    assert(ops == virtual_volume::block_write_ops(v.key, block_idx, nonce, plaintext));
    disk::law_times_are_restored(files, ops);
}

/// The same of a raw write.
pub proof fn law_raw_write_shows_nothing(
    files: Seq<disk::TimedFile>,
    v: virtual_volume::VolumeView,
    block_idx: nat,
    data: Seq<u8>,
)
    requires
        v.wf(),
        holds(files[0].data, v),
        v.is_data_block(block_idx),
        data.len() == 4096,
        disk::is_course(files, virtual_volume::raw_write_ops(block_idx, data)),
    ensures
        files.last().atime == files[0].atime,
        files.last().mtime == files[0].mtime,
        files.last().data.len() == files[0].data.len(),
        bitmap_of(files.last().data) == bitmap_of(files[0].data),
{
    law_raw_write_stores_bytes(files[0].data, v, block_idx, data);
    disk::law_times_are_restored(files, virtual_volume::raw_write_ops(block_idx, data));
}

/// The same of allocating, reserving and freeing, but for the bitmap.
pub proof fn law_bitmap_change_shows_nothing(
    files: Seq<disk::TimedFile>,
    v: virtual_volume::VolumeView,
    block_idx: nat,
    value: bool,
    after: virtual_volume::VolumeView,
    ops: Seq<disk::DiskOpView>,
)
    requires
        v.wf(),
        holds(files[0].data, v),
        v.changes_bit(block_idx, value, after, ops),
        disk::is_course(files, ops),
    ensures
        files.last().atime == files[0].atime,
        files.last().mtime == files[0].mtime,
        files.last().data.len() == files[0].data.len(),
{
    law_bitmap_change_holds(files[0].data, v, block_idx, value, after, ops);
    disk::law_times_are_restored(files, ops);
}

/// The same of reading a block, which leaves all of the file as it was.
pub proof fn law_read_shows_nothing(files: Seq<disk::TimedFile>, v: virtual_volume::VolumeView, block_idx: nat)
    requires
        v.wf(),
        holds(files[0].data, v),
        v.is_data_block(block_idx),
        disk::is_course(files, virtual_volume::raw_read_ops(block_idx)),
    ensures
        files.last().atime == files[0].atime,
        files.last().mtime == files[0].mtime,
        files.last().data == files[0].data,
{
    law_raw_read_is_of_block(files[0].data, v, block_idx);
    disk::law_times_are_restored(files, virtual_volume::raw_read_ops(block_idx));
}

/// No two blocks of a vault get their keys from the same input.
pub proof fn law_block_key_input_is_unique(block1: u64, block2: u64)
    requires
        virtual_volume::block_key_input(block1 as nat) == virtual_volume::block_key_input(block2 as nat),
    ensures
        block1 == block2,
{
    broadcast use encoding::lemma_le_bytes_len;

    let a = virtual_volume::block_key_input(block1 as nat);
    let b = virtual_volume::block_key_input(block2 as nat);
    assert(a.subrange(0, 8) =~= encoding::le_bytes(block1 as nat, 8));
    assert(b.subrange(0, 8) =~= encoding::le_bytes(block2 as nat, 8));
    encoding::lemma_le_range();
    encoding::lemma_le_bytes_injective(block1 as nat, block2 as nat, 8);
}

/// Freeing an allocated block undoes its allocation.
pub proof fn law_free_undoes_allocate(
    v: virtual_volume::VolumeView,
    block_idx: nat,
    mid: virtual_volume::VolumeView,
    ops: Seq<disk::DiskOpView>,
    after: virtual_volume::VolumeView,
    free_ops: Seq<disk::DiskOpView>,
)
    requires
        v.wf(),
        v.changes_bit(block_idx, true, mid, ops),
        mid.changes_bit(block_idx, false, after, free_ops),
    ensures
        after.all_bits() == v.all_bits(),
        after.allocated() == v.allocated(),
        after.free_blocks == v.free_blocks,
{
    let i = block_idx - DATA_START_BLOCK;
    assert(v.all_bits()[i] == v.allocated()[i]);
    assert(after.all_bits() =~= v.all_bits());
    assert(after.allocated() =~= v.allocated());
}

/// A block that is freed in a full vault is the one that is allocated next.
pub proof fn law_freed_block_is_reused(
    v: virtual_volume::VolumeView,
    freed: nat,
    mid: virtual_volume::VolumeView,
    ops: Seq<disk::DiskOpView>,
    next: nat,
    after: virtual_volume::VolumeView,
    next_ops: Seq<disk::DiskOpView>,
)
    requires
        v.wf(),
        v.free_blocks == 0,
        v.changes_bit(freed, false, mid, ops),
        mid.changes_bit(next, true, after, next_ops),
    ensures
        next == freed,
        after.allocated() == v.allocated(),
        after.free_blocks == 0,
{
    bitmap::lemma_clear_count_zero(v.allocated());
    assert(v.allocated()[next - DATA_START_BLOCK]);
    assert(after.allocated() =~= v.allocated());
}

/// A block that is allocated is not allocated again while it stays so: not the
/// block of an earlier allocation, nor a reserved one.
pub proof fn law_allocated_blocks_are_distinct(
    v: virtual_volume::VolumeView,
    taken: nat,
    next: nat,
    after: virtual_volume::VolumeView,
    ops: Seq<disk::DiskOpView>,
)
    requires
        v.is_data_block(taken),
        v.allocated()[taken - DATA_START_BLOCK],
        v.changes_bit(next, true, after, ops),
    ensures
        next != taken,
        after.allocated()[taken - DATA_START_BLOCK],
{
}

/// What is read from a run of blocks is what was written to it; the blocks
/// outside the run are as they were.
pub proof fn law_run_read_after_write(
    file: Seq<u8>,
    v: virtual_volume::VolumeView,
    start: nat,
    payloads: Seq<Seq<u8>>,
    batches: Seq<Seq<disk::DiskOpView>>,
)
    requires
        v.wf(),
        holds(file, v),
        payloads.len() == batches.len(),
        DATA_START_BLOCK <= start,
        start + batches.len() <= v.total_blocks,
        forall|i: int| #![trigger batches[i]]
            0 <= i < batches.len() ==> virtual_volume::writes_block(
                v.key,
                (start + i) as nat,
                payloads[i],
                batches[i],
            ),
    ensures
        holds(disk::run_all(file, batches), v),
        forall|i: int| #![trigger payloads[i]]
            0 <= i < payloads.len() ==> virtual_volume::block_opened(
                v.key,
                (start + i) as nat,
                block_of(disk::run_all(file, batches), (start + i) as nat),
            ) == Some(payloads[i]),
        forall|b: nat| #![trigger block_of(disk::run_all(file, batches), b)]
            v.is_data_block(b) && !(start <= b < start + batches.len()) ==> block_of(disk::run_all(file, batches), b)
                == block_of(file, b),
    decreases batches.len(),
{
    if batches.len() > 0 {
        let front = batches.drop_last();
        let heads = payloads.drop_last();
        let last = batches.len() - 1;
        assert forall|i: int| #![trigger front[i]] 0 <= i < front.len() implies virtual_volume::writes_block(
            v.key,
            (start + i) as nat,
            heads[i],
            front[i],
        ) by {
            assert(front[i] == batches[i]);
            assert(heads[i] == payloads[i]);
        }
        law_run_read_after_write(file, v, start, heads, front);
        let mid = disk::run_all(file, front);
        let end = disk::run_all(file, batches);
        let last_block = (start + last) as nat;
        assert(batches[last] == batches.last());
        law_read_after_write(mid, v, last_block, payloads[last], batches.last());
        assert(end == disk::run(mid, batches.last()));
        assert forall|i: int| #![trigger payloads[i]] 0 <= i < payloads.len() implies virtual_volume::block_opened(
            v.key,
            (start + i) as nat,
            block_of(end, (start + i) as nat),
        ) == Some(payloads[i]) by {
            if i < last {
                assert(front[i] == batches[i]);
                assert(heads[i] == payloads[i]);
                assert(block_of(end, (start + i) as nat) == block_of(mid, (start + i) as nat));
            }
        }
        assert forall|b: nat| #![trigger block_of(end, b)]
            v.is_data_block(b) && !(start <= b < start + batches.len()) implies block_of(end, b) == block_of(
            file,
            b,
        ) by {
            assert(block_of(end, b) == block_of(mid, b));
        }
    }
}

// ---------------------------------------------------------------------------
// What the parts of a vault are
// ---------------------------------------------------------------------------

/// Which bytes of a file are its superblock, its bitmap and a block.
pub proof fn law_parts_of_file(file: Seq<u8>, block_idx: nat, i: int)
    requires
        36864 <= file.len(),
        block_idx * 4096 + 4096 <= file.len(),
    ensures
        superblock_of(file).len() == 4096,
        0 <= i < 4096 ==> superblock_of(file)[i] == file[i],
        bitmap_of(file).len() == 32768,
        0 <= i < 32768 ==> bitmap_of(file)[i] == file[4096 + i],
        block_of(file, block_idx).len() == 4096,
        0 <= i < 4096 ==> block_of(file, block_idx)[i] == file[block_idx * 4096 + i],
{
}

/// A file is that of a vault exactly where it has 4096 bytes for each block,
/// starts with a superblock that names that number of blocks and holds the
/// SHA-256 of the whole master key, and holds the bitmap behind it.
pub proof fn law_file_of_vault(file: Seq<u8>, v: virtual_volume::VolumeView)
    ensures
        holds(file, v) <==> {
            &&& file.len() == v.total_blocks * 4096
            &&& encoding::le_value(file.subrange(0, 4096).subrange(0, 4)) == 0x5345_4333
            &&& encoding::le_value(file.subrange(0, 4096).subrange(8, 16)) == v.total_blocks
            &&& file.subrange(0, 4096).subrange(24, 56) == crypto::sha256(v.key)@
            &&& 9 <= v.total_blocks <= 262153
            &&& file.subrange(4096, 36864) == v.bitmap
        },
{
}

/// Where each field stands in a superblock.
pub proof fn law_superblock_layout(version: u32, total_blocks: u64, free_blocks: u64, key_hash: [u8; 32], i: int)
    ensures
        ({
            let raw = virtual_volume::superblock_bytes(
                version as nat,
                total_blocks as nat,
                free_blocks as nat,
                key_hash@,
            );
            &&& raw.len() == 4096
            &&& encoding::le_value(raw.subrange(0, 4)) == 0x5345_4333
            &&& encoding::le_value(raw.subrange(4, 8)) == version
            &&& encoding::le_value(raw.subrange(8, 16)) == total_blocks
            &&& encoding::le_value(raw.subrange(16, 24)) == free_blocks
            &&& raw.subrange(24, 56) == key_hash@
            &&& 56 <= i < 4096 ==> raw[i] == 0
        }),
{
    broadcast use encoding::lemma_le_bytes_len;

    virtual_volume::law_superblock_roundtrip(version, total_blocks, free_blocks, key_hash);
}

/// What is read of a superblock comes from its own bytes.
pub proof fn law_superblock_fields(sb: virtual_volume::SuperblockInfo, raw: Seq<u8>)
    ensures
        virtual_volume::superblock_magic(raw) == encoding::le_value(raw.subrange(0, 4)),
        virtual_volume::has_fields_of(sb, raw) <==> {
            &&& sb.version == encoding::le_value(raw.subrange(4, 8))
            &&& sb.total_blocks == encoding::le_value(raw.subrange(8, 16))
            &&& sb.free_blocks == encoding::le_value(raw.subrange(16, 24))
            &&& sb.master_key_hash@ == raw.subrange(24, 56)
        },
        virtual_volume::superblock_key_hash(raw) == raw.subrange(24, 56),
{
}

/// A vault opens exactly where its superblock has the magic number, holds the
/// SHA-256 of the whole of the master key, and names a number of blocks that
/// the bitmap can track. Each refusal has its error, and the first reason
/// counts.
pub proof fn law_open_is_refused_for_cause(master_key: Seq<u8>, raw: Seq<u8>)
    ensures
        ({
            let marked = encoding::le_value(raw.subrange(0, 4)) == 0x5345_4333;
            let same_key = raw.subrange(24, 56) == crypto::sha256(master_key)@;
            let total = encoding::le_value(raw.subrange(8, 16));
            let fits = 9 <= total <= 262153;
            let error = virtual_volume::open_error(master_key, raw);
            &&& error is None <==> marked && same_key && fits
            &&& error == Some(VolumeError::BadMagic) <==> !marked
            &&& error == Some(VolumeError::WrongKey) <==> marked && !same_key
            &&& error == Some(VolumeError::TotalOutOfRange) <==> marked && same_key && !fits
            &&& virtual_volume::superblock_error(master_key, raw) is None <==> marked && same_key
            &&& virtual_volume::superblock_error(master_key, raw) == Some(VolumeError::BadMagic) <==> !marked
            &&& virtual_volume::superblock_error(master_key, raw) == Some(VolumeError::WrongKey) <==> marked
                && !same_key
        }),
{
}

/// A new vault opens to a key exactly where the SHA-256 of that key is the
/// SHA-256 of the key that created it; to others it is refused as a wrong key.
pub proof fn law_new_vault_opens_to_its_key_only(master_key: Seq<u8>, other_key: Seq<u8>, data_blocks: nat)
    requires
        master_key.len() == 32,
        data_blocks <= 262144,
    ensures
        ({
            let file = disk::run(Seq::empty(), virtual_volume::new_volume_ops(master_key, data_blocks));
            let error = virtual_volume::open_error(other_key, file.subrange(0, 4096));
            &&& crypto::sha256(other_key)@ == crypto::sha256(master_key)@ ==> error is None
            &&& crypto::sha256(other_key)@ != crypto::sha256(master_key)@ ==> error == Some(VolumeError::WrongKey)
        }),
{
    law_created_file_holds(Seq::empty(), master_key, data_blocks);
}

/// A new vault is laid out at its full length, with a superblock of version 3
/// that names its blocks and holds the SHA-256 of the whole master key, and
/// with a bitmap of zeros; then it is flushed.
pub proof fn law_new_vault_layout(path: Seq<char>, master_key: Seq<u8>, data_blocks: nat, i: int)
    requires
        data_blocks <= 262144,
    ensures
        ({
            let ops = virtual_volume::new_volume_ops(master_key, data_blocks);
            let v = virtual_volume::new_volume(path, master_key, data_blocks);
            &&& ops.len() == 4
            &&& ops[0] == disk::DiskOpView::SetLen((9 + data_blocks) * 4096)
            &&& ops[1] is WriteAt && ops[1]->WriteAt_offset == 0 && ops[1]->data.len() == 4096
            &&& encoding::le_value(ops[1]->data.subrange(0, 4)) == 0x5345_4333
            &&& encoding::le_value(ops[1]->data.subrange(4, 8)) == 3
            &&& encoding::le_value(ops[1]->data.subrange(8, 16)) == 9 + data_blocks
            &&& encoding::le_value(ops[1]->data.subrange(16, 24)) == data_blocks
            &&& ops[1]->data.subrange(24, 56) == crypto::sha256(master_key)@
            &&& ops[2] is WriteAt && ops[2]->WriteAt_offset == 4096 && ops[2]->data.len() == 32768
            &&& 0 <= i < 32768 ==> ops[2]->data[i] == 0
            &&& ops[3] is SyncAll
            &&& v.key == master_key
            &&& v.path == path
            &&& v.total_blocks == 9 + data_blocks
            &&& v.free_blocks == data_blocks
            &&& v.bitmap.len() == 32768
            &&& 0 <= i < 32768 ==> v.bitmap[i] == 0
            &&& v.unsynced == 0
        }),
{
    let total = 9 + data_blocks;
    law_superblock_layout(3, total as u64, data_blocks as u64, crypto::sha256(master_key), i);
}

/// A vault that opens has the key and the path that were given, the number of
/// blocks that the superblock names, and the bitmap of its file; the free
/// blocks are the clear bits of that bitmap.
pub proof fn law_opened_volume(path: Seq<char>, master_key: Seq<u8>, raw: Seq<u8>, bitmap: Seq<u8>)
    requires
        virtual_volume::open_error(master_key, raw) is None,
        bitmap.len() == 32768,
    ensures
        ({
            let v = virtual_volume::opened_volume(path, master_key, raw, bitmap);
            &&& v.key == master_key
            &&& v.path == path
            &&& v.total_blocks == encoding::le_value(raw.subrange(8, 16))
            &&& v.bitmap == bitmap
            &&& v.free_blocks == v.allocated().filter(|set: bool| !set).len()
            &&& v.unsynced == 0
        }),
{
    bitmap::law_clear_count_counts_clear(
        virtual_volume::opened_volume(path, master_key, raw, bitmap).allocated(),
    );
}

/// What every operation of a vault keeps. A block is a data block from index 9
/// on; it is allocated where its bit is set, the first bit being that of block
/// 9.
pub proof fn law_vault_invariant(v: virtual_volume::VolumeView, block_idx: nat)
    ensures
        v.wf() <==> {
            &&& v.key.len() == 32
            &&& v.bitmap.len() == 32768
            &&& 9 <= v.total_blocks <= 262153
            &&& v.free_blocks == v.allocated().filter(|set: bool| !set).len()
            &&& v.unsynced < 10
        },
        v.is_data_block(block_idx) <==> 9 <= block_idx < v.total_blocks,
        9 <= v.total_blocks ==> v.data_blocks() == v.total_blocks - 9,
        9 <= v.total_blocks ==> v.allocated().len() == v.total_blocks - 9,
        v.is_data_block(block_idx) ==> v.allocated()[block_idx - 9] == ((v.bitmap[(block_idx - 9) / 8] >> ((
        (block_idx - 9) % 8) as u8)) % 2 == 1),
{
    bitmap::law_clear_count_counts_clear(v.allocated());
    if v.is_data_block(block_idx) {
        bitmap::law_bits_are_of_bytes(v.bitmap, v.data_blocks(), block_idx - 9);
    }
}

/// The key of a block is the HMAC, under the whole master key, of the index in
/// eight bytes and a label. Different blocks have different inputs.
pub proof fn law_block_key_is_of_master_and_index(master_key: Seq<u8>, block1: u64, block2: u64)
    ensures
        ({
            let text = labels::label("blk_key_v1");
            let input1 = encoding::le_bytes(block1 as nat, 8) + text;
            let input2 = encoding::le_bytes(block2 as nat, 8) + text;
            &&& virtual_volume::block_key(master_key, block1 as nat) == crypto::hmac_sha256(master_key, input1)@
            &&& virtual_volume::block_key(master_key, block2 as nat) == crypto::hmac_sha256(master_key, input2)@
            &&& input1 == input2 ==> block1 == block2
        }),
{
    let text = labels::label("blk_key_v1");
    if encoding::le_bytes(block1 as nat, 8) + text == encoding::le_bytes(block2 as nat, 8) + text {
        law_block_key_input_is_unique(block1, block2);
    }
}

/// Writing a block stores a nonce of 12 bytes at its start and, behind it, what
/// the cipher makes of the whole plaintext under that nonce and the key of the
/// block. The times of the file are noted first and put back last.
pub proof fn law_block_write_layout(
    master_key: Seq<u8>,
    block_idx: nat,
    plaintext: Seq<u8>,
    ops: Seq<disk::DiskOpView>,
)
    requires
        virtual_volume::writes_block(master_key, block_idx, plaintext, ops),
    ensures
        ({
            let key = crypto::hmac_sha256(
                master_key,
                encoding::le_bytes(block_idx, 8) + labels::label("blk_key_v1"),
            )@;
            &&& ops.len() == 4
            &&& ops[0] is NoteTimestamps
            &&& ops[1] is WriteAt && ops[1]->WriteAt_offset == block_idx * 4096 && ops[1]->data.len() == 12
            &&& ops[2] is WriteAt && ops[2]->WriteAt_offset == block_idx * 4096 + 12 && ops[2]->data.len() == 4084
            &&& ops[2]->data == crypto::chacha20poly1305_seal(key, ops[1]->data, plaintext)
            &&& crypto::chacha20poly1305_open(key, ops[1]->data, ops[2]->data) == Some(plaintext)
            &&& ops[3] is RestoreTimestamps
        }),
{
    let nonce = choose|nonce: Seq<u8>|
        virtual_volume::seals_block(master_key, block_idx, nonce, plaintext, ops);
    assert(virtual_volume::seals_block(master_key, block_idx, nonce, plaintext, ops));
    let sealed = virtual_volume::block_sealed(master_key, block_idx, nonce, plaintext);
    assert((nonce + sealed).subrange(0, 12) =~= nonce);
    assert((nonce + sealed).subrange(12, 4096) =~= sealed);
}

/// A block decrypts to what the cipher takes out of everything behind its
/// first 12 bytes, under these 12 bytes as the nonce and the key of the block.
pub proof fn law_block_opens_under_its_nonce(
    master_key: Seq<u8>,
    block_idx: nat,
    nonce: Seq<u8>,
    sealed: Seq<u8>,
)
    requires
        nonce.len() == 12,
        sealed.len() == 4084,
    ensures
        virtual_volume::block_opened(master_key, block_idx, nonce + sealed) == crypto::chacha20poly1305_open(
            crypto::hmac_sha256(master_key, encoding::le_bytes(block_idx, 8) + labels::label("blk_key_v1"))@,
            nonce,
            sealed,
        ),
        virtual_volume::block_sealed(master_key, block_idx, nonce, sealed) == crypto::chacha20poly1305_seal(
            crypto::hmac_sha256(master_key, encoding::le_bytes(block_idx, 8) + labels::label("blk_key_v1"))@,
            nonce,
            sealed,
        ),
{
    assert((nonce + sealed).subrange(0, 12) =~= nonce);
    assert((nonce + sealed).subrange(12, 4096) =~= sealed);
}

/// Changing the bit of a block changes that bit only, also among the bits past
/// the last block. The whole new bitmap is written behind the superblock, and
/// the file is flushed every tenth time and not otherwise.
pub proof fn law_bit_change(
    v: virtual_volume::VolumeView,
    block_idx: nat,
    value: bool,
    after: virtual_volume::VolumeView,
    ops: Seq<disk::DiskOpView>,
    other: nat,
    bit: int,
)
    requires
        v.wf(),
        v.changes_bit(block_idx, value, after, ops),
    ensures
        9 <= block_idx < v.total_blocks,
        v.allocated()[block_idx - 9] == !value,
        after.allocated()[block_idx - 9] == value,
        9 <= other < v.total_blocks && other != block_idx ==> after.allocated()[other - 9] == v.allocated()[other
            - 9],
        0 <= bit < 262144 && bit != block_idx - 9 ==> bitmap::bits(after.bitmap, 262144)[bit] == bitmap::bits(
            v.bitmap,
            262144,
        )[bit],
        value ==> after.free_blocks == v.free_blocks - 1,
        !value ==> after.free_blocks == v.free_blocks + 1,
        after.key == v.key,
        after.path == v.path,
        after.total_blocks == v.total_blocks,
        after.unsynced == (v.unsynced + 1) % 10,
        ops.len() == (if v.unsynced == 9 { 4int } else { 3int }),
        ops[0] is NoteTimestamps,
        ops[1] is WriteAt && ops[1]->WriteAt_offset == 4096 && ops[1]->data == after.bitmap,
        v.unsynced == 9 ==> ops[2] is SyncAll,
        ops[ops.len() - 1] is RestoreTimestamps,
{
}

/// A raw write is one write of all the bytes at the place of the block, a raw
/// read one read of 4096 bytes there.
pub proof fn law_raw_access_is_at_block(block_idx: nat, data: Seq<u8>)
    ensures
        virtual_volume::raw_write_ops(block_idx, data).len() == 3,
        virtual_volume::raw_write_ops(block_idx, data)[1] == (disk::DiskOpView::WriteAt {
            offset: block_idx * 4096,
            data,
        }),
        virtual_volume::raw_read_ops(block_idx).len() == 3,
        virtual_volume::raw_read_ops(block_idx)[1] == (disk::DiskOpView::ReadAt {
            offset: block_idx * 4096,
            len: 4096,
        }),
{
}

} // verus!
