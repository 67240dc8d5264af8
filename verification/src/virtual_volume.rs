//! The vault: an encrypted block store inside a single file.
//!
//! Block 0 is the superblock, blocks 1 to 8 hold one allocation bit per data
//! block, and the data blocks follow. Every data block is encrypted on its own
//! with a key derived from the master key and the block's index.
//!
//! A volume keeps the allocation state and decides what is written where; the
//! caller owns the file and carries the operations out.

use vstd::prelude::*;
use crate::bitmap;
use crate::crypto;
use crate::disk;
use crate::disk::DiskOp;
use crate::encoding;
use crate::encoding::{array_at, push_all, push_le, read_le, write_at};
use crate::labels;

verus! {

/// Every disk access uses blocks of this many bytes.
pub const BLOCK_SIZE: usize = 4096;

/// Plaintext bytes that a block holds beside its nonce and its tag.
pub const PAYLOAD_SIZE: usize = 4068;

/// Bytes of the nonce at the start of a block.
pub const NONCE_SIZE: usize = 12;

/// Number in bytes 0 to 3 of the superblock that marks a vault.
pub const SUPERBLOCK_MAGIC: u32 = 0x5345_4333;

/// Version of the vault format.
pub const VAULT_VERSION: u32 = 3;

/// First block of the bitmap.
pub const BITMAP_START_BLOCK: u64 = 1;

/// Number of blocks of the bitmap.
pub const BITMAP_BLOCKS: u64 = 8;

/// Number of bytes of the bitmap.
pub const BITMAP_SIZE: usize = 32768;

/// First data block.
pub const DATA_START_BLOCK: u64 = 9;

/// Largest number of data blocks that the bitmap can track.
pub const MAX_DATA_BLOCKS: u64 = 262144;

/// Every so many bitmap writes the file is flushed to durable media.
pub const SYNC_INTERVAL: u32 = 10;

// ---------------------------------------------------------------------------
// Errors
// ---------------------------------------------------------------------------

/// Why a volume refuses a request.
#[derive(Clone, Copy, Debug, PartialEq, Eq, Structural)]
pub enum VolumeError {
    /// More data blocks were asked for than the bitmap can track.
    TooManyBlocks { requested: u64 },
    /// The file does not start with a vault superblock.
    BadMagic,
    /// The master key is not the one that created the vault.
    WrongKey,
    /// The superblock names an impossible number of blocks.
    TotalOutOfRange,
    /// The block is not a data block of this vault.
    OutsideDataRange { block_idx: u64, total_blocks: u64 },
    /// The block was not written by this vault, or has been altered.
    DecryptionFailed,
    /// The cipher refused the plaintext.
    EncryptionFailed,
    /// Every data block is allocated.
    NoFreeBlocks,
    /// The block to be freed is free.
    AlreadyFree { block_idx: u64 },
    /// The superblock can no longer be read.
    SuperblockCorrupted,
}

/// The class of a `VolumeError`.
#[derive(Clone, Copy, Debug, PartialEq, Eq, Structural)]
pub enum VolumeErrorKind {
    InvalidInput,
    InvalidData,
    PermissionDenied,
    StorageFull,
    Other,
}

impl VolumeError {
    /// The class of this error.
    pub fn kind(self) -> (kind: VolumeErrorKind)
        ensures
            kind is InvalidInput <==> self is TooManyBlocks || self is OutsideDataRange || self is AlreadyFree,
            kind is InvalidData <==> self is BadMagic || self is TotalOutOfRange || self is DecryptionFailed
                || self is SuperblockCorrupted,
            kind is PermissionDenied <==> self is WrongKey,
            kind is StorageFull <==> self is NoFreeBlocks,
            kind is Other <==> self is EncryptionFailed,
    {
        match self {
            VolumeError::TooManyBlocks { .. } => VolumeErrorKind::InvalidInput,
            VolumeError::BadMagic => VolumeErrorKind::InvalidData,
            VolumeError::WrongKey => VolumeErrorKind::PermissionDenied,
            VolumeError::TotalOutOfRange => VolumeErrorKind::InvalidData,
            VolumeError::OutsideDataRange { .. } => VolumeErrorKind::InvalidInput,
            VolumeError::DecryptionFailed => VolumeErrorKind::InvalidData,
            VolumeError::EncryptionFailed => VolumeErrorKind::Other,
            VolumeError::NoFreeBlocks => VolumeErrorKind::StorageFull,
            VolumeError::AlreadyFree { .. } => VolumeErrorKind::InvalidInput,
            VolumeError::SuperblockCorrupted => VolumeErrorKind::InvalidData,
        }
    }
}

// ---------------------------------------------------------------------------
// Superblock
// ---------------------------------------------------------------------------

/// The fields of the superblock.
///
/// | offset | size | field             |
/// |--------|------|-------------------|
/// | 0      | 4    | magic             |
/// | 4      | 4    | `version`         |
/// | 8      | 8    | `total_blocks`    |
/// | 16     | 8    | `free_blocks`     |
/// | 24     | 32   | `master_key_hash` |
/// | 56     | 4040 | zeros             |
pub struct SuperblockInfo {
    pub version: u32,
    pub total_blocks: u64,
    pub free_blocks: u64,
    pub master_key_hash: [u8; 32],
}

/// The superblock that holds these fields.
pub open spec fn superblock_bytes(version: nat, total_blocks: nat, free_blocks: nat, key_hash: Seq<u8>) -> Seq<u8> {
    encoding::le_bytes(SUPERBLOCK_MAGIC as nat, 4) + encoding::le_bytes(version, 4) + encoding::le_bytes(total_blocks, 8) + encoding::le_bytes(
        free_blocks,
        8,
    ) + key_hash + crypto::zeros(4040)
}

/// The magic number of a superblock.
pub open spec fn superblock_magic(raw: Seq<u8>) -> nat {
    encoding::le_value(raw.subrange(0, 4))
}

/// The number of blocks that a superblock names.
pub open spec fn superblock_total(raw: Seq<u8>) -> nat {
    encoding::le_value(raw.subrange(8, 16))
}

/// The key hash that a superblock holds.
pub open spec fn superblock_key_hash(raw: Seq<u8>) -> Seq<u8> {
    raw.subrange(24, 56)
}

/// `sb` holds the fields of the superblock `raw`.
pub open spec fn has_fields_of(sb: SuperblockInfo, raw: Seq<u8>) -> bool {
    &&& sb.version as nat == encoding::le_value(raw.subrange(4, 8))
    &&& sb.total_blocks as nat == superblock_total(raw)
    &&& sb.free_blocks as nat == encoding::le_value(raw.subrange(16, 24))
    &&& sb.master_key_hash@ == superblock_key_hash(raw)
}

/// Reads a superblock; `None` where the magic number is missing.
pub fn read_superblock(raw: &[u8; BLOCK_SIZE]) -> (info: Option<SuperblockInfo>)
    ensures
        info is Some <==> superblock_magic(raw@) == SUPERBLOCK_MAGIC,
        info matches Some(sb) ==> has_fields_of(sb, raw@),
{
    let bytes: &[u8] = raw.as_slice();
    let magic: u64 = read_le(bytes, 0, 4);
    if magic != SUPERBLOCK_MAGIC as u64 {
        return None;
    }
    let version: u64 = read_le(bytes, 4, 4);
    proof {
        encoding::lemma_le_bytes_of_value(raw@.subrange(4, 8));
        encoding::lemma_le_range();
    }
    let total_blocks: u64 = read_le(bytes, 8, 8);
    let free_blocks: u64 = read_le(bytes, 16, 8);
    let master_key_hash: [u8; 32] = array_at::<32>(bytes, 24);
    Some(SuperblockInfo { version: version as u32, total_blocks, free_blocks, master_key_hash })
}

/// Writes a superblock.
pub fn write_superblock(raw: &mut [u8; BLOCK_SIZE], info: &SuperblockInfo)
    ensures
        final(raw)@ == superblock_bytes(
            info.version as nat,
            info.total_blocks as nat,
            info.free_blocks as nat,
            info.master_key_hash@,
        ),
{
    broadcast use encoding::lemma_le_bytes_len;

    let mut out: Vec<u8> = Vec::new();
    push_le(&mut out, SUPERBLOCK_MAGIC as u64, 4);
    push_le(&mut out, info.version as u64, 4);
    push_le(&mut out, info.total_blocks, 8);
    push_le(&mut out, info.free_blocks, 8);
    push_all(&mut out, info.master_key_hash.as_slice());
    let ghost head = out@;
    out.resize(4096, 0);
    let ghost full = superblock_bytes(
        info.version as nat,
        info.total_blocks as nat,
        info.free_blocks as nat,
        info.master_key_hash@,
    );
    proof {
        assert(head.len() == 56);
        assert(full =~= head + crypto::zeros(4040));
        assert(out@ =~= full);
    }
    write_at(raw, 0, out.as_slice());
    assert(raw@ =~= full);
}

/// What is read from a written superblock is what was written.
pub proof fn law_superblock_roundtrip(version: u32, total_blocks: u64, free_blocks: u64, key_hash: [u8; 32])
    ensures
        ({
            let raw = superblock_bytes(version as nat, total_blocks as nat, free_blocks as nat, key_hash@);
            &&& raw.len() == BLOCK_SIZE
            &&& superblock_magic(raw) == SUPERBLOCK_MAGIC
            &&& encoding::le_value(raw.subrange(4, 8)) == version
            &&& superblock_total(raw) == total_blocks
            &&& encoding::le_value(raw.subrange(16, 24)) == free_blocks
            &&& superblock_key_hash(raw) == key_hash@
        }),
{
    broadcast use encoding::lemma_le_bytes_len;

    encoding::lemma_le_range();
    let raw = superblock_bytes(version as nat, total_blocks as nat, free_blocks as nat, key_hash@);
    let magic = encoding::le_bytes(SUPERBLOCK_MAGIC as nat, 4);
    let ver = encoding::le_bytes(version as nat, 4);
    let total = encoding::le_bytes(total_blocks as nat, 8);
    let free = encoding::le_bytes(free_blocks as nat, 8);
    assert(raw.subrange(0, 4) =~= magic);
    assert(raw.subrange(4, 8) =~= ver);
    assert(raw.subrange(8, 16) =~= total);
    assert(raw.subrange(16, 24) =~= free);
    assert(raw.subrange(24, 56) =~= key_hash@);
    encoding::lemma_le_value_of_bytes(SUPERBLOCK_MAGIC as nat, 4);
    encoding::lemma_le_value_of_bytes(version as nat, 4);
    encoding::lemma_le_value_of_bytes(total_blocks as nat, 8);
    encoding::lemma_le_value_of_bytes(free_blocks as nat, 8);
}

// ---------------------------------------------------------------------------
// Block encryption
// ---------------------------------------------------------------------------

/// The hash of a master key that a superblock holds.
pub open spec fn key_hash(master_key: Seq<u8>) -> Seq<u8> {
    crypto::sha256(master_key)@
}

/// What tells the key of one block from that of another.
pub open spec fn block_key_input(block_idx: nat) -> Seq<u8> {
    encoding::le_bytes(block_idx, 8) + labels::label("blk_key_v1")
}

/// The key of one block.
pub open spec fn block_key(master_key: Seq<u8>, block_idx: nat) -> Seq<u8> {
    crypto::hmac_sha256(master_key, block_key_input(block_idx))@
}

/// Ciphertext and tag of a block.
pub open spec fn block_sealed(master_key: Seq<u8>, block_idx: nat, nonce: Seq<u8>, plaintext: Seq<u8>) -> Seq<u8> {
    crypto::chacha20poly1305_seal(block_key(master_key, block_idx), nonce, plaintext)
}

/// What a block of the file decrypts to: its first 12 bytes are the nonce, the
/// others ciphertext and tag.
pub open spec fn block_opened(master_key: Seq<u8>, block_idx: nat, raw: Seq<u8>) -> Option<Seq<u8>> {
    crypto::chacha20poly1305_open(block_key(master_key, block_idx), raw.subrange(0, 12), raw.subrange(12, 4096))
}

/// The operations that store `plaintext` in a block under `nonce`.
pub open spec fn block_write_ops(
    master_key: Seq<u8>,
    block_idx: nat,
    nonce: Seq<u8>,
    plaintext: Seq<u8>,
) -> Seq<disk::DiskOpView> {
    seq![
        disk::DiskOpView::NoteTimestamps,
        disk::DiskOpView::WriteAt { offset: block_idx * 4096, data: nonce },
        disk::DiskOpView::WriteAt {
            offset: block_idx * 4096 + 12,
            data: block_sealed(master_key, block_idx, nonce, plaintext),
        },
        disk::DiskOpView::RestoreTimestamps,
    ]
}

/// The operations that store the bytes of a block as they are.
pub open spec fn raw_write_ops(block_idx: nat, data: Seq<u8>) -> Seq<disk::DiskOpView> {
    seq![
        disk::DiskOpView::NoteTimestamps,
        disk::DiskOpView::WriteAt { offset: block_idx * 4096, data },
        disk::DiskOpView::RestoreTimestamps,
    ]
}

/// The operations that read the bytes of a block as they are.
pub open spec fn raw_read_ops(block_idx: nat) -> Seq<disk::DiskOpView> {
    seq![
        disk::DiskOpView::NoteTimestamps,
        disk::DiskOpView::ReadAt { offset: block_idx * 4096, len: 4096 },
        disk::DiskOpView::RestoreTimestamps,
    ]
}

/// `ops` store `plaintext` in a block under `nonce`, and what they store
/// decrypts to `plaintext` again.
pub open spec fn seals_block(
    master_key: Seq<u8>,
    block_idx: nat,
    nonce: Seq<u8>,
    plaintext: Seq<u8>,
    ops: Seq<disk::DiskOpView>,
) -> bool {
    let sealed = block_sealed(master_key, block_idx, nonce, plaintext);
    &&& nonce.len() == NONCE_SIZE
    &&& ops == block_write_ops(master_key, block_idx, nonce, plaintext)
    &&& sealed.len() == BLOCK_SIZE - NONCE_SIZE
    &&& block_opened(master_key, block_idx, nonce + sealed) == Some(plaintext)
}

/// `ops` store `plaintext` in a block under some nonce.
pub open spec fn writes_block(
    master_key: Seq<u8>,
    block_idx: nat,
    plaintext: Seq<u8>,
    ops: Seq<disk::DiskOpView>,
) -> bool {
    exists|nonce: Seq<u8>| seals_block(master_key, block_idx, nonce, plaintext, ops)
}

/// SHA-256 of the master key. It is kept in the superblock, so that a wrong
/// key is found before anything is decrypted.
fn hash_master_key(key: &[u8; 32]) -> (hash: [u8; 32])
    ensures
        hash@ == key_hash(key@),
        hash@ == crypto::sha256(key@)@,
{
    crypto::sha256_digest(key.as_slice())
}

/// The key of one block, independent of the keys of all others.
fn derive_block_key(master: &[u8; 32], block_idx: u64) -> (key: [u8; 32])
    ensures
        key@ == block_key(master@, block_idx as nat),
        key@ == crypto::hmac_sha256(
            master@,
            encoding::le_bytes(block_idx as nat, 8) + labels::label("blk_key_v1"),
        )@,
{
    let mut message: Vec<u8> = Vec::new();
    push_le(&mut message, block_idx, 8);
    push_all(&mut message, labels::label_bytes("blk_key_v1"));
    proof {
        reveal_strlit("blk_key_v1");
        labels::lemma_label("blk_key_v1");
        encoding::lemma_le_bytes_len(block_idx as nat, 8);
        assert(message@ =~= block_key_input(block_idx as nat));
    }
    crypto::hmac_sha256_tag(master.as_slice(), message.as_slice())
}

// ---------------------------------------------------------------------------
// The volume
// ---------------------------------------------------------------------------

/// A vault, seen as mathematical values.
#[verifier::ext_equal]
pub ghost struct VolumeView {
    /// The master key.
    pub key: Seq<u8>,
    /// Number of all blocks, metadata and data.
    pub total_blocks: nat,
    /// Number of data blocks that are not allocated.
    pub free_blocks: nat,
    /// The bytes of the bitmap.
    pub bitmap: Seq<u8>,
    /// Path of the vault file.
    pub path: Seq<char>,
    /// Bitmap writes since the file was last flushed.
    pub unsynced: nat,
}

impl VolumeView {
    /// Number of data blocks.
    pub open spec fn data_blocks(self) -> nat {
        (self.total_blocks - DATA_START_BLOCK) as nat
    }

    /// For each data block, whether it is allocated.
    pub open spec fn allocated(self) -> Seq<bool> {
        bitmap::bits(self.bitmap, self.data_blocks())
    }

    /// All bits of the bitmap, also those past the last data block.
    pub open spec fn all_bits(self) -> Seq<bool> {
        bitmap::bits(self.bitmap, MAX_DATA_BLOCKS as nat)
    }

    /// `block_idx` is a data block.
    pub open spec fn is_data_block(self, block_idx: nat) -> bool {
        DATA_START_BLOCK <= block_idx < self.total_blocks
    }

    /// What every operation keeps: the bitmap covers the data blocks, and the
    /// number of free blocks is the number of clear bits.
    pub open spec fn wf(self) -> bool {
        &&& self.key.len() == 32
        &&& self.bitmap.len() == BITMAP_SIZE
        &&& DATA_START_BLOCK <= self.total_blocks <= DATA_START_BLOCK + MAX_DATA_BLOCKS
        &&& self.free_blocks == bitmap::clear_count(self.allocated())
        &&& self.unsynced < SYNC_INTERVAL
    }

    /// This volume with another bitmap, which has been written out once more.
    pub open spec fn with_bitmap(self, bitmap: Seq<u8>) -> VolumeView {
        VolumeView {
            bitmap,
            free_blocks: bitmap::clear_count(bitmap::bits(bitmap, self.data_blocks())),
            unsynced: if self.unsynced + 1 == SYNC_INTERVAL { 0 } else { self.unsynced + 1 },
            ..self
        }
    }

    /// The operations that write out `bitmap` in place of this volume's own:
    /// every tenth time the file is flushed too.
    pub open spec fn bitmap_write_ops(self, bitmap: Seq<u8>) -> Seq<disk::DiskOpView> {
        let write = disk::DiskOpView::WriteAt { offset: 4096, data: bitmap };
        if self.unsynced + 1 == SYNC_INTERVAL {
            seq![
                disk::DiskOpView::NoteTimestamps,
                write,
                disk::DiskOpView::SyncAll,
                disk::DiskOpView::RestoreTimestamps,
            ]
        } else {
            seq![disk::DiskOpView::NoteTimestamps, write, disk::DiskOpView::RestoreTimestamps]
        }
    }

    /// The bit of data block `block_idx` becomes `value` and nothing else
    /// changes but the count of free blocks; the new bitmap is written out.
    pub open spec fn changes_bit(
        self,
        block_idx: nat,
        value: bool,
        after: VolumeView,
        ops: Seq<disk::DiskOpView>,
    ) -> bool {
        let i = block_idx - DATA_START_BLOCK;
        &&& self.is_data_block(block_idx)
        &&& self.allocated()[i] == !value
        &&& after == self.with_bitmap(after.bitmap)
        &&& after.wf()
        &&& after.all_bits() == self.all_bits().update(i, value)
        &&& after.allocated() == self.allocated().update(i, value)
        &&& after.free_blocks == self.free_blocks + (if value { -1int } else { 1int })
        &&& ops == self.bitmap_write_ops(after.bitmap)
        &&& disk::restores_times(ops)
    }
}

/// A virtual file system inside one preallocated file.
pub struct VirtualVolume {
    master_key: [u8; 32],
    total_blocks: u64,
    free_blocks: u64,
    /// One bit per data block, set where the block is allocated.
    block_bitmap: Vec<u8>,
    vault_path: String,
    /// Bitmap writes since the last flush.
    bitmap_write_count: u32,
}

impl View for VirtualVolume {
    type V = VolumeView;

    closed spec fn view(&self) -> VolumeView {
        VolumeView {
            key: self.master_key@,
            total_blocks: self.total_blocks as nat,
            free_blocks: self.free_blocks as nat,
            bitmap: self.block_bitmap@,
            path: self.vault_path@,
            unsynced: self.bitmap_write_count as nat,
        }
    }
}

/// What is to be done to open a vault.
pub enum OpenPlan {
    /// The file holds a vault: read it and call `open_existing`.
    OpenExisting,
    /// Create the file, after removing an empty remnant where there is one,
    /// and carry out `ops`.
    CreateNew { remove_remnant: bool, volume: VirtualVolume, ops: Vec<DiskOp> },
}

/// The volume that a new vault starts with.
pub open spec fn new_volume(path: Seq<char>, master_key: Seq<u8>, data_blocks: nat) -> VolumeView {
    VolumeView {
        key: master_key,
        total_blocks: DATA_START_BLOCK as nat + data_blocks,
        free_blocks: data_blocks,
        bitmap: crypto::zeros(BITMAP_SIZE as nat),
        path,
        unsynced: 0,
    }
}

/// The operations that make an empty file a new vault.
pub open spec fn new_volume_ops(master_key: Seq<u8>, data_blocks: nat) -> Seq<disk::DiskOpView> {
    let total = DATA_START_BLOCK as nat + data_blocks;
    seq![
        disk::DiskOpView::SetLen(total * 4096),
        disk::DiskOpView::WriteAt {
            offset: 0,
            data: superblock_bytes(VAULT_VERSION as nat, total, data_blocks, key_hash(master_key)),
        },
        disk::DiskOpView::WriteAt { offset: 4096, data: crypto::zeros(BITMAP_SIZE as nat) },
        disk::DiskOpView::SyncAll,
    ]
}

/// Why the superblock `raw` is refused for `master_key`, before the bitmap is
/// read.
pub open spec fn superblock_error(master_key: Seq<u8>, raw: Seq<u8>) -> Option<VolumeError> {
    if superblock_magic(raw) != SUPERBLOCK_MAGIC {
        Some(VolumeError::BadMagic)
    } else if key_hash(master_key) != superblock_key_hash(raw) {
        Some(VolumeError::WrongKey)
    } else {
        None
    }
}

/// Why a vault is refused for `master_key`; `None` where it opens.
pub open spec fn open_error(master_key: Seq<u8>, raw: Seq<u8>) -> Option<VolumeError> {
    if superblock_error(master_key, raw) is Some {
        superblock_error(master_key, raw)
    } else if !(DATA_START_BLOCK <= superblock_total(raw) <= DATA_START_BLOCK + MAX_DATA_BLOCKS) {
        Some(VolumeError::TotalOutOfRange)
    } else {
        None
    }
}

/// The volume that opens from a superblock and a bitmap. The number of free
/// blocks is counted in the bitmap, whatever the superblock says of it.
pub open spec fn opened_volume(path: Seq<char>, master_key: Seq<u8>, raw: Seq<u8>, bitmap: Seq<u8>) -> VolumeView {
    let data_blocks = (superblock_total(raw) - DATA_START_BLOCK) as nat;
    VolumeView {
        key: master_key,
        total_blocks: superblock_total(raw),
        free_blocks: bitmap::clear_count(bitmap::bits(bitmap, data_blocks)),
        bitmap,
        path,
        unsynced: 0,
    }
}

impl VirtualVolume {
    // -----------------------------------------------------------------------
    // Construction
    // -----------------------------------------------------------------------

    /// Decides how to open the vault at `path`, of which the file system says
    /// whether it exists and, where it can tell, how long it is.
    ///
    /// A missing or empty file becomes a new vault of `total_data_blocks` data
    /// blocks. That number is ignored where a vault is there already: its
    /// superblock counts.
    pub fn open_or_create(
        path: &str,
        master_key: &[u8; 32],
        total_data_blocks: u64,
        exists: bool,
        file_len: Option<u64>,
    ) -> (plan: Result<OpenPlan, VolumeError>)
        ensures
            ({
                let is_vault = exists && file_len is Some && file_len != Some(0u64);
                match plan {
                    Ok(OpenPlan::OpenExisting) => is_vault,
                    Ok(OpenPlan::CreateNew { remove_remnant, volume, ops }) => {
                        &&& !is_vault
                        &&& total_data_blocks <= MAX_DATA_BLOCKS
                        &&& remove_remnant == exists
                        &&& volume@ == new_volume(path@, master_key@, total_data_blocks as nat)
                        &&& volume@.wf()
                        &&& disk::views(ops@) == new_volume_ops(master_key@, total_data_blocks as nat)
                    },
                    Err(e) => {
                        &&& !is_vault
                        &&& total_data_blocks > MAX_DATA_BLOCKS
                        &&& e == VolumeError::TooManyBlocks { requested: total_data_blocks }
                    },
                }
            }),
    {
        let is_empty: bool = match file_len {
            Some(len) => len == 0,
            None => true,
        };
        if exists && !is_empty {
            return Ok(OpenPlan::OpenExisting);
        }
        if total_data_blocks > MAX_DATA_BLOCKS {
            return Err(VolumeError::TooManyBlocks { requested: total_data_blocks });
        }
        let (volume, ops) = Self::create_new(path, master_key, total_data_blocks);
        Ok(OpenPlan::CreateNew { remove_remnant: exists, volume, ops })
    }

    /// A new vault, and the operations that lay it out in its file. The file
    /// gets its full length at once and keeps it.
    fn create_new(path: &str, master_key: &[u8; 32], total_data_blocks: u64) -> (made: (Self, Vec<DiskOp>))
        requires
            total_data_blocks <= MAX_DATA_BLOCKS,
        ensures
            made.0@ == new_volume(path@, master_key@, total_data_blocks as nat),
            made.0@.wf(),
            disk::views(made.1@) == new_volume_ops(master_key@, total_data_blocks as nat),
    {
        let total_blocks: u64 = DATA_START_BLOCK + total_data_blocks;
        assert(total_blocks * 4096 <= u64::MAX);
        let total_size: u64 = total_blocks * BLOCK_SIZE as u64;

        let info = SuperblockInfo {
            version: VAULT_VERSION,
            total_blocks,
            free_blocks: total_data_blocks,
            master_key_hash: hash_master_key(master_key),
        };
        let mut raw: [u8; BLOCK_SIZE] = [0u8; 4096];
        write_superblock(&mut raw, &info);

        let bitmap: Vec<u8> = vec![0u8; BITMAP_SIZE];
        let bitmap_copy: Vec<u8> = vec![0u8; BITMAP_SIZE];
        let ghost empty = crypto::zeros(BITMAP_SIZE as nat);
        assert(bitmap@ =~= empty);
        assert(bitmap_copy@ =~= empty);

        let ops: Vec<DiskOp> = vec![
            DiskOp::SetLen(total_size),
            DiskOp::WriteAt { offset: 0, data: vstd::slice::slice_to_vec(raw.as_slice()) },
            DiskOp::WriteAt { offset: BITMAP_START_BLOCK * BLOCK_SIZE as u64, data: bitmap_copy },
            DiskOp::SyncAll,
        ];
        assert(disk::views(ops@) =~= new_volume_ops(master_key@, total_data_blocks as nat));

        let volume = VirtualVolume {
            master_key: *master_key,
            total_blocks,
            free_blocks: total_data_blocks,
            block_bitmap: bitmap,
            vault_path: path.to_string(),
            bitmap_write_count: 0,
        };
        proof {
            bitmap::lemma_zero_bits(empty, total_data_blocks as nat);
        }
        (volume, ops)
    }

    /// Reads the superblock `raw` and holds the master key against it.
    pub fn check_superblock(raw: &[u8; BLOCK_SIZE], master_key: &[u8; 32]) -> (info: Result<SuperblockInfo, VolumeError>)
        ensures
            match info {
                Ok(sb) => superblock_error(master_key@, raw@) is None && has_fields_of(sb, raw@),
                Err(e) => superblock_error(master_key@, raw@) == Some(e),
            },
            info is Ok ==> crypto::sha256(master_key@)@ == raw@.subrange(24, 56),
    {
        let sb: SuperblockInfo = match read_superblock(raw) {
            Some(sb) => sb,
            None => {
                return Err(VolumeError::BadMagic);
            },
        };
        let key_hash: [u8; 32] = hash_master_key(master_key);
        if !encoding::equal_bytes(&key_hash, &sb.master_key_hash) {
            return Err(VolumeError::WrongKey);
        }
        Ok(sb)
    }

    /// Opens a vault from the superblock and the bitmap of its file.
    pub fn open_existing(
        path: &str,
        master_key: &[u8; 32],
        raw: &[u8; BLOCK_SIZE],
        bitmap: Vec<u8>,
    ) -> (opened: Result<Self, VolumeError>)
        requires
            bitmap@.len() == BITMAP_SIZE,
        ensures
            match opened {
                Ok(volume) => {
                    &&& open_error(master_key@, raw@) is None
                    &&& volume@ == opened_volume(path@, master_key@, raw@, bitmap@)
                    &&& volume@.wf()
                },
                Err(e) => open_error(master_key@, raw@) == Some(e),
            },
            opened is Ok ==> crypto::sha256(master_key@)@ == raw@.subrange(24, 56),
    {
        let sb: SuperblockInfo = match Self::check_superblock(raw, master_key) {
            Ok(sb) => sb,
            Err(e) => {
                return Err(e);
            },
        };
        if sb.total_blocks < DATA_START_BLOCK || sb.total_blocks > DATA_START_BLOCK + MAX_DATA_BLOCKS {
            return Err(VolumeError::TotalOutOfRange);
        }
        let total_data: usize = (sb.total_blocks - DATA_START_BLOCK) as usize;
        let actual_free: u64 = bitmap::count_clear(&bitmap, total_data);
        Ok(
            VirtualVolume {
                master_key: *master_key,
                total_blocks: sb.total_blocks,
                free_blocks: actual_free,
                block_bitmap: bitmap,
                vault_path: path.to_string(),
                bitmap_write_count: 0,
            },
        )
    }

    // -----------------------------------------------------------------------
    // Block access
    // -----------------------------------------------------------------------

    /// Refuses everything but data blocks of this vault.
    fn check_data_block(&self, block_idx: u64) -> (checked: Result<(), VolumeError>)
        ensures
            checked is Ok <==> self@.is_data_block(block_idx as nat),
            checked matches Err(e) ==> e == (VolumeError::OutsideDataRange {
                block_idx,
                total_blocks: self@.total_blocks as u64,
            }),
    {
        if block_idx < DATA_START_BLOCK || block_idx >= self.total_blocks {
            return Err(VolumeError::OutsideDataRange { block_idx, total_blocks: self.total_blocks });
        }
        Ok(())
    }

    /// Decrypts the block `raw` of the file into `out`.
    ///
    /// Layout of a block: nonce of 12 bytes, ciphertext, tag of 16 bytes. A
    /// block that decrypts is one that was sealed for its place in this vault.
    pub fn read_block(
        &self,
        block_idx: u64,
        raw: &[u8; BLOCK_SIZE],
        out: &mut [u8; PAYLOAD_SIZE],
    ) -> (outcome: Result<(), VolumeError>)
        requires
            self@.wf(),
        ensures
            match outcome {
                Ok(()) => {
                    &&& self@.is_data_block(block_idx as nat)
                    &&& block_opened(self@.key, block_idx as nat, raw@) == Some(final(out)@)
                    &&& raw@ == raw@.subrange(0, 12) + block_sealed(
                        self@.key,
                        block_idx as nat,
                        raw@.subrange(0, 12),
                        final(out)@,
                    )
                },
                Err(e) => {
                    &&& *final(out) == *old(out)
                    &&& if self@.is_data_block(block_idx as nat) {
                        &&& block_opened(self@.key, block_idx as nat, raw@) is None
                        &&& e == VolumeError::DecryptionFailed
                    } else {
                        e == (VolumeError::OutsideDataRange { block_idx, total_blocks: self@.total_blocks as u64 })
                    }
                },
            },
    {
        if let Err(e) = self.check_data_block(block_idx) {
            return Err(e);
        }
        let stored_nonce: [u8; NONCE_SIZE] = array_at::<12>(raw.as_slice(), 0);
        let ciphertext: &[u8] = encoding::slice_part(raw.as_slice(), NONCE_SIZE, BLOCK_SIZE);
        let key: [u8; 32] = derive_block_key(&self.master_key, block_idx);
        match crypto::chacha20poly1305_decrypt(&key, &stored_nonce, ciphertext) {
            Ok(plaintext) => {
                write_at(out, 0, plaintext.as_slice());
                assert(out@ =~= plaintext@);
                assert(raw@ =~= raw@.subrange(0, 12) + raw@.subrange(12, 4096));
                Ok(())
            },
            Err(_) => Err(VolumeError::DecryptionFailed),
        }
    }

    /// Encrypts `plaintext` for a block under a fresh random nonce. Size and times
    /// of the file are the same after the write as before it.
    pub fn write_block(&self, block_idx: u64, plaintext: &[u8; PAYLOAD_SIZE]) -> (ops: Result<Vec<DiskOp>, VolumeError>)
        requires
            self@.wf(),
        ensures
            match ops {
                Ok(list) => {
                    &&& self@.is_data_block(block_idx as nat)
                    &&& writes_block(self@.key, block_idx as nat, plaintext@, disk::views(list@))
                    &&& crypto::drawn(disk::views(list@)[1]->data)
                    &&& disk::restores_times(disk::views(list@))
                },
                Err(e) => {
                    &&& !self@.is_data_block(block_idx as nat)
                    &&& e == (VolumeError::OutsideDataRange { block_idx, total_blocks: self@.total_blocks as u64 })
                },
            },
    {
        if let Err(e) = self.check_data_block(block_idx) {
            return Err(e);
        }
        let mut nonce: [u8; NONCE_SIZE] = [0u8; 12];
        crypto::fill_random(&mut nonce);
        self.seal_block(block_idx, &nonce, plaintext)
    }

    /// Encrypts `plaintext` for a block under the given nonce.
    pub fn seal_block(
        &self,
        block_idx: u64,
        nonce: &[u8; NONCE_SIZE],
        plaintext: &[u8; PAYLOAD_SIZE],
    ) -> (ops: Result<Vec<DiskOp>, VolumeError>)
        requires
            self@.wf(),
        ensures
            match ops {
                Ok(list) => {
                    &&& self@.is_data_block(block_idx as nat)
                    &&& seals_block(self@.key, block_idx as nat, nonce@, plaintext@, disk::views(list@))
                    &&& disk::restores_times(disk::views(list@))
                },
                Err(e) => {
                    &&& !self@.is_data_block(block_idx as nat)
                    &&& e == (VolumeError::OutsideDataRange { block_idx, total_blocks: self@.total_blocks as u64 })
                },
            },
    {
        if let Err(e) = self.check_data_block(block_idx) {
            return Err(e);
        }
        let key: [u8; 32] = derive_block_key(&self.master_key, block_idx);
        let ciphertext: Vec<u8> = match crypto::chacha20poly1305_encrypt(&key, nonce, plaintext) {
            Ok(ciphertext) => ciphertext,
            Err(_) => {
                return Err(VolumeError::EncryptionFailed);
            },
        };
        let disk_offset: u64 = block_idx * BLOCK_SIZE as u64;
        proof {
            let frame = nonce@ + ciphertext@;
            assert(frame.subrange(0, 12) =~= nonce@);
            assert(frame.subrange(12, 4096) =~= ciphertext@);
        }
        let list: Vec<DiskOp> = vec![
            DiskOp::NoteTimestamps,
            DiskOp::WriteAt { offset: disk_offset, data: vstd::slice::slice_to_vec(nonce.as_slice()) },
            DiskOp::WriteAt { offset: disk_offset + NONCE_SIZE as u64, data: ciphertext },
            DiskOp::RestoreTimestamps,
        ];
        assert(disk::views(list@) =~= block_write_ops(self@.key, block_idx as nat, nonce@, plaintext@));
        Ok(list)
    }

    /// Reads the 4096 bytes of a block as they are.
    pub fn read_block_raw(&self, block_idx: u64) -> (ops: Result<Vec<DiskOp>, VolumeError>)
        requires
            self@.wf(),
        ensures
            match ops {
                Ok(list) => {
                    &&& self@.is_data_block(block_idx as nat)
                    &&& disk::views(list@) == raw_read_ops(block_idx as nat)
                    &&& disk::restores_times(disk::views(list@))
                },
                Err(e) => {
                    &&& !self@.is_data_block(block_idx as nat)
                    &&& e == (VolumeError::OutsideDataRange { block_idx, total_blocks: self@.total_blocks as u64 })
                },
            },
    {
        if let Err(e) = self.check_data_block(block_idx) {
            return Err(e);
        }
        let list: Vec<DiskOp> = vec![
            DiskOp::NoteTimestamps,
            DiskOp::ReadAt { offset: block_idx * BLOCK_SIZE as u64, len: BLOCK_SIZE as u64 },
            DiskOp::RestoreTimestamps,
        ];
        assert(disk::views(list@) =~= raw_read_ops(block_idx as nat));
        Ok(list)
    }

    /// Stores 4096 bytes that have been encrypted already.
    pub fn write_block_raw(&self, block_idx: u64, data: &[u8; BLOCK_SIZE]) -> (ops: Result<Vec<DiskOp>, VolumeError>)
        requires
            self@.wf(),
        ensures
            match ops {
                Ok(list) => {
                    &&& self@.is_data_block(block_idx as nat)
                    &&& disk::views(list@) == raw_write_ops(block_idx as nat, data@)
                    &&& disk::restores_times(disk::views(list@))
                },
                Err(e) => {
                    &&& !self@.is_data_block(block_idx as nat)
                    &&& e == (VolumeError::OutsideDataRange { block_idx, total_blocks: self@.total_blocks as u64 })
                },
            },
    {
        if let Err(e) = self.check_data_block(block_idx) {
            return Err(e);
        }
        let list: Vec<DiskOp> = vec![
            DiskOp::NoteTimestamps,
            DiskOp::WriteAt { offset: block_idx * BLOCK_SIZE as u64, data: vstd::slice::slice_to_vec(data.as_slice()) },
            DiskOp::RestoreTimestamps,
        ];
        assert(disk::views(list@) =~= raw_write_ops(block_idx as nat, data@));
        Ok(list)
    }
}

impl VirtualVolume {
    // -----------------------------------------------------------------------
    // Block allocation
    // -----------------------------------------------------------------------

    /// Allocates the lowest free data block and writes the bitmap out.
    pub fn allocate_block(&mut self) -> (allocated: Result<(u64, Vec<DiskOp>), VolumeError>)
        requires
            old(self)@.wf(),
        ensures
            final(self)@.wf(),
            match allocated {
                Ok((block_idx, ops)) => {
                    &&& old(self)@.changes_bit(block_idx as nat, true, final(self)@, disk::views(ops@))
                    &&& forall|i: int| 0 <= i < block_idx - DATA_START_BLOCK ==> old(self)@.allocated()[i]
                },
                Err(e) => {
                    &&& e == VolumeError::NoFreeBlocks
                    &&& old(self)@.free_blocks == 0
                    &&& final(self)@ == old(self)@
                },
            },
    {
        proof {
            bitmap::lemma_clear_count_zero(self@.allocated());
        }
        if self.free_blocks == 0 {
            return Err(VolumeError::NoFreeBlocks);
        }
        let total_data: usize = (self.total_blocks - DATA_START_BLOCK) as usize;
        match bitmap::find_clear(&self.block_bitmap, total_data) {
            Some(bit_idx) => {
                let ops: Vec<DiskOp> = self.assign_block_bit(bit_idx, true);
                Ok((DATA_START_BLOCK + bit_idx as u64, ops))
            },
            None => Err(VolumeError::NoFreeBlocks),
        }
    }

    /// Allocates a given data block. A block that is allocated already stays
    /// so, and nothing is written.
    pub fn reserve_block(&mut self, block_idx: u64) -> (ops: Result<Vec<DiskOp>, VolumeError>)
        requires
            old(self)@.wf(),
        ensures
            final(self)@.wf(),
            match ops {
                Ok(list) => {
                    &&& old(self)@.is_data_block(block_idx as nat)
                    &&& if old(self)@.allocated()[block_idx - DATA_START_BLOCK] {
                        &&& final(self)@ == old(self)@
                        &&& list@.len() == 0
                    } else {
                        old(self)@.changes_bit(block_idx as nat, true, final(self)@, disk::views(list@))
                    }
                },
                Err(e) => {
                    &&& !old(self)@.is_data_block(block_idx as nat)
                    &&& e == (VolumeError::OutsideDataRange { block_idx, total_blocks: old(self)@.total_blocks as u64 })
                    &&& final(self)@ == old(self)@
                },
            },
    {
        if let Err(e) = self.check_data_block(block_idx) {
            return Err(e);
        }
        let bit_idx: usize = (block_idx - DATA_START_BLOCK) as usize;
        if bitmap::test_bit(&self.block_bitmap, bit_idx) {
            assert(self@.allocated()[bit_idx as int]);
            return Ok(Vec::new());
        }
        assert(!self@.allocated()[bit_idx as int]);
        Ok(self.assign_block_bit(bit_idx, true))
    }

    /// Frees an allocated data block and writes the bitmap out.
    pub fn free_block(&mut self, block_idx: u64) -> (ops: Result<Vec<DiskOp>, VolumeError>)
        requires
            old(self)@.wf(),
        ensures
            final(self)@.wf(),
            match ops {
                Ok(list) => old(self)@.changes_bit(block_idx as nat, false, final(self)@, disk::views(list@)),
                Err(e) => {
                    &&& final(self)@ == old(self)@
                    &&& if old(self)@.is_data_block(block_idx as nat) {
                        &&& !old(self)@.allocated()[block_idx - DATA_START_BLOCK]
                        &&& e == (VolumeError::AlreadyFree { block_idx })
                    } else {
                        e == (VolumeError::OutsideDataRange { block_idx, total_blocks: old(self)@.total_blocks as u64 })
                    }
                },
            },
    {
        if let Err(e) = self.check_data_block(block_idx) {
            return Err(e);
        }
        let bit_idx: usize = (block_idx - DATA_START_BLOCK) as usize;
        if !bitmap::test_bit(&self.block_bitmap, bit_idx) {
            assert(!self@.allocated()[bit_idx as int]);
            return Err(VolumeError::AlreadyFree { block_idx });
        }
        assert(self@.allocated()[bit_idx as int]);
        Ok(self.assign_block_bit(bit_idx, false))
    }

    /// Sets or clears the bit of a data block, keeps the count of free blocks
    /// and writes the bitmap out.
    fn assign_block_bit(&mut self, bit_idx: usize, value: bool) -> (ops: Vec<DiskOp>)
        requires
            old(self)@.wf(),
            bit_idx < old(self)@.data_blocks(),
            old(self)@.allocated()[bit_idx as int] == !value,
        ensures
            old(self)@.changes_bit(
                DATA_START_BLOCK as nat + bit_idx as nat,
                value,
                final(self)@,
                disk::views(ops@),
            ),
    {
        let ghost before = self@;
        proof {
            let flags = before.allocated();
            bitmap::lemma_clear_count_update(flags, bit_idx as int, value);
            bitmap::lemma_clear_count_bound(flags);
            bitmap::lemma_clear_count_bound(flags.update(bit_idx as int, value));
        }
        bitmap::assign_bit(&mut self.block_bitmap, bit_idx, value);
        if value {
            self.free_blocks = self.free_blocks - 1;
        } else {
            self.free_blocks = self.free_blocks + 1;
        }
        self.write_bitmap()
    }

    /// Writes the bitmap out. Every tenth time the file is flushed too; the
    /// last flush comes when the vault is closed.
    fn write_bitmap(&mut self) -> (ops: Vec<DiskOp>)
        requires
            old(self)@.unsynced < SYNC_INTERVAL,
        ensures
            final(self)@ == (VolumeView {
                unsynced: if old(self)@.unsynced + 1 == SYNC_INTERVAL { 0 } else { old(self)@.unsynced + 1 },
                ..old(self)@
            }),
            disk::views(ops@) == old(self)@.bitmap_write_ops(old(self)@.bitmap),
    {
        let ghost before = self@;
        let write = DiskOp::WriteAt {
            offset: BITMAP_START_BLOCK * BLOCK_SIZE as u64,
            data: vstd::slice::slice_to_vec(self.block_bitmap.as_slice()),
        };
        self.bitmap_write_count = self.bitmap_write_count + 1;
        let ops: Vec<DiskOp> = if self.bitmap_write_count >= SYNC_INTERVAL {
            self.bitmap_write_count = 0;
            vec![DiskOp::NoteTimestamps, write, DiskOp::SyncAll, DiskOp::RestoreTimestamps]
        } else {
            vec![DiskOp::NoteTimestamps, write, DiskOp::RestoreTimestamps]
        };
        assert(disk::views(ops@) =~= before.bitmap_write_ops(before.bitmap));
        ops
    }

    // -----------------------------------------------------------------------
    // Accessors
    // -----------------------------------------------------------------------

    /// Takes note that a pointer touched a byte of a block. Nothing is kept of
    /// it.
    pub fn register_touch(&mut self, _block_index: u64, _byte_offset: u32)
        ensures
            final(self)@ == old(self)@,
    {
    }

    /// Path of the vault file.
    pub fn vault_path(&self) -> (path: &str)
        ensures
            path@ == self@.path,
    {
        self.vault_path.as_str()
    }

    /// Number of all blocks, metadata and data.
    pub fn total_blocks(&self) -> (n: u64)
        ensures
            n == self@.total_blocks,
    {
        self.total_blocks
    }

    /// Number of data blocks that are free.
    pub fn free_blocks(&self) -> (n: u64)
        ensures
            n == self@.free_blocks,
    {
        self.free_blocks
    }

    /// Index of the first data block.
    pub fn data_start_block(&self) -> (n: u64)
        ensures
            n == DATA_START_BLOCK,
    {
        DATA_START_BLOCK
    }

    /// Number of data blocks.
    pub fn data_blocks(&self) -> (n: u64)
        requires
            self@.wf(),
        ensures
            n == self@.data_blocks(),
    {
        self.total_blocks - DATA_START_BLOCK
    }

    /// The key hash in the superblock `raw` of the vault file.
    pub fn master_key_hash(&self, raw: &[u8; BLOCK_SIZE]) -> (hash: Result<[u8; 32], VolumeError>)
        ensures
            match hash {
                Ok(h) => superblock_magic(raw@) == SUPERBLOCK_MAGIC && h@ == superblock_key_hash(raw@),
                Err(e) => superblock_magic(raw@) != SUPERBLOCK_MAGIC && e == VolumeError::SuperblockCorrupted,
            },
    {
        match read_superblock(raw) {
            Some(sb) => Ok(sb.master_key_hash),
            None => Err(VolumeError::SuperblockCorrupted),
        }
    }
}

impl Drop for VirtualVolume {
    /// Overwrites the master key with zeros.
    fn drop(&mut self)
        ensures
            final(self)@ == (VolumeView { key: crypto::zeros(32), ..old(self)@ }),
        opens_invariants none
        no_unwind
    {
        crypto::zeroize_slice(&mut self.master_key);
    }
}

} // verus!
