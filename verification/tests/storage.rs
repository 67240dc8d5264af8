use secure_core::disk::DiskOp;
use secure_core::disk_wipe::{purge_entire_vault, WipeAction};
use secure_core::init_module::{generate_and_persist_id_stamp, install_root, persist_id_stamp, read_id_stamp, Pairing};
use secure_core::root_state::RootState;
use secure_core::vault::{
    block_span, canary_payload, canary_slots_intact, finish_secure_erase, init_canary_slots, read_vault_blocks,
    secure_erase_block, validate_canary_slots, write_vault_blocks, CanaryState,
};
use secure_core::virtual_volume::{
    read_superblock, write_superblock, OpenPlan, SuperblockInfo, VirtualVolume, VolumeError, VolumeErrorKind,
    BITMAP_SIZE, BLOCK_SIZE, DATA_START_BLOCK, MAX_DATA_BLOCKS, NONCE_SIZE, PAYLOAD_SIZE,
};

/// A vault file in memory.
struct Disk {
    bytes: Vec<u8>,
    syncs: usize,
    clock: u64,
    atime: u64,
    mtime: u64,
    noted: Option<(u64, u64)>,
}

impl Disk {
    fn new() -> Disk {
        Disk { bytes: Vec::new(), syncs: 0, clock: 0, atime: 0, mtime: 0, noted: None }
    }

    /// Carries the operations out and returns what was read. Reading and writing
    /// change the times of the file.
    fn run(&mut self, ops: &[DiskOp]) -> Vec<u8> {
        let mut read: Vec<u8> = Vec::new();
        for op in ops {
            self.clock += 1;
            match op {
                DiskOp::SetLen(n) => {
                    self.bytes.resize(*n as usize, 0);
                    self.mtime = self.clock;
                }
                DiskOp::WriteAt { offset, data } => {
                    let at: usize = *offset as usize;
                    self.bytes[at..at + data.len()].copy_from_slice(data);
                    self.mtime = self.clock;
                }
                DiskOp::ReadAt { offset, len } => {
                    let at: usize = *offset as usize;
                    read.extend_from_slice(&self.bytes[at..at + *len as usize]);
                    self.atime = self.clock;
                }
                DiskOp::SyncAll => self.syncs += 1,
                DiskOp::NoteTimestamps => self.noted = Some((self.atime, self.mtime)),
                DiskOp::RestoreTimestamps => {
                    let (atime, mtime) = self.noted.unwrap();
                    self.atime = atime;
                    self.mtime = mtime;
                }
            }
        }
        read
    }

    fn times(&self) -> (u64, u64) {
        (self.atime, self.mtime)
    }

    fn block(&self, idx: u64) -> [u8; 4096] {
        let at: usize = idx as usize * 4096;
        self.bytes[at..at + 4096].try_into().unwrap()
    }

    fn bitmap(&self) -> Vec<u8> {
        self.bytes[4096..4096 + BITMAP_SIZE].to_vec()
    }

    fn open(&mut self, key: &[u8; 32], total: u64) -> Result<VirtualVolume, VolumeError> {
        let exists: bool = !self.bytes.is_empty();
        match VirtualVolume::open_or_create("vault.sec", key, total, exists, Some(self.bytes.len() as u64))? {
            OpenPlan::OpenExisting => {
                VirtualVolume::open_existing("vault.sec", key, &self.block(0), self.bitmap())
            }
            OpenPlan::CreateNew { volume, ops, .. } => {
                self.run(&ops);
                Ok(volume)
            }
        }
    }

    fn allocate(&mut self, v: &mut VirtualVolume) -> Result<u64, VolumeError> {
        let (idx, ops) = v.allocate_block()?;
        self.run(&ops);
        Ok(idx)
    }

    fn write(&mut self, v: &VirtualVolume, idx: u64, payload: &[u8; PAYLOAD_SIZE]) -> Result<(), VolumeError> {
        let ops = v.write_block(idx, payload)?;
        self.run(&ops);
        Ok(())
    }

    fn read(&self, v: &VirtualVolume, idx: u64, out: &mut [u8; PAYLOAD_SIZE]) -> Result<(), VolumeError> {
        v.read_block(idx, &self.block(idx), out)
    }
}

fn dummy_master_key() -> [u8; 32] {
    let mut k = [0u8; 32];
    k[0] = 0x42;
    k[31] = 0xFF;
    k
}

// ---------------------------------------------------------------------------
// Volume
// ---------------------------------------------------------------------------

#[test]
fn create_and_reopen_vault() {
    let mut disk = Disk::new();
    let mk = dummy_master_key();
    {
        let v = disk.open(&mk, 16).unwrap();
        assert_eq!(v.data_blocks(), 16);
        assert_eq!(v.free_blocks(), 16);
        assert_eq!(v.total_blocks(), DATA_START_BLOCK + 16);
    }

    // Re-open with the same key — must succeed.
    {
        let v = disk.open(&mk, 0).unwrap();
        assert_eq!(v.data_blocks(), 16);
    }

    // Re-open with a different key — must fail.
    let mut bad_key = mk;
    bad_key[0] ^= 0x01;
    {
        let result = disk.open(&bad_key, 0);
        assert!(result.is_err());
        assert_eq!(result.err(), Some(VolumeError::WrongKey));
    }
}

#[test]
fn write_and_read_block() {
    let mut disk = Disk::new();
    let mk = dummy_master_key();
    let mut v = disk.open(&mk, 16).unwrap();

    let blk: u64 = disk.allocate(&mut v).unwrap();
    let payload = [0xABu8; PAYLOAD_SIZE];
    disk.write(&v, blk, &payload).unwrap();

    let mut out = [0u8; PAYLOAD_SIZE];
    disk.read(&v, blk, &mut out).unwrap();
    assert_eq!(out, payload);
}

#[test]
fn allocate_exhausts_and_frees() {
    let mut disk = Disk::new();
    let mk = dummy_master_key();
    let mut v = disk.open(&mk, 4).unwrap();

    let _b0: u64 = disk.allocate(&mut v).unwrap();
    let b1: u64 = disk.allocate(&mut v).unwrap();
    let _b2: u64 = disk.allocate(&mut v).unwrap();
    let _b3: u64 = disk.allocate(&mut v).unwrap();

    assert_eq!(v.free_blocks(), 0);
    assert!(disk.allocate(&mut v).is_err());

    v.free_block(b1).unwrap();
    assert_eq!(v.free_blocks(), 1);

    let b1_again: u64 = disk.allocate(&mut v).unwrap();
    assert_eq!(b1_again, b1); // should reuse the freed slot
}

#[test]
fn block_write_then_reread_roundtrip() {
    let mut disk = Disk::new();
    let mk = dummy_master_key();
    let mut v = disk.open(&mk, 8).unwrap();

    // Allocate all 8 blocks and write distinct patterns.
    let mut allocated: Vec<(u64, [u8; PAYLOAD_SIZE])> = vec![];
    for i in 0..8u8 {
        let blk: u64 = disk.allocate(&mut v).unwrap();
        let mut payload = [0u8; PAYLOAD_SIZE];
        payload[0] = i;
        payload[PAYLOAD_SIZE - 1] = i.wrapping_mul(17);
        disk.write(&v, blk, &payload).unwrap();
        allocated.push((blk, payload));
    }

    // Read back and verify.
    for (blk, expected) in &allocated {
        let mut out = [0u8; PAYLOAD_SIZE];
        disk.read(&v, *blk, &mut out).unwrap();
        assert_eq!(&out, expected, "mismatch on block {}", blk);
    }
}

#[test]
fn sizes_fit_together() {
    assert_eq!(PAYLOAD_SIZE + NONCE_SIZE + 16, BLOCK_SIZE);
    assert_eq!(BITMAP_SIZE as u64 * 8, MAX_DATA_BLOCKS);
    assert_eq!(DATA_START_BLOCK, 9);
}

#[test]
fn too_many_blocks_are_refused() {
    let mk = dummy_master_key();
    let plan = VirtualVolume::open_or_create("v", &mk, 262_145, false, None);
    let err = plan.err().unwrap();
    assert_eq!(err, VolumeError::TooManyBlocks { requested: 262_145 });
    assert_eq!(err.kind(), VolumeErrorKind::InvalidInput);
    // The number is ignored where a vault is there.
    assert!(VirtualVolume::open_or_create("v", &mk, 262_145, true, Some(5)).is_ok());
    assert!(VirtualVolume::open_or_create("v", &mk, 262_145, true, Some(0)).is_err());
    assert!(VirtualVolume::open_or_create("v", &mk, 262_144, false, None).is_ok());
}

#[test]
fn empty_remnant_is_created_anew() {
    let mk = dummy_master_key();
    let plan = VirtualVolume::open_or_create("v", &mk, 4, true, Some(0)).ok().unwrap();
    assert!(matches!(plan, OpenPlan::CreateNew { remove_remnant: true, .. }));
    let plan = VirtualVolume::open_or_create("v", &mk, 4, true, None).ok().unwrap();
    assert!(matches!(plan, OpenPlan::CreateNew { remove_remnant: true, .. }));
    let plan = VirtualVolume::open_or_create("v", &mk, 4, false, None).ok().unwrap();
    assert!(matches!(plan, OpenPlan::CreateNew { remove_remnant: false, .. }));
    let plan = VirtualVolume::open_or_create("v", &mk, 4, true, Some(1)).ok().unwrap();
    assert!(matches!(plan, OpenPlan::OpenExisting));
}

#[test]
fn new_vault_is_laid_out() {
    let mut disk = Disk::new();
    let mk = dummy_master_key();
    let v = disk.open(&mk, 16).unwrap();
    assert_eq!(v.vault_path(), "vault.sec");
    assert_eq!(v.data_start_block(), 9);
    assert_eq!(disk.bytes.len(), 25 * 4096);
    assert_eq!(disk.syncs, 1);
    let sb = disk.block(0);
    assert_eq!(&sb[..24], &[0x33, 0x43, 0x45, 0x53, 3, 0, 0, 0, 25, 0, 0, 0, 0, 0, 0, 0, 16, 0, 0, 0, 0, 0, 0, 0]);
    let hash: [u8; 32] = [
        0xe5, 0xab, 0xd7, 0x27, 0x5b, 0x17, 0x46, 0xac, 0x8d, 0xbb, 0x3c, 0x81, 0xe3, 0x52, 0x87, 0x05, 0xfa, 0xf7, 0x6e,
        0x50, 0x99, 0x73, 0xce, 0xcd, 0xd2, 0x0c, 0x23, 0x68, 0x84, 0xf4, 0x7a, 0x87,
    ];
    assert_eq!(&sb[24..56], &hash);
    assert!(sb[56..].iter().all(|b| *b == 0));
    assert_eq!(v.master_key_hash(&sb), Ok(hash));
    let err = v.master_key_hash(&[0u8; 4096]).err().unwrap();
    assert_eq!(err, VolumeError::SuperblockCorrupted);
    assert_eq!(err.kind(), VolumeErrorKind::InvalidData);
}

#[test]
fn superblock_is_read_as_written() {
    let mut raw = [0xffu8; 4096];
    let info = SuperblockInfo { version: 0x0102_0304, total_blocks: u64::MAX, free_blocks: 77, master_key_hash: [9u8; 32] };
    write_superblock(&mut raw, &info);
    let back = read_superblock(&raw).unwrap();
    assert_eq!(back.version, 0x0102_0304);
    assert_eq!(back.total_blocks, u64::MAX);
    assert_eq!(back.free_blocks, 77);
    assert_eq!(back.master_key_hash, [9u8; 32]);
    raw[0] ^= 1;
    assert!(read_superblock(&raw).is_none());
}

#[test]
fn broken_superblocks_are_refused() {
    let mut disk = Disk::new();
    let mk = dummy_master_key();
    disk.open(&mk, 16).unwrap();
    let good = disk.block(0);
    let mut bad = good;
    bad[3] ^= 1;
    let err = VirtualVolume::open_existing("v", &mk, &bad, disk.bitmap()).err().unwrap();
    assert_eq!(err, VolumeError::BadMagic);
    assert_eq!(err.kind(), VolumeErrorKind::InvalidData);
    assert_eq!(VirtualVolume::check_superblock(&bad, &mk).err(), Some(VolumeError::BadMagic));

    let mut small = good;
    small[8] = 8;
    let err = VirtualVolume::open_existing("v", &mk, &small, disk.bitmap()).err().unwrap();
    assert_eq!(err, VolumeError::TotalOutOfRange);
    assert_eq!(err.kind(), VolumeErrorKind::InvalidData);
    let mut large = good;
    large[15] = 1;
    let err = VirtualVolume::open_existing("v", &mk, &large, disk.bitmap()).err().unwrap();
    assert_eq!(err, VolumeError::TotalOutOfRange);

    assert_eq!(VirtualVolume::check_superblock(&good, &[0u8; 32]).err(), Some(VolumeError::WrongKey));
    assert_eq!(VolumeError::WrongKey.kind(), VolumeErrorKind::PermissionDenied);
    assert_eq!(VolumeError::EncryptionFailed.kind(), VolumeErrorKind::Other);
}

#[test]
fn reopened_vault_has_the_same_blocks_allocated() {
    let mut disk = Disk::new();
    let mk = dummy_master_key();
    let mut v = disk.open(&mk, 20).unwrap();
    for _ in 0..11 {
        disk.allocate(&mut v).unwrap();
    }
    let ops = v.free_block(12).unwrap();
    disk.run(&ops);
    let ops = v.reserve_block(27).unwrap();
    disk.run(&ops);
    assert_eq!(v.free_blocks(), 9);
    // The superblock still names the number of free blocks from the start.
    assert_eq!(read_superblock(&disk.block(0)).unwrap().free_blocks, 20);

    let mut again = disk.open(&mk, 0).unwrap();
    assert_eq!(again.free_blocks(), 9);
    assert_eq!(again.total_blocks(), 29);
    assert_eq!(disk.allocate(&mut again), Ok(12));
    assert_eq!(disk.allocate(&mut again), Ok(20));
}

#[test]
fn sealed_block_is_the_known_one() {
    let mut disk = Disk::new();
    let mk = dummy_master_key();
    let v = disk.open(&mk, 16).unwrap();
    let nonce: [u8; 12] = [0, 1, 2, 3, 4, 5, 6, 7, 8, 9, 10, 11];
    let ops = v.seal_block(9, &nonce, &[0xabu8; PAYLOAD_SIZE]).unwrap();
    disk.run(&ops);
    let raw = disk.block(9);
    assert_eq!(&raw[..12], &nonce);
    assert_eq!(
        &raw[12..28],
        &[0x4c, 0x82, 0x4f, 0x4e, 0xcc, 0xe2, 0x1f, 0x1b, 0x1b, 0x45, 0x1e, 0x17, 0xd1, 0xda, 0x46, 0xd4]
    );
    assert_eq!(
        &raw[4080..],
        &[0x62, 0x3e, 0xc6, 0xcf, 0x1b, 0xa2, 0xe2, 0xd9, 0x05, 0x2b, 0x9e, 0x95, 0x0d, 0x89, 0x43, 0x93]
    );
}

#[test]
fn blocks_are_bound_to_their_place() {
    let mut disk = Disk::new();
    let mk = dummy_master_key();
    let v = disk.open(&mk, 4).unwrap();
    disk.write(&v, 9, &[1u8; PAYLOAD_SIZE]).unwrap();
    let raw = disk.block(9);
    let mut out = [7u8; PAYLOAD_SIZE];
    let err = v.read_block(10, &raw, &mut out).err().unwrap();
    assert_eq!(err, VolumeError::DecryptionFailed);
    assert_eq!(err.kind(), VolumeErrorKind::InvalidData);
    assert_eq!(out, [7u8; PAYLOAD_SIZE]);
    let mut altered = raw;
    altered[2000] ^= 1;
    assert_eq!(v.read_block(9, &altered, &mut out), Err(VolumeError::DecryptionFailed));
    // A block that was never written does not decrypt.
    assert_eq!(disk.read(&v, 11, &mut out), Err(VolumeError::DecryptionFailed));
    // Two writes use different nonces.
    disk.write(&v, 9, &[1u8; PAYLOAD_SIZE]).unwrap();
    assert_ne!(disk.block(9), raw);
}

#[test]
fn blocks_outside_the_data_range_are_refused() {
    let mut disk = Disk::new();
    let mk = dummy_master_key();
    let mut v = disk.open(&mk, 4).unwrap();
    let mut out = [7u8; PAYLOAD_SIZE];
    for idx in [0u64, 8, 13, u64::MAX] {
        let expected = VolumeError::OutsideDataRange { block_idx: idx, total_blocks: 13 };
        assert_eq!(v.read_block(idx, &[0u8; 4096], &mut out), Err(expected));
        assert_eq!(v.write_block(idx, &out).err(), Some(expected));
        assert_eq!(v.read_block_raw(idx).err(), Some(expected));
        assert_eq!(v.write_block_raw(idx, &[0u8; 4096]).err(), Some(expected));
        assert_eq!(v.reserve_block(idx).err(), Some(expected));
        assert_eq!(v.free_block(idx).err(), Some(expected));
        assert_eq!(expected.kind(), VolumeErrorKind::InvalidInput);
    }
    assert!(v.read_block_raw(12).is_ok());
    v.register_touch(9, 3);
    assert_eq!(v.free_blocks(), 4);
}

#[test]
fn raw_blocks_are_stored_as_they_are() {
    let mut disk = Disk::new();
    let v = disk.open(&dummy_master_key(), 4).unwrap();
    let ops = v.write_block_raw(10, &[0x5au8; 4096]).unwrap();
    assert_eq!(ops.len(), 3);
    disk.run(&ops);
    let ops = v.read_block_raw(10).unwrap();
    assert_eq!(disk.run(&ops), vec![0x5au8; 4096]);
    assert_eq!(&disk.bytes[10 * 4096..11 * 4096], &[0x5au8; 4096][..]);
}

#[test]
fn file_shows_no_activity() {
    let mut disk = Disk::new();
    let mut v = disk.open(&dummy_master_key(), 40).unwrap();
    let times = disk.times();
    let size: usize = disk.bytes.len();
    for _ in 0..12 {
        disk.allocate(&mut v).unwrap();
        assert_eq!(disk.times(), times);
    }
    let bitmap = disk.bitmap();
    disk.write(&v, 9, &[1u8; PAYLOAD_SIZE]).unwrap();
    assert_eq!(disk.times(), times);
    let ops = v.write_block_raw(10, &[2u8; 4096]).unwrap();
    disk.run(&ops);
    assert_eq!(disk.times(), times);
    let ops = v.read_block_raw(9).unwrap();
    disk.run(&ops);
    assert_eq!(disk.times(), times);
    assert_eq!(disk.bitmap(), bitmap);
    let ops = v.free_block(9).unwrap();
    disk.run(&ops);
    let ops = v.reserve_block(9).unwrap();
    disk.run(&ops);
    assert_eq!(disk.times(), times);
    assert_eq!(disk.bytes.len(), size);
}

#[test]
fn free_blocks_cannot_be_freed() {
    let mut disk = Disk::new();
    let mut v = disk.open(&dummy_master_key(), 4).unwrap();
    let err = v.free_block(9).err().unwrap();
    assert_eq!(err, VolumeError::AlreadyFree { block_idx: 9 });
    assert_eq!(err.kind(), VolumeErrorKind::InvalidInput);
    assert_eq!(disk.allocate(&mut v), Ok(9));
    assert!(v.free_block(9).is_ok());
    assert!(v.free_block(9).is_err());
    assert_eq!(v.free_blocks(), 4);
    assert_eq!(VolumeError::NoFreeBlocks.kind(), VolumeErrorKind::StorageFull);
}

#[test]
fn reserved_blocks_are_not_allocated() {
    let mut disk = Disk::new();
    let mut v = disk.open(&dummy_master_key(), 4).unwrap();
    assert_eq!(v.reserve_block(10).unwrap().len(), 3);
    assert_eq!(v.reserve_block(10).unwrap().len(), 0);
    assert_eq!(v.free_blocks(), 3);
    assert_eq!(disk.allocate(&mut v), Ok(9));
    assert_eq!(disk.allocate(&mut v), Ok(11));
    assert_eq!(disk.allocate(&mut v), Ok(12));
    assert_eq!(disk.allocate(&mut v), Err(VolumeError::NoFreeBlocks));
}

#[test]
fn every_tenth_bitmap_write_is_flushed() {
    let mut disk = Disk::new();
    let mut v = disk.open(&dummy_master_key(), 40).unwrap();
    assert_eq!(disk.syncs, 1);
    for i in 1..=30usize {
        disk.allocate(&mut v).unwrap();
        assert_eq!(disk.syncs, 1 + i / 10);
    }
}

// ---------------------------------------------------------------------------
// Runs of blocks
// ---------------------------------------------------------------------------

#[test]
fn runs_of_blocks_are_read_as_written() {
    let mut disk = Disk::new();
    let v = disk.open(&dummy_master_key(), 4).unwrap();
    let mut data: Vec<u8> = Vec::new();
    for i in 0..5u8 {
        data.extend_from_slice(&[i + 1; PAYLOAD_SIZE]);
    }
    assert_eq!(block_span(&v, 10, 5), 3);
    assert_eq!(block_span(&v, 10, 2), 2);
    assert_eq!(block_span(&v, 8, 5), 0);
    assert_eq!(block_span(&v, u64::MAX, 5), 0);
    // Only three of the five blocks are data blocks.
    let batches = write_vault_blocks(&v, 10, 5, &data);
    assert_eq!(batches.len(), 3);
    for ops in &batches {
        disk.run(ops);
    }
    let raws = vec![disk.block(10), disk.block(11), disk.block(12)];
    let mut out = vec![0xeeu8; 5 * PAYLOAD_SIZE];
    assert_eq!(read_vault_blocks(&v, 10, 5, &raws, &mut out), 3);
    assert_eq!(&out[..3 * PAYLOAD_SIZE], &data[..3 * PAYLOAD_SIZE]);
    assert!(out[3 * PAYLOAD_SIZE..].iter().all(|b| *b == 0xee));
    // Reading stops at the first block that cannot be read.
    let raws = vec![disk.block(9), disk.block(10)];
    assert_eq!(read_vault_blocks(&v, 9, 2, &raws, &mut out[..2 * PAYLOAD_SIZE]), 0);
    let raws = vec![disk.block(11), disk.block(11)];
    assert_eq!(read_vault_blocks(&v, 11, 2, &raws, &mut out[..2 * PAYLOAD_SIZE]), 1);
    assert_eq!(write_vault_blocks(&v, 13, 1, &data[..PAYLOAD_SIZE]).len(), 0);
}

#[test]
fn erased_block_is_overwritten_and_free() {
    let mut disk = Disk::new();
    let mut v = disk.open(&dummy_master_key(), 4).unwrap();
    disk.allocate(&mut v).unwrap();
    disk.write(&v, 9, &[1u8; PAYLOAD_SIZE]).unwrap();
    let ops = secure_erase_block(&v, 9).unwrap();
    disk.run(&ops);
    let (code, ops) = finish_secure_erase(&mut v, 9, true);
    disk.run(&ops);
    assert_eq!(code, 0);
    assert_eq!(v.free_blocks(), 4);
    let mut out = [0u8; PAYLOAD_SIZE];
    disk.read(&v, 9, &mut out).unwrap();
    assert_ne!(out, [1u8; PAYLOAD_SIZE]);
    assert_ne!(out, [0u8; PAYLOAD_SIZE]);

    assert_eq!(finish_secure_erase(&mut v, 9, true).0, 3);
    assert_eq!(secure_erase_block(&v, 8).err(), Some(3));
    disk.allocate(&mut v).unwrap();
    assert_eq!(finish_secure_erase(&mut v, 9, false).0, 3);
    assert_eq!(v.free_blocks(), 3);
}

// ---------------------------------------------------------------------------
// Canaries and identity stamp
// ---------------------------------------------------------------------------

fn canary_blocks(disk: &Disk) -> Vec<Option<[u8; 4096]>> {
    let mut raws: Vec<Option<[u8; 4096]>> = Vec::new();
    for idx in 995u64..=999 {
        raws.push(Some(disk.block(idx)));
    }
    raws
}

#[test]
fn canaries_are_intact_until_touched() {
    let mut disk = Disk::new();
    let mut v = disk.open(&dummy_master_key(), 1000).unwrap();
    let mut state = CanaryState::new();
    assert_eq!(canary_slots_intact(&state), 0);
    assert_eq!(validate_canary_slots(&mut state, &v, &canary_blocks(&disk)), 2);

    let made = init_canary_slots(&mut v);
    assert_eq!(made.code, 0);
    assert_eq!(made.reservations.len(), 6);
    assert_eq!(made.slots.len(), 5);
    assert_eq!(v.free_blocks(), 994);
    for ops in made.reservations.iter().chain(made.slots.iter()) {
        disk.run(ops);
    }
    assert_eq!(validate_canary_slots(&mut state, &v, &canary_blocks(&disk)), 0);
    assert_eq!(canary_slots_intact(&state), 1);
    let mut out = [0u8; PAYLOAD_SIZE];
    disk.read(&v, 997, &mut out).unwrap();
    assert_eq!(&out[..8], b"CANARY\x02\x01");

    let mut raws = canary_blocks(&disk);
    raws[4] = None;
    assert_eq!(validate_canary_slots(&mut state, &v, &raws), 2);
    disk.write(&v, 999, &[0u8; PAYLOAD_SIZE]).unwrap();
    assert_eq!(validate_canary_slots(&mut state, &v, &canary_blocks(&disk)), 2);
    // What has been found out stays.
    assert_eq!(canary_slots_intact(&state), 1);
    // The reserved blocks survive a reopening.
    assert_eq!(disk.open(&dummy_master_key(), 0).unwrap().free_blocks(), 994);
}

#[test]
fn canaries_need_their_blocks() {
    let mut disk = Disk::new();
    let mut v = disk.open(&dummy_master_key(), 988).unwrap();
    let made = init_canary_slots(&mut v);
    assert_eq!(made.code, 2);
    assert_eq!(made.reservations.len(), 3);
    assert_eq!(made.slots.len(), 2);
}

#[test]
fn canary_payload_is_laid_out() {
    let payload = canary_payload(3, &[9u8; 4060]);
    assert_eq!(&payload[..9], b"CANARY\x03\x01\x09");
    assert_eq!(payload[4067], 9);
}

#[test]
fn identity_stamp_is_stored_and_read() {
    let mut disk = Disk::new();
    let v = disk.open(&dummy_master_key(), 1000).unwrap();
    let mut state = RootState::new();
    let mut pairing = Pairing::new();
    install_root(&mut state, &mut pairing, [1u8; 32], &[2u8; 1568]);
    assert_eq!(read_id_stamp(Some(&v), Some(&disk.block(994))), None);
    let ops = generate_and_persist_id_stamp(&state, &pairing, Some(&v)).unwrap();
    disk.run(&ops);
    let stamp = read_id_stamp(Some(&v), Some(&disk.block(994))).unwrap();
    assert_eq!(&stamp[..4], &[0xe9, 0x2d, 0xe5, 0xc4]);

    let ops = persist_id_stamp(Some(&v), &[8u8; 32]).unwrap();
    disk.run(&ops);
    assert_eq!(read_id_stamp(Some(&v), Some(&disk.block(994))), Some([8u8; 32]));
    assert_eq!(read_id_stamp(None, Some(&disk.block(994))), None);
    assert_eq!(read_id_stamp(Some(&v), None), None);
    assert_eq!(persist_id_stamp(None, &[8u8; 32]).err(), Some(1));
    let small = Disk::new().open(&dummy_master_key(), 4).unwrap();
    assert_eq!(persist_id_stamp(Some(&small), &[8u8; 32]).err(), Some(1));
}

// ---------------------------------------------------------------------------
// Destruction
// ---------------------------------------------------------------------------

#[test]
fn wipe_overwrites_twice_and_truncates() {
    let size: usize = 10_000;
    let mut file = vec![0xAAu8; size];
    let mut pos: usize = 0;
    let mut log: Vec<&str> = Vec::new();
    let mut pass: Vec<u8> = Vec::new();
    let mut wipe = purge_entire_vault(size as u64);
    loop {
        match wipe.next_action() {
            WipeAction::SeekStart => {
                pos = 0;
                pass.clear();
                log.push("seek");
            }
            WipeAction::Write(data) => {
                assert!(data.len() <= 4096 && !data.is_empty());
                file[pos..pos + data.len()].copy_from_slice(&data);
                pos += data.len();
                pass.extend_from_slice(&data);
                log.push("write");
            }
            WipeAction::SyncAll => {
                log.push("sync");
                if log.len() == 5 {
                    // The random pass has left nothing of the old bytes.
                    assert_eq!(pos, size);
                    assert_eq!(file, pass);
                    assert_ne!(file, vec![0xAAu8; size]);
                    assert_ne!(file, vec![0u8; size]);
                }
            }
            WipeAction::Truncate => {
                assert_eq!(pos, size);
                assert_eq!(file, vec![0u8; size]);
                file.clear();
                log.push("cut");
            }
            WipeAction::Exit => log.push("exit"),
            WipeAction::Done => break,
        }
    }
    assert!(file.is_empty());
    assert_eq!(
        log,
        vec![
            "seek", "write", "write", "write", "sync", "seek", "write", "write", "write", "sync", "cut", "sync", "exit"
        ]
    );
    assert!(matches!(wipe.next_action(), WipeAction::Done));
}

#[test]
fn purge_destroys_file_contents() {
    // A file with known content.
    let mut file = vec![0xAAu8; 8192];
    assert_eq!(file.len(), 8192);
    let mut pos: usize = 0;
    let mut wipe = purge_entire_vault(8192);
    let mut steps: usize = 0;
    loop {
        steps += 1;
        match wipe.next_action() {
            WipeAction::SeekStart => pos = 0,
            WipeAction::Write(data) => {
                assert_eq!(data.len(), 4096);
                file[pos..pos + 4096].copy_from_slice(&data);
                pos += 4096;
            }
            WipeAction::SyncAll => {}
            WipeAction::Truncate => {
                assert!(file.iter().all(|b| *b == 0));
                file.clear();
            }
            WipeAction::Exit => {}
            WipeAction::Done => break,
        }
    }
    assert!(file.is_empty());
    assert_eq!(steps, 12);
}

#[test]
fn empty_file_needs_no_wipe() {
    let mut wipe = purge_entire_vault(0);
    assert!(matches!(wipe.next_action(), WipeAction::Done));
}
