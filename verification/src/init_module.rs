//! Initialisation of a session over a direct physical link.
//!
//! Both peers give random bytes. Interleaved and hashed they are the first
//! root key. The identity stamp binds a pairing to that root key and to the
//! key-encapsulation public key of one peer; it goes into the associated data
//! of every message.

use vstd::prelude::*;
use crate::crypto;
use crate::crypto::HASH_INPUT_MAX;
use crate::disk;
use crate::disk::DiskOp;
use crate::encoding::{array_at, push_all, write_at};
use crate::labels;
use crate::root_state;
use crate::root_state::RootState;
use crate::vault::ID_STAMP_BLOCK;
use crate::virtual_volume;
use crate::virtual_volume::{VirtualVolume, BLOCK_SIZE, PAYLOAD_SIZE};
use crate::volume_laws;

verus! {

/// Fewest random bytes that a peer may give.
pub const MIN_ENTROPY_LEN: usize = 64;

/// What is kept of the pairing: the public key that the peer called Bob gave.
pub struct Pairing {
    bob_pk: Vec<u8>,
}

impl View for Pairing {
    type V = Seq<u8>;

    closed spec fn view(&self) -> Seq<u8> {
        self.bob_pk@
    }
}

impl Pairing {
    /// No public key has been received.
    pub fn new() -> (pairing: Self)
        ensures
            pairing@ == Seq::<u8>::empty(),
    {
        Pairing { bob_pk: Vec::new() }
    }
}

/// Keeps Bob's public key.
pub fn store_bob_public_key(pairing: &mut Pairing, pk: &[u8])
    ensures
        final(pairing)@ == pk@,
{
    pairing.bob_pk = vstd::slice::slice_to_vec(pk);
}

// ---------------------------------------------------------------------------
// Entropy
// ---------------------------------------------------------------------------

/// Bytes of Alice and of Bob in turn, as many of each as the shorter gave.
pub open spec fn interleaved(alice: Seq<u8>, bob: Seq<u8>) -> Seq<u8> {
    let n = if alice.len() < bob.len() {
        alice.len()
    } else {
        bob.len()
    };
    Seq::new(
        2 * n,
        |i: int|
            if i % 2 == 0 {
                alice[i / 2]
            } else {
                bob[i / 2]
            },
    )
}

/// The bytes are too few, or all the same.
pub open spec fn is_weak_entropy(data: Seq<u8>) -> bool {
    data.len() < MIN_ENTROPY_LEN || forall|i: int| 0 <= i < data.len() ==> #[trigger] data[i] == data[0]
}

/// The first root key.
pub open spec fn initial_root(alice: Seq<u8>, bob: Seq<u8>) -> Seq<u8> {
    crypto::sha256(labels::label("LinkChat RootState Init") + interleaved(alice, bob))@
}

/// Bytes of Alice and of Bob in turn, as many of each as the shorter gave.
pub fn odd_even_interleave(alice: &[u8], bob: &[u8]) -> (out: Vec<u8>)
    ensures
        out@ == interleaved(alice@, bob@),
{
    let len: usize = if alice.len() < bob.len() {
        alice.len()
    } else {
        bob.len()
    };
    let mut out: Vec<u8> = Vec::new();
    let mut i: usize = 0;
    while i < len
        invariant
            i <= len,
            len <= alice@.len(),
            len <= bob@.len(),
            len == alice@.len() || len == bob@.len(),
            out@ == interleaved(alice@, bob@).subrange(0, 2 * i),
        decreases len - i,
    {
        out.push(alice[i]);
        out.push(bob[i]);
        i = i + 1;
        assert(out@ =~= interleaved(alice@, bob@).subrange(0, 2 * i));
    }
    assert(out@ =~= interleaved(alice@, bob@));
    out
}

/// Interleaving keeps the bytes of both peers, each in its order.
pub proof fn law_interleave_keeps_both(alice: Seq<u8>, bob: Seq<u8>, i: int)
    requires
        0 <= i < alice.len(),
        i < bob.len(),
    ensures
        2 * i + 1 < interleaved(alice, bob).len(),
        interleaved(alice, bob)[2 * i] == alice[i],
        interleaved(alice, bob)[2 * i + 1] == bob[i],
{
}

/// Whether the bytes are too few or all the same, as from a generator that is
/// stuck at a value.
pub fn entropy_reject(data: &[u8]) -> (reject: bool)
    ensures
        reject == is_weak_entropy(data@),
{
    if data.len() < MIN_ENTROPY_LEN {
        return true;
    }
    let first: u8 = data[0];
    let mut i: usize = 0;
    while i < data.len()
        invariant
            i <= data@.len(),
            data@.len() >= MIN_ENTROPY_LEN,
            first == data@[0],
            forall|j: int| 0 <= j < i ==> data@[j] == first,
        decreases data@.len() - i,
    {
        if data[i] != first {
            return false;
        }
        i = i + 1;
    }
    true
}

/// Makes the first root key out of the random bytes of both peers and keeps
/// Bob's public key. The epoch is 0 then. Returns 0; or 2 where one peer's
/// bytes are weak, and 3 where there is no public key, with nothing changed.
pub fn initialise_root_state(
    state: &mut RootState,
    pairing: &mut Pairing,
    alice: &[u8],
    bob: &[u8],
    bob_pk: &[u8],
) -> (code: u32)
    requires
        interleaved(alice@, bob@).len() + 23 <= HASH_INPUT_MAX,
    ensures
        if is_weak_entropy(alice@) || is_weak_entropy(bob@) {
            &&& code == 2
            &&& *final(state) == *old(state)
            &&& *final(pairing) == *old(pairing)
        } else if bob_pk@.len() == 0 {
            &&& code == 3
            &&& *final(state) == *old(state)
            &&& *final(pairing) == *old(pairing)
        } else {
            &&& code == 0
            &&& final(state)@ == (root_state::RootStateView {
                curr: initial_root(alice@, bob@),
                epoch: 0,
                ..old(state)@
            })
            &&& final(pairing)@ == bob_pk@
        },
{
    if entropy_reject(alice) || entropy_reject(bob) {
        return 2;
    }
    let mut mixed: Vec<u8> = odd_even_interleave(alice, bob);
    if mixed.len() < MIN_ENTROPY_LEN {
        crypto::zeroize_vec(&mut mixed);
        return 1;
    }
    if bob_pk.len() == 0 {
        crypto::zeroize_vec(&mut mixed);
        return 3;
    }
    proof {
        reveal_strlit("LinkChat RootState Init");
        labels::lemma_label("LinkChat RootState Init");
    }
    let mut input: Vec<u8> = Vec::new();
    push_all(&mut input, labels::label_bytes("LinkChat RootState Init"));
    push_all(&mut input, mixed.as_slice());
    crypto::zeroize_vec(&mut mixed);
    assert(input@ =~= labels::label("LinkChat RootState Init") + interleaved(alice@, bob@));
    let key: [u8; 32] = crypto::sha256_digest(input.as_slice());
    crypto::zeroize_vec(&mut input);
    install_root(state, pairing, key, bob_pk);
    0
}

/// Starts a session with the given root key and keeps Bob's public key.
pub fn install_root(state: &mut RootState, pairing: &mut Pairing, root: [u8; 32], bob_pk: &[u8])
    ensures
        final(state)@ == (root_state::RootStateView { curr: root@, epoch: 0, ..old(state)@ }),
        final(pairing)@ == bob_pk@,
{
    store_bob_public_key(pairing, bob_pk);
    root_state::set_root_state_curr(state, root);
    root_state::set_epoch_id(state, 0);
}

// ---------------------------------------------------------------------------
// Identity stamp
// ---------------------------------------------------------------------------

/// What the identity stamp is the hash of.
pub open spec fn stamp_input(root: Seq<u8>, bob_pk: Seq<u8>) -> Seq<u8> {
    labels::label("LinkChat ID Stamp") + root + bob_pk
}

/// The identity stamp of a pairing.
pub open spec fn id_stamp(root: Seq<u8>, bob_pk: Seq<u8>) -> Seq<u8> {
    crypto::sha256(stamp_input(root, bob_pk))@
}

/// The payload of the block that holds an identity stamp.
pub open spec fn stamp_payload(stamp: Seq<u8>) -> Seq<u8> {
    stamp + crypto::zeros(4036)
}

/// The identity stamp of a pairing: SHA-256 of a label, the root key and Bob's
/// public key.
pub fn compute_id_stamp(root_state_init: &[u8], bob_pk: &[u8]) -> (stamp: [u8; 32])
    requires
        17 + root_state_init@.len() + bob_pk@.len() <= HASH_INPUT_MAX,
    ensures
        stamp@ == id_stamp(root_state_init@, bob_pk@),
{
    proof {
        reveal_strlit("LinkChat ID Stamp");
        labels::lemma_label("LinkChat ID Stamp");
    }
    let mut input: Vec<u8> = Vec::new();
    push_all(&mut input, labels::label_bytes("LinkChat ID Stamp"));
    push_all(&mut input, root_state_init);
    push_all(&mut input, bob_pk);
    assert(input@ =~= stamp_input(root_state_init@, bob_pk@));
    crypto::sha256_digest(input.as_slice())
}

/// The identity stamp of the current root key and Bob's public key.
pub fn generate_id_stamp_from_curr(state: &RootState, pairing: &Pairing) -> (stamp: [u8; 32])
    requires
        49 + pairing@.len() <= HASH_INPUT_MAX,
    ensures
        stamp@ == id_stamp(state@.curr, pairing@),
{
    let curr: [u8; 32] = root_state::read_root_state_curr(state);
    compute_id_stamp(curr.as_slice(), pairing.bob_pk.as_slice())
}

/// Computes the identity stamp and stores it in its block of the vault. The
/// error is the code 1: there is no vault, or it has no such block.
pub fn generate_and_persist_id_stamp(
    state: &RootState,
    pairing: &Pairing,
    volume: Option<&VirtualVolume>,
) -> (ops: Result<Vec<DiskOp>, u32>)
    requires
        49 + pairing@.len() <= HASH_INPUT_MAX,
        volume matches Some(vol) ==> vol@.wf(),
    ensures
        persists_stamp(volume, id_stamp(state@.curr, pairing@), ops),
        ops matches Ok(list) ==> crypto::drawn(disk::views(list@)[1]->data),
{
    let stamp: [u8; 32] = generate_id_stamp_from_curr(state, pairing);
    persist_id_stamp(volume, &stamp)
}

/// Stores an identity stamp in its block of the vault. The error is the code
/// 1: there is no vault, or it has no such block.
pub fn persist_id_stamp(volume: Option<&VirtualVolume>, stamp: &[u8; 32]) -> (ops: Result<Vec<DiskOp>, u32>)
    requires
        volume matches Some(vol) ==> vol@.wf(),
    ensures
        persists_stamp(volume, stamp@, ops),
        ops matches Ok(list) ==> crypto::drawn(disk::views(list@)[1]->data),
{
    match volume {
        None => Err(1),
        Some(vol) => {
            let mut buf: [u8; PAYLOAD_SIZE] = [0u8; 4068];
            write_at(&mut buf, 0, stamp.as_slice());
            assert(buf@ =~= stamp_payload(stamp@));
            match vol.write_block(ID_STAMP_BLOCK, &buf) {
                Ok(list) => Ok(list),
                Err(_) => Err(1),
            }
        },
    }
}

/// `ops` store `stamp` in its block, or there is no vault with such a block
/// and they are the error code.
pub open spec fn persists_stamp(volume: Option<&VirtualVolume>, stamp: Seq<u8>, ops: Result<Vec<DiskOp>, u32>) -> bool {
    match ops {
        Ok(list) => {
            &&& volume matches Some(vol) && vol@.is_data_block(ID_STAMP_BLOCK as nat)
                && virtual_volume::writes_block(
                vol@.key,
                ID_STAMP_BLOCK as nat,
                stamp_payload(stamp),
                disk::views(list@),
            )
        },
        Err(code) => {
            &&& code == 1
            &&& volume matches Some(vol) ==> !vol@.is_data_block(ID_STAMP_BLOCK as nat)
        },
    }
}

/// Reads the identity stamp out of its block of the vault file. `None` comes
/// where there is no vault, or the block cannot be read.
pub fn read_id_stamp(volume: Option<&VirtualVolume>, raw: Option<&[u8; BLOCK_SIZE]>) -> (stamp: Option<[u8; 32]>)
    requires
        volume matches Some(vol) ==> vol@.wf(),
    ensures
        ({
            let payload = stored_stamp_payload(volume, raw);
            match stamp {
                Some(s) => payload is Some && s@ == payload->Some_0.subrange(0, 32),
                None => payload is None,
            }
        }),
{
    match (volume, raw) {
        (Some(vol), Some(block)) => {
            let mut buf: [u8; PAYLOAD_SIZE] = [0u8; 4068];
            match vol.read_block(ID_STAMP_BLOCK, block, &mut buf) {
                Ok(()) => Some(array_at::<32>(buf.as_slice(), 0)),
                Err(_) => None,
            }
        },
        _ => None,
    }
}

/// What the block of the identity stamp decrypts to.
pub open spec fn stored_stamp_payload(volume: Option<&VirtualVolume>, raw: Option<&[u8; BLOCK_SIZE]>) -> Option<Seq<u8>> {
    match (volume, raw) {
        (Some(vol), Some(block)) => if vol@.is_data_block(ID_STAMP_BLOCK as nat) {
            virtual_volume::block_opened(vol@.key, ID_STAMP_BLOCK as nat, block@)
        } else {
            None
        },
        _ => None,
    }
}

/// The stamp that is read is the stamp that was stored last.
pub proof fn law_stored_stamp_is_read(
    file: Seq<u8>,
    v: virtual_volume::VolumeView,
    stamp: Seq<u8>,
    ops: Seq<disk::DiskOpView>,
)
    requires
        v.wf(),
        volume_laws::holds(file, v),
        v.is_data_block(ID_STAMP_BLOCK as nat),
        stamp.len() == 32,
        virtual_volume::writes_block(v.key, ID_STAMP_BLOCK as nat, stamp_payload(stamp), ops),
    ensures
        ({
            let block = volume_laws::block_of(disk::run(file, ops), ID_STAMP_BLOCK as nat);
            let payload = virtual_volume::block_opened(v.key, ID_STAMP_BLOCK as nat, block);
            payload is Some && payload->Some_0.subrange(0, 32) == stamp
        }),
{
    volume_laws::law_read_after_write(file, v, ID_STAMP_BLOCK as nat, stamp_payload(stamp), ops);
    assert(stamp_payload(stamp).subrange(0, 32) =~= stamp);
}

/// Once the stamp of the current root key and Bob's public key has been
/// stored, reading gives that very stamp.
pub proof fn law_generated_stamp_is_read(
    file: Seq<u8>,
    v: virtual_volume::VolumeView,
    curr: Seq<u8>,
    bob_pk: Seq<u8>,
    ops: Seq<disk::DiskOpView>,
)
    requires
        v.wf(),
        volume_laws::holds(file, v),
        v.is_data_block(ID_STAMP_BLOCK as nat),
        virtual_volume::writes_block(v.key, ID_STAMP_BLOCK as nat, stamp_payload(id_stamp(curr, bob_pk)), ops),
    ensures
        ({
            let block = volume_laws::block_of(disk::run(file, ops), ID_STAMP_BLOCK as nat);
            let payload = virtual_volume::block_opened(v.key, ID_STAMP_BLOCK as nat, block);
            payload is Some && payload->Some_0.subrange(0, 32) == id_stamp(curr, bob_pk)
        }),
{
    law_stored_stamp_is_read(file, v, id_stamp(curr, bob_pk), ops);
}

/// The stamp is bound to the root key and the public key: different pairings
/// hash different inputs.
pub proof fn law_stamp_binds_pairing(root1: Seq<u8>, pk1: Seq<u8>, root2: Seq<u8>, pk2: Seq<u8>)
    requires
        root1.len() == 32,
        root2.len() == 32,
        stamp_input(root1, pk1) == stamp_input(root2, pk2),
    ensures
        root1 == root2,
        pk1 == pk2,
{
    let n = labels::label("LinkChat ID Stamp").len() as int;
    let (a, b) = (stamp_input(root1, pk1), stamp_input(root2, pk2));
    assert(a.subrange(n, n + 32) =~= root1);
    assert(b.subrange(n, n + 32) =~= root2);
    assert(a.subrange(n + 32, a.len() as int) =~= pk1);
    assert(b.subrange(n + 32, b.len() as int) =~= pk2);
}

/// What is interleaved has two bytes for each that the shorter of both gave,
/// and no more.
pub proof fn law_interleave_length(alice: Seq<u8>, bob: Seq<u8>)
    ensures
        alice.len() <= bob.len() ==> interleaved(alice, bob).len() == 2 * alice.len(),
        bob.len() <= alice.len() ==> interleaved(alice, bob).len() == 2 * bob.len(),
{
}

/// Fewer than 64 bytes are weak, and so are bytes that never change. 64 bytes
/// or more, two of which differ, are not.
pub proof fn law_weak_entropy(data: Seq<u8>, i: int, j: int)
    ensures
        data.len() < 64 ==> is_weak_entropy(data),
        data == Seq::new(data.len(), |k: int| data[0]) ==> is_weak_entropy(data),
        data.len() >= 64 && 0 <= i < data.len() && 0 <= j < data.len() && data[i] != data[j] ==> !is_weak_entropy(
            data,
        ),
{
    if data == Seq::new(data.len(), |k: int| data[0]) {
        assert forall|k: int| 0 <= k < data.len() implies #[trigger] data[k] == data[0] by {
            assert(data[k] == Seq::new(data.len(), |k: int| data[0])[k]);
        }
    }
    if data.len() >= 64 && 0 <= i < data.len() && 0 <= j < data.len() && data[i] != data[j] {
        assert(!(data[i] == data[0] && data[j] == data[0]));
    }
}

/// The first root key is the hash of its label and all the interleaved bytes.
/// Different interleaved bytes are different inputs of the hash.
pub proof fn law_first_root_hashes_all_entropy(alice1: Seq<u8>, bob1: Seq<u8>, alice2: Seq<u8>, bob2: Seq<u8>)
    ensures
        ({
            let text = labels::label("LinkChat RootState Init");
            let (mixed1, mixed2) = (interleaved(alice1, bob1), interleaved(alice2, bob2));
            &&& initial_root(alice1, bob1) == crypto::sha256(text + mixed1)@
            &&& text + mixed1 == text + mixed2 ==> mixed1 == mixed2
        }),
{
    let text = labels::label("LinkChat RootState Init");
    let (mixed1, mixed2) = (interleaved(alice1, bob1), interleaved(alice2, bob2));
    if text + mixed1 == text + mixed2 {
        let n = text.len() as int;
        assert((text + mixed1).subrange(n, (text + mixed1).len() as int) =~= mixed1);
        assert((text + mixed2).subrange(n, (text + mixed2).len() as int) =~= mixed2);
    }
}

/// The stamp is the hash of its label, the whole root key and the whole public
/// key. It stands at the front of its block, with zeros behind it.
pub proof fn law_stamp_is_hash_in_front_of_zeros(root: Seq<u8>, bob_pk: Seq<u8>, i: int)
    ensures
        id_stamp(root, bob_pk) == crypto::sha256(labels::label("LinkChat ID Stamp") + root + bob_pk)@,
        stamp_payload(id_stamp(root, bob_pk)).len() == 4068,
        stamp_payload(id_stamp(root, bob_pk)).subrange(0, 32) == id_stamp(root, bob_pk),
        32 <= i < 4068 ==> stamp_payload(id_stamp(root, bob_pk))[i] == 0,
{
    assert(stamp_payload(id_stamp(root, bob_pk)).subrange(0, 32) =~= id_stamp(root, bob_pk));
}

/// A stamp is stored exactly where there is a vault that reaches beyond block
/// 994, and then that block decrypts to a payload with the stamp in front.
pub proof fn law_stamp_is_stored_in_its_block(
    volume: Option<&VirtualVolume>,
    stamp: Seq<u8>,
    ops: Result<Vec<DiskOp>, u32>,
    file: Seq<u8>,
)
    requires
        stamp.len() == 32,
        persists_stamp(volume, stamp, ops),
        volume matches Some(vol) ==> vol@.wf() && volume_laws::holds(file, vol@),
    ensures
        ops is Ok <==> volume is Some && volume->Some_0@.total_blocks > 994,
        ops matches Err(code) ==> code == 1,
        ops matches Ok(list) ==> {
            let end = disk::run(file, disk::views(list@));
            let payload = virtual_volume::block_opened(
                volume->Some_0@.key,
                994,
                end.subrange(4_071_424, 4_075_520),
            );
            payload is Some && payload->Some_0.subrange(0, 32) == stamp
        },
{
    if let Ok(list) = ops {
        law_stored_stamp_is_read(file, volume->Some_0@, stamp, disk::views(list@));
    }
}

/// What is read as the payload of the stamp is what block 994 decrypts to.
pub proof fn law_stamp_is_read_from_its_block(volume: Option<&VirtualVolume>, raw: Option<&[u8; BLOCK_SIZE]>)
    ensures
        stored_stamp_payload(volume, raw) == if volume is Some && raw is Some && 994 < volume->Some_0@.total_blocks {
            virtual_volume::block_opened(volume->Some_0@.key, 994, raw->Some_0@)
        } else {
            None
        },
{
}

} // verus!
