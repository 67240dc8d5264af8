//! Message encryption with keys derived on demand.
//!
//! The key of a message comes from the root key, the epoch and the number of
//! the message; it is used for that message only. A message travels as
//! a nonce of 12 bytes, the ciphertext, and a tag of 16 bytes.
//!
//! Refusing replays is up to the caller: it keeps the largest number it has
//! seen in an epoch.

use vstd::prelude::*;
use crate::crypto;
use crate::crypto::AES_GCM_MAX;
use crate::encoding;
use crate::encoding::{array_at, push_all, push_le, slice_part};
use crate::labels;
use crate::root_state;
use crate::root_state::RootState;

verus! {

/// Version of the protocol that the associated data names.
pub const PROTO_VERSION: u16 = 4;

/// Bytes that encryption adds to a message: nonce and tag.
pub const WIRE_OVERHEAD: usize = 28;

// ---------------------------------------------------------------------------
// Message numbers
// ---------------------------------------------------------------------------

/// The number that the next message of the epoch gets. It is never 0.
pub struct MsgCounter {
    next: u64,
}

impl View for MsgCounter {
    type V = nat;

    closed spec fn view(&self) -> nat {
        self.next as nat
    }
}

impl MsgCounter {
    #[verifier::type_invariant]
    spec fn never_zero(self) -> bool {
        self.next != 0
    }

    /// The first message of an epoch has the number 1.
    pub fn new() -> (counter: Self)
        ensures
            counter@ == 1,
    {
        MsgCounter { next: 1 }
    }
}

/// The number that comes after `n`.
pub open spec fn following(n: nat) -> nat {
    if n == u64::MAX {
        1
    } else {
        n + 1
    }
}

/// Takes the next message number. 0 is left out, as the mark of an unset
/// number.
pub fn next_msg_seq(counter: &mut MsgCounter) -> (seq: u64)
    ensures
        seq == old(counter)@,
        seq != 0,
        final(counter)@ == following(old(counter)@),
{
    proof {
        use_type_invariant(&*counter);
    }
    let seq: u64 = counter.next;
    let following: u64 = if seq == u64::MAX {
        1
    } else {
        seq + 1
    };
    counter.next = following;
    seq
}

/// Starts the message numbers anew.
pub fn reset_msg_counter(counter: &mut MsgCounter)
    ensures
        final(counter)@ == 1,
{
    counter.next = 1;
}

/// The number that the next message gets.
pub fn current_msg_seq(counter: &MsgCounter) -> (seq: u64)
    ensures
        seq == counter@,
        seq != 0,
{
    proof {
        use_type_invariant(counter);
    }
    counter.next
}

/// The counter after `n` messages.
pub open spec fn counter_after(start: nat, n: nat) -> nat
    decreases n,
{
    if n == 0 {
        start
    } else {
        following(counter_after(start, (n - 1) as nat))
    }
}

/// The numbers of an epoch grow from message to message, so none comes twice.
pub proof fn law_msg_seq_grows(m: nat, n: nat)
    requires
        m < n,
        1 + n <= u64::MAX,
    ensures
        counter_after(1, m) < counter_after(1, n),
{
    lemma_counter_after(m);
    lemma_counter_after(n);
}

proof fn lemma_counter_after(n: nat)
    requires
        1 + n <= u64::MAX,
    ensures
        counter_after(1, n) == 1 + n,
    decreases n,
{
    if n > 0 {
        lemma_counter_after((n - 1) as nat);
    }
}

// ---------------------------------------------------------------------------
// Key derivation
// ---------------------------------------------------------------------------

/// What tells one message key from another under the same root key.
pub open spec fn key_info_bytes(epoch: u32, msg_seq: u64) -> Seq<u8> {
    encoding::le_bytes(epoch as nat, 4) + encoding::le_bytes(msg_seq as nat, 8)
}

/// The key of a message.
pub open spec fn message_key(root: Seq<u8>, epoch: u32, msg_seq: u64) -> Seq<u8> {
    crypto::hkdf_sha256(root, labels::label("LinkChat HKDF Expand"), key_info_bytes(epoch, msg_seq))@
}

/// What tells one message key from another under the same root key.
pub fn key_info(epoch: u32, msg_seq: u64) -> (info: [u8; 12])
    ensures
        info@ == key_info_bytes(epoch, msg_seq),
{
    broadcast use encoding::lemma_le_bytes_len;

    let mut bytes: Vec<u8> = Vec::new();
    push_le(&mut bytes, epoch as u64, 4);
    push_le(&mut bytes, msg_seq, 8);
    let info: [u8; 12] = array_at::<12>(bytes.as_slice(), 0);
    assert(info@ =~= key_info_bytes(epoch, msg_seq));
    info
}

/// Derives the key of a message from a given root key.
pub fn derive_message_key_from_root(root: &[u8; 32], epoch: u32, msg_seq: u64) -> (key: [u8; 32])
    ensures
        key@ == message_key(root@, epoch, msg_seq),
        key@ == crypto::hkdf_sha256(
            root@,
            labels::label("LinkChat HKDF Expand"),
            encoding::le_bytes(epoch as nat, 4) + encoding::le_bytes(msg_seq as nat, 8),
        )@,
{
    let info: [u8; 12] = key_info(epoch, msg_seq);
    proof {
        reveal_strlit("LinkChat HKDF Expand");
        labels::lemma_label("LinkChat HKDF Expand");
    }
    crypto::hkdf_sha256_32(root.as_slice(), labels::label_bytes("LinkChat HKDF Expand"), info.as_slice()).unwrap()
}

/// Derives the key of a message from the current root key.
pub fn derive_message_key(state: &RootState, epoch: u32, msg_seq: u64) -> (key: [u8; 32])
    ensures
        key@ == message_key(state@.curr, epoch, msg_seq),
        key@ == crypto::hkdf_sha256(
            state@.curr,
            labels::label("LinkChat HKDF Expand"),
            encoding::le_bytes(epoch as nat, 4) + encoding::le_bytes(msg_seq as nat, 8),
        )@,
{
    let mut curr: [u8; 32] = root_state::read_root_state_curr(state);
    let key: [u8; 32] = derive_message_key_from_root(&curr, epoch, msg_seq);
    crypto::zeroize_slice(&mut curr);
    key
}

/// Different messages of a session get their keys from different inputs.
pub proof fn law_key_info_is_unique(epoch1: u32, seq1: u64, epoch2: u32, seq2: u64)
    requires
        key_info_bytes(epoch1, seq1) == key_info_bytes(epoch2, seq2),
    ensures
        epoch1 == epoch2,
        seq1 == seq2,
{
    broadcast use encoding::lemma_le_bytes_len;

    let (a, b) = (key_info_bytes(epoch1, seq1), key_info_bytes(epoch2, seq2));
    assert(a.subrange(0, 4) =~= encoding::le_bytes(epoch1 as nat, 4));
    assert(b.subrange(0, 4) =~= encoding::le_bytes(epoch2 as nat, 4));
    assert(a.subrange(4, 12) =~= encoding::le_bytes(seq1 as nat, 8));
    assert(b.subrange(4, 12) =~= encoding::le_bytes(seq2 as nat, 8));
    encoding::lemma_le_range();
    encoding::lemma_le_bytes_injective(epoch1 as nat, epoch2 as nat, 4);
    encoding::lemma_le_bytes_injective(seq1 as nat, seq2 as nat, 8);
}

// ---------------------------------------------------------------------------
// Nonce and associated data
// ---------------------------------------------------------------------------

/// What both sides must know of a message beside its key.
pub ghost struct Header {
    /// The identity stamp of the pairing.
    pub id_stamp: Seq<u8>,
    /// The direction of the message.
    pub outgoing: bool,
    /// The epoch of the message.
    pub epoch: u32,
    /// The number of the message in its epoch.
    pub msg_seq: u64,
    /// The time of the message.
    pub timestamp: u64,
}

/// The nonce of a message.
pub open spec fn nonce_bytes(epoch: u32, timestamp: u64, msg_seq: u64) -> Seq<u8> {
    encoding::le_bytes(epoch as nat, 4) + encoding::le_bytes((timestamp ^ msg_seq) as nat, 8)
}

/// The associated data of a message: identity stamp, direction, epoch, number,
/// time and version of the protocol.
pub open spec fn aad_bytes(h: Header) -> Seq<u8> {
    h.id_stamp + seq![if h.outgoing { 0u8 } else { 1u8 }] + encoding::le_bytes(h.epoch as nat, 4) + encoding::le_bytes(
        h.msg_seq as nat,
        8,
    ) + encoding::le_bytes(h.timestamp as nat, 8) + encoding::le_bytes(PROTO_VERSION as nat, 2)
}

/// The nonce of a message.
pub fn build_nonce(epoch: u32, timestamp: u64, msg_seq: u64) -> (nonce: [u8; 12])
    ensures
        nonce@ == nonce_bytes(epoch, timestamp, msg_seq),
{
    broadcast use encoding::lemma_le_bytes_len;

    let mut bytes: Vec<u8> = Vec::new();
    push_le(&mut bytes, epoch as u64, 4);
    push_le(&mut bytes, timestamp ^ msg_seq, 8);
    let nonce: [u8; 12] = array_at::<12>(bytes.as_slice(), 0);
    assert(nonce@ =~= nonce_bytes(epoch, timestamp, msg_seq));
    nonce
}

/// The associated data of a message.
pub fn build_aad(id_stamp: &[u8; 32], outgoing: bool, epoch: u32, msg_seq: u64, timestamp: u64) -> (aad: Vec<u8>)
    ensures
        aad@ == aad_bytes(Header { id_stamp: id_stamp@, outgoing, epoch, msg_seq, timestamp }),
        aad@.len() == 55,
{
    broadcast use encoding::lemma_le_bytes_len;

    let mut aad: Vec<u8> = Vec::new();
    push_all(&mut aad, id_stamp.as_slice());
    aad.push(if outgoing { 0 } else { 1 });
    push_le(&mut aad, epoch as u64, 4);
    push_le(&mut aad, msg_seq, 8);
    push_le(&mut aad, timestamp, 8);
    push_le(&mut aad, PROTO_VERSION as u64, 2);
    assert(aad@ =~= aad_bytes(Header { id_stamp: id_stamp@, outgoing, epoch, msg_seq, timestamp }));
    aad
}

/// The associated data tells messages apart in each of their parts.
pub proof fn law_aad_binds_header(h1: Header, h2: Header)
    requires
        h1.id_stamp.len() == 32,
        h2.id_stamp.len() == 32,
        aad_bytes(h1) == aad_bytes(h2),
    ensures
        h1 == h2,
{
    broadcast use encoding::lemma_le_bytes_len;

    let (a, b) = (aad_bytes(h1), aad_bytes(h2));
    assert(a.subrange(0, 32) =~= h1.id_stamp);
    assert(b.subrange(0, 32) =~= h2.id_stamp);
    assert(a[32] == (if h1.outgoing { 0u8 } else { 1u8 }));
    assert(b[32] == (if h2.outgoing { 0u8 } else { 1u8 }));
    assert(a.subrange(33, 37) =~= encoding::le_bytes(h1.epoch as nat, 4));
    assert(b.subrange(33, 37) =~= encoding::le_bytes(h2.epoch as nat, 4));
    assert(a.subrange(37, 45) =~= encoding::le_bytes(h1.msg_seq as nat, 8));
    assert(b.subrange(37, 45) =~= encoding::le_bytes(h2.msg_seq as nat, 8));
    assert(a.subrange(45, 53) =~= encoding::le_bytes(h1.timestamp as nat, 8));
    assert(b.subrange(45, 53) =~= encoding::le_bytes(h2.timestamp as nat, 8));
    encoding::lemma_le_range();
    encoding::lemma_le_bytes_injective(h1.epoch as nat, h2.epoch as nat, 4);
    encoding::lemma_le_bytes_injective(h1.msg_seq as nat, h2.msg_seq as nat, 8);
    encoding::lemma_le_bytes_injective(h1.timestamp as nat, h2.timestamp as nat, 8);
}

/// The nonce is unique per message: two messages that share the input of
/// their key and their nonce are of the same epoch, number and time.
pub proof fn law_nonce_is_unique_per_message(h1: Header, h2: Header)
    requires
        key_info_bytes(h1.epoch, h1.msg_seq) == key_info_bytes(h2.epoch, h2.msg_seq),
        nonce_bytes(h1.epoch, h1.timestamp, h1.msg_seq) == nonce_bytes(h2.epoch, h2.timestamp, h2.msg_seq),
    ensures
        h1.epoch == h2.epoch,
        h1.msg_seq == h2.msg_seq,
        h1.timestamp == h2.timestamp,
{
    broadcast use encoding::lemma_le_bytes_len;

    law_key_info_is_unique(h1.epoch, h1.msg_seq, h2.epoch, h2.msg_seq);
    let (t1, t2, seq) = (h1.timestamp, h2.timestamp, h1.msg_seq);
    let (a, b) = (nonce_bytes(h1.epoch, t1, seq), nonce_bytes(h2.epoch, t2, seq));
    assert(a.subrange(4, 12) =~= encoding::le_bytes((t1 ^ seq) as nat, 8));
    assert(b.subrange(4, 12) =~= encoding::le_bytes((t2 ^ seq) as nat, 8));
    encoding::lemma_le_range();
    encoding::lemma_le_bytes_injective((t1 ^ seq) as nat, (t2 ^ seq) as nat, 8);
    assert(t1 ^ seq == t2 ^ seq ==> t1 == t2) by (bit_vector);
}

// ---------------------------------------------------------------------------
// Encryption
// ---------------------------------------------------------------------------

/// How a message travels.
pub open spec fn sealed_wire(key: Seq<u8>, h: Header, plaintext: Seq<u8>) -> Seq<u8> {
    let nonce = nonce_bytes(h.epoch, h.timestamp, h.msg_seq);
    nonce + crypto::aes256gcm_seal(key, nonce, aad_bytes(h), plaintext)
}

/// What a message that travelled is decrypted to; `None` where it is refused.
pub open spec fn opened_wire(key: Seq<u8>, h: Header, wire: Seq<u8>) -> Option<Seq<u8>> {
    if wire.len() < WIRE_OVERHEAD {
        None
    } else {
        crypto::aes256gcm_open(key, wire.subrange(0, 12), aad_bytes(h), wire.subrange(12, wire.len() as int))
    }
}

/// Encrypts `plaintext`. The nonce follows from epoch, time and number of the
/// message. `None` comes where the plaintext is longer than the cipher takes.
///
/// Decrypting with the same key and the same parts of the header gives the
/// plaintext back.
pub fn encrypt(
    plaintext: &[u8],
    key: &[u8; 32],
    id_stamp: &[u8; 32],
    outgoing: bool,
    epoch: u32,
    msg_seq: u64,
    timestamp: u64,
) -> (wire: Option<Vec<u8>>)
    ensures
        ({
            let h = Header { id_stamp: id_stamp@, outgoing, epoch, msg_seq, timestamp };
            match wire {
                Some(w) => {
                    &&& plaintext@.len() <= AES_GCM_MAX
                    &&& w@ == sealed_wire(key@, h, plaintext@)
                    &&& w@.len() == plaintext@.len() + WIRE_OVERHEAD
                    &&& opened_wire(key@, h, w@) == Some(plaintext@)
                },
                None => plaintext@.len() > AES_GCM_MAX,
            }
        }),
        wire is Some <==> plaintext@.len() <= 0x10_0000_0000,
{
    if plaintext.len() as u64 > AES_GCM_MAX {
        return None;
    }
    let nonce: [u8; 12] = build_nonce(epoch, timestamp, msg_seq);
    let aad: Vec<u8> = build_aad(id_stamp, outgoing, epoch, msg_seq, timestamp);
    match crypto::aes256gcm_encrypt(key, &nonce, aad.as_slice(), plaintext) {
        Ok(ct) => {
            let out: Vec<u8> = join_wire(&nonce, ct.as_slice());
            proof {
                assert(out@.subrange(0, 12) =~= nonce@);
                assert(out@.subrange(12, out@.len() as int) =~= ct@);
            }
            Some(out)
        },
        Err(_) => None,
    }
}

/// Puts a nonce before ciphertext and tag.
pub fn join_wire(nonce: &[u8; 12], sealed: &[u8]) -> (wire: Vec<u8>)
    ensures
        wire@ == nonce@ + sealed@,
{
    let mut wire: Vec<u8> = Vec::new();
    push_all(&mut wire, nonce.as_slice());
    push_all(&mut wire, sealed);
    assert(wire@ =~= nonce@ + sealed@);
    wire
}

/// Takes a message apart into nonce, and ciphertext and tag. `None` comes
/// where it is too short to hold a nonce and a tag.
pub fn split_wire(wire: &[u8]) -> (parts: Option<([u8; 12], &[u8])>)
    ensures
        match parts {
            Some((nonce, sealed)) => {
                &&& wire@.len() >= WIRE_OVERHEAD
                &&& nonce@ == wire@.subrange(0, 12)
                &&& sealed@ == wire@.subrange(12, wire@.len() as int)
            },
            None => wire@.len() < WIRE_OVERHEAD,
        },
{
    if wire.len() < WIRE_OVERHEAD {
        return None;
    }
    Some((array_at::<12>(wire, 0), slice_part(wire, 12, wire.len())))
}

/// Decrypts a message. `None` comes where it is too short or the tag does not
/// fit the key, the nonce and every part of the header.
///
/// What it accepts is what encrypting the returned plaintext under the nonce
/// of the message gives.
pub fn decrypt(
    wire: &[u8],
    key: &[u8; 32],
    id_stamp: &[u8; 32],
    outgoing: bool,
    epoch: u32,
    msg_seq: u64,
    timestamp: u64,
) -> (plaintext: Option<Vec<u8>>)
    ensures
        ({
            let h = Header { id_stamp: id_stamp@, outgoing, epoch, msg_seq, timestamp };
            match plaintext {
                Some(pt) => {
                    &&& opened_wire(key@, h, wire@) == Some(pt@)
                    &&& wire@.len() == pt@.len() + WIRE_OVERHEAD
                    &&& pt@.len() <= AES_GCM_MAX ==> wire@ == wire@.subrange(0, 12) + crypto::aes256gcm_seal(
                        key@,
                        wire@.subrange(0, 12),
                        aad_bytes(h),
                        pt@,
                    )
                },
                None => opened_wire(key@, h, wire@) is None,
            }
        }),
{
    match split_wire(wire) {
        None => None,
        Some((nonce, sealed)) => {
            let aad: Vec<u8> = build_aad(id_stamp, outgoing, epoch, msg_seq, timestamp);
            match crypto::aes256gcm_decrypt(key, &nonce, aad.as_slice(), sealed) {
                Ok(pt) => {
                    assert(wire@ =~= wire@.subrange(0, 12) + wire@.subrange(12, wire@.len() as int));
                    Some(pt)
                },
                Err(_) => None,
            }
        },
    }
}

/// Overwrites a key with zeros.
pub fn zeroize_key(key: &mut [u8])
    ensures
        final(key)@ == crypto::zeros(old(key)@.len()),
{
    crypto::zeroize_slice(key)
}

// ---------------------------------------------------------------------------
// Decryption across a commit
// ---------------------------------------------------------------------------

/// The peer is one epoch ahead, and a root key is pending here.
pub open spec fn peer_is_ahead(v: root_state::RootStateView, epoch: u32) -> bool {
    v.pend is Some && epoch == v.epoch + 1
}

/// What a message is decrypted to under the current root key.
pub open spec fn opened_with_curr(v: root_state::RootStateView, h: Header, wire: Seq<u8>) -> Option<Seq<u8>> {
    opened_wire(message_key(v.curr, h.epoch, h.msg_seq), h, wire)
}

/// What a message is decrypted to under the pending root key.
pub open spec fn opened_with_pend(v: root_state::RootStateView, h: Header, wire: Seq<u8>) -> Option<Seq<u8>> {
    if peer_is_ahead(v, h.epoch) {
        opened_wire(message_key(v.pend->Some_0, h.epoch, h.msg_seq), h, wire)
    } else {
        None
    }
}

/// The root state after a message has come in.
pub open spec fn after_message(v: root_state::RootStateView, h: Header, wire: Seq<u8>) -> root_state::RootStateView {
    if opened_with_curr(v, h, wire) is None && opened_with_pend(v, h, wire) is Some {
        v.committed()
    } else {
        v
    }
}

/// Decrypts a message with the current root key. Where that fails, and the
/// peer has already committed the evolution that is pending here, decrypts it
/// with the pending root key and commits, so that both sides have the same
/// root state. Returns the plaintext, and whether it committed.
pub fn try_decrypt_with_evolution(
    state: &mut RootState,
    counter: &mut MsgCounter,
    wire: &[u8],
    id_stamp: &[u8; 32],
    outgoing: bool,
    epoch: u32,
    msg_seq: u64,
    timestamp: u64,
) -> (opened: Option<(Vec<u8>, bool)>)
    ensures
        ({
            let h = Header { id_stamp: id_stamp@, outgoing, epoch, msg_seq, timestamp };
            let with_curr = opened_with_curr(old(state)@, h, wire@);
            let with_pend = opened_with_pend(old(state)@, h, wire@);
            &&& final(state)@ == after_message(old(state)@, h, wire@)
            &&& match opened {
                Some((pt, committed)) => {
                    &&& committed == (with_curr is None)
                    &&& Some(pt@) == (if committed { with_pend } else { with_curr })
                    &&& final(counter)@ == (if committed { 1 } else { old(counter)@ })
                },
                None => {
                    &&& with_curr is None
                    &&& with_pend is None
                    &&& final(counter)@ == old(counter)@
                },
            }
        }),
{
    let mut curr: [u8; 32] = root_state::read_root_state_curr(state);
    let mut curr_key: [u8; 32] = derive_message_key_from_root(&curr, epoch, msg_seq);
    let with_curr: Option<Vec<u8>> = decrypt(wire, &curr_key, id_stamp, outgoing, epoch, msg_seq, timestamp);
    crypto::zeroize_slice(&mut curr);
    crypto::zeroize_slice(&mut curr_key);
    let mut with_pend: Option<Vec<u8>> = None;
    if with_curr.is_none() && pending_applies(state, epoch) {
        if let Some(key) = root_state::read_root_state_pend(state) {
            let mut pend: [u8; 32] = key;
            let mut pend_key: [u8; 32] = derive_message_key_from_root(&pend, epoch, msg_seq);
            with_pend = decrypt(wire, &pend_key, id_stamp, outgoing, epoch, msg_seq, timestamp);
            crypto::zeroize_slice(&mut pend);
            crypto::zeroize_slice(&mut pend_key);
        }
    }
    settle_message(state, counter, epoch, with_curr, with_pend)
}

/// Whether the pending root key is to be tried for a message of `epoch`.
pub fn pending_applies(state: &RootState, epoch: u32) -> (applies: bool)
    ensures
        applies == peer_is_ahead(state@, epoch),
{
    let local_epoch: u32 = root_state::read_epoch_id(state);
    local_epoch < u32::MAX && epoch == local_epoch + 1 && root_state::read_root_state_pend(state).is_some()
}

/// Decides what comes of a message of `epoch`, given what it was decrypted to
/// with the current and with the pending root key. The current key comes
/// first; the pending one counts where the peer is ahead, and is committed.
pub fn settle_message(
    state: &mut RootState,
    counter: &mut MsgCounter,
    epoch: u32,
    with_curr: Option<Vec<u8>>,
    with_pend: Option<Vec<u8>>,
) -> (opened: Option<(Vec<u8>, bool)>)
    ensures
        match with_curr {
            Some(pt) => {
                &&& opened == Some((pt, false))
                &&& *final(state) == *old(state)
                &&& *final(counter) == *old(counter)
            },
            None => if with_pend is Some && peer_is_ahead(old(state)@, epoch) {
                &&& opened == Some((with_pend->Some_0, true))
                &&& final(state)@ == old(state)@.committed()
                &&& final(counter)@ == 1
            } else {
                &&& opened is None
                &&& *final(state) == *old(state)
                &&& *final(counter) == *old(counter)
            },
        },
{
    if let Some(pt) = with_curr {
        return Some((pt, false));
    }
    if pending_applies(state, epoch) {
        if let Some(pt) = with_pend {
            let committed: bool = root_state::commit_evolution(state, counter) == 0;
            return Some((pt, committed));
        }
    }
    None
}

/// A peer with the same root key reads a message as it was written, and its
/// root state stays as it is.
pub proof fn law_peer_reads_message(
    mine: root_state::RootStateView,
    peer: root_state::RootStateView,
    h: Header,
    wire: Seq<u8>,
    plaintext: Seq<u8>,
)
    requires
        mine.curr == peer.curr,
        opened_wire(message_key(mine.curr, h.epoch, h.msg_seq), h, wire) == Some(plaintext),
    ensures
        opened_with_curr(peer, h, wire) == Some(plaintext),
        after_message(peer, h, wire) == peer,
{
}

/// Peers converge without a further message: where the peer has committed the
/// key that is pending here, a message of the peer that opens with that key
/// only brings this side to the peer's root key and epoch.
pub proof fn law_message_from_ahead_converges(
    mine: root_state::RootStateView,
    peer: root_state::RootStateView,
    h: Header,
    wire: Seq<u8>,
)
    requires
        mine.pend == Some(peer.curr),
        peer.epoch == mine.epoch + 1,
        h.epoch == peer.epoch,
        opened_with_curr(peer, h, wire) is Some,
        opened_with_curr(mine, h, wire) is None,
    ensures
        after_message(mine, h, wire).curr == peer.curr,
        after_message(mine, h, wire).epoch == peer.epoch,
        after_message(mine, h, wire).pend is None,
        opened_with_pend(mine, h, wire) == opened_with_curr(peer, h, wire),
{
}

// ---------------------------------------------------------------------------
// Laws
// ---------------------------------------------------------------------------

/// The key of a message is expanded from the root key and from its epoch, in
/// four bytes, and its full number, in eight. Under one root key, what two keys
/// are expanded from is the same only for the same epoch and number.
pub proof fn law_message_key_is_expanded_from_epoch_and_number(
    root: Seq<u8>,
    epoch1: u32,
    seq1: u64,
    epoch2: u32,
    seq2: u64,
)
    ensures
        ({
            let info1 = encoding::le_bytes(epoch1 as nat, 4) + encoding::le_bytes(seq1 as nat, 8);
            let info2 = encoding::le_bytes(epoch2 as nat, 4) + encoding::le_bytes(seq2 as nat, 8);
            let text = labels::label("LinkChat HKDF Expand");
            &&& message_key(root, epoch1, seq1) == crypto::hkdf_sha256(root, text, info1)@
            &&& message_key(root, epoch2, seq2) == crypto::hkdf_sha256(root, text, info2)@
            &&& info1.len() == 12
            &&& info1 == info2 ==> epoch1 == epoch2 && seq1 == seq2
        }),
{
    broadcast use encoding::lemma_le_bytes_len;

    if encoding::le_bytes(epoch1 as nat, 4) + encoding::le_bytes(seq1 as nat, 8) == encoding::le_bytes(
        epoch2 as nat,
        4,
    ) + encoding::le_bytes(seq2 as nat, 8) {
        law_key_info_is_unique(epoch1, seq1, epoch2, seq2);
    }
}

/// The messages of an epoch are numbered 1, 2, 3 and so on. After the last
/// number the next is 1; 0 is never one.
pub proof fn law_messages_are_numbered_in_turn(n: nat)
    requires
        n < u64::MAX,
    ensures
        counter_after(1, n) == n + 1,
        counter_after(1, u64::MAX as nat) == 1,
{
    lemma_counter_after(n);
    lemma_counter_after((u64::MAX - 1) as nat);
}

/// Where each part of a header stands in the associated data.
pub proof fn law_aad_layout(h: Header)
    requires
        h.id_stamp.len() == 32,
    ensures
        aad_bytes(h).len() == 55,
        aad_bytes(h).subrange(0, 32) == h.id_stamp,
        h.outgoing ==> aad_bytes(h)[32] == 0,
        !h.outgoing ==> aad_bytes(h)[32] == 1,
        encoding::le_value(aad_bytes(h).subrange(33, 37)) == h.epoch,
        encoding::le_value(aad_bytes(h).subrange(37, 45)) == h.msg_seq,
        encoding::le_value(aad_bytes(h).subrange(45, 53)) == h.timestamp,
        encoding::le_value(aad_bytes(h).subrange(53, 55)) == 4,
{
    broadcast use encoding::lemma_le_bytes_len;

    let aad = aad_bytes(h);
    encoding::lemma_le_range();
    encoding::lemma_le_value_of_bytes(h.epoch as nat, 4);
    encoding::lemma_le_value_of_bytes(h.msg_seq as nat, 8);
    encoding::lemma_le_value_of_bytes(h.timestamp as nat, 8);
    encoding::lemma_le_value_of_bytes(4, 2);
    assert(aad.subrange(0, 32) =~= h.id_stamp);
    assert(aad.subrange(33, 37) =~= encoding::le_bytes(h.epoch as nat, 4));
    assert(aad.subrange(37, 45) =~= encoding::le_bytes(h.msg_seq as nat, 8));
    assert(aad.subrange(45, 53) =~= encoding::le_bytes(h.timestamp as nat, 8));
    assert(aad.subrange(53, 55) =~= encoding::le_bytes(4, 2));
}

/// The nonce spells the epoch, then the time and the number xored.
pub proof fn law_nonce_layout(epoch: u32, timestamp: u64, msg_seq: u64)
    ensures
        ({
            let nonce = nonce_bytes(epoch, timestamp, msg_seq);
            &&& nonce.len() == 12
            &&& encoding::le_value(nonce.subrange(0, 4)) == epoch
            &&& encoding::le_value(nonce.subrange(4, 12)) == timestamp ^ msg_seq
        }),
{
    broadcast use encoding::lemma_le_bytes_len;

    let nonce = nonce_bytes(epoch, timestamp, msg_seq);
    encoding::lemma_le_range();
    encoding::lemma_le_value_of_bytes(epoch as nat, 4);
    encoding::lemma_le_value_of_bytes((timestamp ^ msg_seq) as nat, 8);
    assert(nonce.subrange(0, 4) =~= encoding::le_bytes(epoch as nat, 4));
    assert(nonce.subrange(4, 12) =~= encoding::le_bytes((timestamp ^ msg_seq) as nat, 8));
}

/// A message travels as its nonce, and behind it what AES-GCM makes of the
/// whole plaintext under the key, that nonce and the associated data.
pub proof fn law_wire_is_nonce_and_sealed_plaintext(key: Seq<u8>, h: Header, plaintext: Seq<u8>)
    ensures
        ({
            let wire = sealed_wire(key, h, plaintext);
            let nonce = nonce_bytes(h.epoch, h.timestamp, h.msg_seq);
            &&& wire.subrange(0, 12) == nonce
            &&& wire.subrange(12, wire.len() as int) == crypto::aes256gcm_seal(key, nonce, aad_bytes(h), plaintext)
        }),
{
    law_nonce_layout(h.epoch, h.timestamp, h.msg_seq);
    let wire = sealed_wire(key, h, plaintext);
    let nonce = nonce_bytes(h.epoch, h.timestamp, h.msg_seq);
    assert(wire.subrange(0, 12) =~= nonce);
    assert(wire.subrange(12, wire.len() as int) =~= crypto::aes256gcm_seal(key, nonce, aad_bytes(h), plaintext));
}

/// A message opens to what AES-GCM takes out of it under the nonce that it
/// starts with and the associated data, and is refused where it is too short
/// for a nonce and a tag.
pub proof fn law_wire_opens_under_its_nonce(key: Seq<u8>, h: Header, nonce: Seq<u8>, sealed: Seq<u8>)
    requires
        nonce.len() == 12,
    ensures
        sealed.len() < 16 ==> opened_wire(key, h, nonce + sealed) is None,
        sealed.len() >= 16 ==> opened_wire(key, h, nonce + sealed) == crypto::aes256gcm_open(
            key,
            nonce,
            aad_bytes(h),
            sealed,
        ),
{
    let wire = nonce + sealed;
    if sealed.len() >= 16 {
        assert(wire.subrange(0, 12) =~= nonce);
        assert(wire.subrange(12, wire.len() as int) =~= sealed);
    }
}

/// A message counts under the current root key where it opens with it; only
/// where it does not, where a root key is pending, and where the message is of
/// the next epoch, is the pending one tried. It is promoted exactly where the
/// message opens with it.
pub proof fn law_pending_key_is_second_choice(v: root_state::RootStateView, h: Header, wire: Seq<u8>)
    ensures
        ({
            let info = encoding::le_bytes(h.epoch as nat, 4) + encoding::le_bytes(h.msg_seq as nat, 8);
            let text = labels::label("LinkChat HKDF Expand");
            let first = opened_wire(crypto::hkdf_sha256(v.curr, text, info)@, h, wire);
            let second = opened_wire(crypto::hkdf_sha256(v.pend->Some_0, text, info)@, h, wire);
            let after = after_message(v, h, wire);
            let tried = v.pend is Some && h.epoch == v.epoch + 1;
            &&& opened_with_curr(v, h, wire) == first
            &&& tried ==> opened_with_pend(v, h, wire) == second
            &&& !tried ==> opened_with_pend(v, h, wire) is None
            &&& peer_is_ahead(v, h.epoch) <==> tried
            &&& first is None && tried && second is Some ==> {
                &&& after.curr == v.pend->Some_0
                &&& after.pend is None
                &&& after.epoch == v.epoch + 1
            }
            &&& !(first is None && tried && second is Some) ==> after == v
        }),
{
}

} // verus!
