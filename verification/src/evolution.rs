//! Evolution of the root key by key encapsulation.
//!
//! One peer, Alice, encapsulates a fresh secret to the public key of the other,
//! Bob, and derives a pending root key from it. Bob takes the same secret out of
//! the ciphertext and derives the same pending root key. Committing makes it the
//! current one.

use vstd::prelude::*;
use crate::crypto;
use crate::crypto::{HASH_INPUT_MAX, KEM_CIPHERTEXT_LEN, KEM_PUBLIC_KEY_LEN, KEM_SECRET_KEY_LEN};
use crate::encoding::{equal_bytes, slice_part, write_at};
use crate::labels;
use crate::memory_protection::SecureBuffer;
use crate::message_cipher::MsgCounter;
use crate::root_state;
use crate::root_state::RootState;

verus! {

/// Keys and ciphertext of the evolution.
pub struct EvolutionState {
    /// The ciphertext for the peer.
    kem_cipher: Option<SecureBuffer>,
    /// The own key pair.
    own_pk: Vec<u8>,
    own_sk: SecureBuffer,
    /// The public key of the peer, and its hash from when it was received.
    peer_pk: Vec<u8>,
    peer_pk_hash: [u8; 32],
}

/// The evolution state, seen as mathematical values.
#[verifier::ext_equal]
pub ghost struct EvolutionView {
    /// The ciphertext for the peer.
    pub kem_cipher: Option<Seq<u8>>,
    /// The own public key.
    pub own_pk: Seq<u8>,
    /// The own secret key.
    pub own_sk: Seq<u8>,
    /// The public key of the peer.
    pub peer_pk: Seq<u8>,
    /// The hash of the public key of the peer from when it was received.
    pub peer_pk_hash: Seq<u8>,
}

impl View for EvolutionState {
    type V = EvolutionView;

    closed spec fn view(&self) -> EvolutionView {
        EvolutionView {
            kem_cipher: match self.kem_cipher {
                Some(buf) => Some(buf@),
                None => None,
            },
            own_pk: self.own_pk@,
            own_sk: self.own_sk@,
            peer_pk: self.peer_pk@,
            peer_pk_hash: self.peer_pk_hash@,
        }
    }
}

impl EvolutionState {
    #[verifier::type_invariant]
    spec fn peer_pk_can_be_hashed(self) -> bool {
        self.peer_pk@.len() <= HASH_INPUT_MAX
    }

    /// No keys and no ciphertext.
    pub fn new() -> (evo: Self)
        ensures
            evo@ == (EvolutionView {
                kem_cipher: None,
                own_pk: Seq::empty(),
                own_sk: Seq::empty(),
                peer_pk: Seq::empty(),
                peer_pk_hash: crypto::zeros(32),
            }),
    {
        let evo = EvolutionState {
            kem_cipher: None,
            own_pk: Vec::new(),
            own_sk: SecureBuffer::new(),
            peer_pk: Vec::new(),
            peer_pk_hash: [0u8; 32],
        };
        assert(evo.peer_pk_hash@ =~= crypto::zeros(32));
        evo
    }

    /// Forgets the ciphertext for the peer.
    pub fn zeroize(&mut self)
        ensures
            final(self)@ == (EvolutionView { kem_cipher: None, ..old(self)@ }),
    {
        proof {
            use_type_invariant(&*self);
        }
        self.kem_cipher = None;
    }
}

// ---------------------------------------------------------------------------
// Keys
// ---------------------------------------------------------------------------

/// Generates the own key pair, keeps it, and copies it to the front of the two
/// buffers. The code is 0.
pub fn generate_bob_keypair(evo: &mut EvolutionState, out_pk: &mut [u8], out_sk: &mut [u8]) -> (code: u32)
    requires
        old(out_pk)@.len() >= KEM_PUBLIC_KEY_LEN,
        old(out_sk)@.len() >= KEM_SECRET_KEY_LEN,
    ensures
        code == 0,
        crypto::is_kem_keypair(final(evo)@.own_pk, final(evo)@.own_sk),
        final(evo)@.own_pk.len() == KEM_PUBLIC_KEY_LEN,
        final(evo)@.own_sk.len() == KEM_SECRET_KEY_LEN,
        final(evo)@ == (EvolutionView { own_pk: final(evo)@.own_pk, own_sk: final(evo)@.own_sk, ..old(evo)@ }),
        final(out_pk)@ == final(evo)@.own_pk + old(out_pk)@.subrange(
            KEM_PUBLIC_KEY_LEN as int,
            old(out_pk)@.len() as int,
        ),
        final(out_sk)@ == final(evo)@.own_sk + old(out_sk)@.subrange(
            KEM_SECRET_KEY_LEN as int,
            old(out_sk)@.len() as int,
        ),
{
    let (public, secret) = crypto::kem_keypair();
    install_keypair(evo, &public, &secret, out_pk, out_sk)
}

/// Keeps a key pair as the own one, and copies it to the front of the two
/// buffers. The code is 0.
pub fn install_keypair(
    evo: &mut EvolutionState,
    public: &[u8; KEM_PUBLIC_KEY_LEN],
    secret: &[u8; KEM_SECRET_KEY_LEN],
    out_pk: &mut [u8],
    out_sk: &mut [u8],
) -> (code: u32)
    requires
        old(out_pk)@.len() >= KEM_PUBLIC_KEY_LEN,
        old(out_sk)@.len() >= KEM_SECRET_KEY_LEN,
    ensures
        code == 0,
        final(evo)@ == (EvolutionView { own_pk: public@, own_sk: secret@, ..old(evo)@ }),
        final(out_pk)@ == public@ + old(out_pk)@.subrange(KEM_PUBLIC_KEY_LEN as int, old(out_pk)@.len() as int),
        final(out_sk)@ == secret@ + old(out_sk)@.subrange(KEM_SECRET_KEY_LEN as int, old(out_sk)@.len() as int),
{
    proof {
        use_type_invariant(&*evo);
    }
    write_at(out_pk, 0, public.as_slice());
    write_at(out_sk, 0, secret.as_slice());
    assert(out_pk@ =~= public@ + old(out_pk)@.subrange(KEM_PUBLIC_KEY_LEN as int, old(out_pk)@.len() as int));
    assert(out_sk@ =~= secret@ + old(out_sk)@.subrange(KEM_SECRET_KEY_LEN as int, old(out_sk)@.len() as int));
    evo.own_pk = vstd::slice::slice_to_vec(public.as_slice());
    evo.own_sk = SecureBuffer::from_vec(vstd::slice::slice_to_vec(secret.as_slice()));
    0
}

/// Keeps the public key of the peer and its hash, by which it is recognised
/// later.
pub fn set_peer_public_key(evo: &mut EvolutionState, pk: &[u8])
    requires
        pk@.len() <= HASH_INPUT_MAX,
    ensures
        final(evo)@ == (EvolutionView { peer_pk: pk@, peer_pk_hash: crypto::sha256(pk@)@, ..old(evo)@ }),
{
    evo.peer_pk = vstd::slice::slice_to_vec(pk);
    evo.peer_pk_hash = crypto::sha256_digest(pk);
}

// ---------------------------------------------------------------------------
// Encapsulation, by Alice
// ---------------------------------------------------------------------------

/// The root key that comes of a shared secret and the current root key.
pub open spec fn pending_key(secret: Seq<u8>, curr: Seq<u8>) -> Seq<u8> {
    crypto::hkdf_sha256(secret, curr, labels::label("LinkChat Evolution"))@
}

/// The root state with the key of a shared secret pending.
pub open spec fn with_pending(v: root_state::RootStateView, secret: Seq<u8>) -> root_state::RootStateView {
    root_state::RootStateView { pend: Some(pending_key(secret, v.curr)), ..v }
}

/// Why an evolution cannot start; 0 where it can. 2: there is no public key of
/// the peer. 5: it is not the one that was received. 1: it has not the length
/// of a public key.
pub open spec fn start_code(evo: EvolutionView) -> u32 {
    if evo.peer_pk.len() == 0 {
        2
    } else if evo.peer_pk_hash != crypto::zeros(32) && evo.peer_pk_hash != crypto::sha256(evo.peer_pk)@ {
        5
    } else if evo.peer_pk.len() != KEM_PUBLIC_KEY_LEN {
        1
    } else {
        0
    }
}

/// The evolution has started with this secret and this ciphertext.
pub open spec fn started(
    state: root_state::RootStateView,
    evo: EvolutionView,
    ciphertext: Seq<u8>,
    secret: Seq<u8>,
    state_after: root_state::RootStateView,
    evo_after: EvolutionView,
) -> bool {
    &&& crypto::is_kem_encapsulation(evo.peer_pk, ciphertext, secret)
    &&& ciphertext.len() == KEM_CIPHERTEXT_LEN
    &&& secret.len() == 32
    &&& state_after == with_pending(state, secret)
    &&& evo_after == (EvolutionView { kem_cipher: Some(ciphertext), ..evo })
}

/// Encapsulates a fresh secret to the public key of the peer, makes the root
/// key that comes of it pending, and keeps the ciphertext for the peer. The
/// code is 0; other codes are those of `start_code`, with nothing changed.
pub fn start_evolution(state: &mut RootState, evo: &mut EvolutionState) -> (code: u32)
    ensures
        code == start_code(old(evo)@),
        if code == 0 {
            exists|ciphertext: Seq<u8>, secret: Seq<u8>| #[trigger]
                started(old(state)@, old(evo)@, ciphertext, secret, final(state)@, final(evo)@)
        } else {
            *final(state) == *old(state) && final(evo)@ == old(evo)@
        },
{
    proof {
        use_type_invariant(&*evo);
    }
    if evo.peer_pk.len() == 0 {
        return 2;
    }
    let current_hash: [u8; 32] = crypto::sha256_digest(evo.peer_pk.as_slice());
    let unset: [u8; 32] = [0u8; 32];
    assert(unset@ =~= crypto::zeros(32));
    if !equal_bytes(&evo.peer_pk_hash, &unset) && !equal_bytes(&current_hash, &evo.peer_pk_hash) {
        return 5;
    }
    match crypto::kem_encapsulate(evo.peer_pk.as_slice()) {
        Ok((ciphertext, secret)) => {
            make_pending(state, &secret);
            keep_kem_cipher(evo, &ciphertext);
            assert(started(old(state)@, old(evo)@, ciphertext@, secret@, state@, evo@));
            0
        },
        Err(_) => 1,
    }
}

/// Makes the root key that comes of a shared secret pending.
pub fn make_pending(state: &mut RootState, secret: &[u8; 32])
    ensures
        final(state)@ == with_pending(old(state)@, secret@),
        final(state)@.pend == Some(
            crypto::hkdf_sha256(secret@, old(state)@.curr, labels::label("LinkChat Evolution"))@,
        ),
{
    let mut curr: [u8; 32] = root_state::read_root_state_curr(state);
    let derived: [u8; 32] = derive_pending_key(secret, &curr);
    crypto::zeroize_slice(&mut curr);
    root_state::set_root_state_pend(state, Some(derived));
}

/// Keeps a ciphertext for the peer.
pub fn keep_kem_cipher(evo: &mut EvolutionState, ciphertext: &[u8; KEM_CIPHERTEXT_LEN])
    ensures
        final(evo)@ == (EvolutionView { kem_cipher: Some(ciphertext@), ..old(evo)@ }),
{
    proof {
        use_type_invariant(&*evo);
    }
    evo.kem_cipher = Some(SecureBuffer::from_vec(vstd::slice::slice_to_vec(ciphertext.as_slice())));
}

/// The root key that comes of a shared secret and the current root key. Both
/// peers must get the same, so nothing that only one of them has goes in.
pub fn derive_pending_key(ss: &[u8; 32], curr: &[u8; 32]) -> (key: [u8; 32])
    ensures
        key@ == pending_key(ss@, curr@),
        key@ == crypto::hkdf_sha256(ss@, curr@, labels::label("LinkChat Evolution"))@,
{
    proof {
        reveal_strlit("LinkChat Evolution");
        labels::lemma_label("LinkChat Evolution");
    }
    crypto::hkdf_sha256_32(ss.as_slice(), curr.as_slice(), labels::label_bytes("LinkChat Evolution")).unwrap()
}

/// Copies the ciphertext for the peer to the front of `out`, as far as it
/// fits. Returns the number of bytes copied.
pub fn get_kem_cipher(evo: &EvolutionState, out: &mut [u8]) -> (n: usize)
    ensures
        match evo@.kem_cipher {
            Some(ct) => {
                &&& n == (if ct.len() < old(out)@.len() { ct.len() } else { old(out)@.len() })
                &&& final(out)@ == ct.subrange(0, n as int) + old(out)@.subrange(n as int, old(out)@.len() as int)
            },
            None => n == 0 && final(out)@ == old(out)@,
        },
{
    match &evo.kem_cipher {
        Some(buf) => {
            let len: usize = if buf.len() < out.len() {
                buf.len()
            } else {
                out.len()
            };
            write_at(out, 0, slice_part(buf.as_slice(), 0, len));
            assert(out@ =~= buf@.subrange(0, len as int) + old(out)@.subrange(len as int, old(out)@.len() as int));
            len
        },
        None => 0,
    }
}

/// Length of the ciphertext for the peer; 0 where there is none.
pub fn kem_cipher_len(evo: &EvolutionState) -> (n: usize)
    ensures
        n == (match evo@.kem_cipher {
            Some(ct) => ct.len(),
            None => 0,
        }),
{
    match &evo.kem_cipher {
        Some(buf) => buf.len(),
        None => 0,
    }
}

// ---------------------------------------------------------------------------
// Decapsulation, by Bob
// ---------------------------------------------------------------------------

/// Takes the shared secret out of a ciphertext and makes the root key that
/// comes of it pending. The code is 0; or 3 where there is no own secret key,
/// and 2 where the ciphertext is refused, with nothing changed.
pub fn apply_peer_kem(state: &mut RootState, evo: &EvolutionState, kem_ct: &[u8]) -> (code: u32)
    ensures
        if evo@.own_sk.len() == 0 {
            code == 3 && *final(state) == *old(state)
        } else {
            match crypto::kem_shared_secret(kem_ct@, evo@.own_sk) {
                Some(secret) => {
                    &&& code == 0
                    &&& final(state)@ == with_pending(old(state)@, secret@)
                    &&& final(state)@.pend == Some(
                        crypto::hkdf_sha256(secret@, old(state)@.curr, labels::label("LinkChat Evolution"))@,
                    )
                },
                None => code == 2 && *final(state) == *old(state),
            }
        },
        kem_ct@.len() != KEM_CIPHERTEXT_LEN ==> code != 0,
{
    if evo.own_sk.is_empty() {
        return 3;
    }
    match crypto::kem_decapsulate(kem_ct, evo.own_sk.as_slice()) {
        Ok(secret) => {
            make_pending(state, &secret);
            0
        },
        Err(_) => 2,
    }
}

// ---------------------------------------------------------------------------
// Commit, by both
// ---------------------------------------------------------------------------

/// Promotes the pending root key. The code is 0, or 1 where nothing is pending.
pub fn commit_evolution(state: &mut RootState, counter: &mut MsgCounter) -> (code: u32)
    requires
        old(state)@.pend is Some ==> old(state)@.epoch < u32::MAX,
    ensures
        if old(state)@.pend is Some {
            &&& code == 0
            &&& final(state)@ == old(state)@.committed()
            &&& final(counter)@ == 1
        } else {
            &&& code == 1
            &&& *final(state) == *old(state)
            &&& *final(counter) == *old(counter)
        },
{
    root_state::commit_evolution(state, counter)
}

/// Peers with the same root key that come by the same secret have the same
/// key pending, and are in the same root state once both have committed.
pub proof fn law_evolution_agrees(
    alice: root_state::RootStateView,
    bob: root_state::RootStateView,
    evo: EvolutionView,
    ciphertext: Seq<u8>,
    secret: Seq<u8>,
    alice_after: root_state::RootStateView,
    evo_after: EvolutionView,
    bob_sk: Seq<u8>,
)
    requires
        alice.curr == bob.curr,
        alice.epoch == bob.epoch,
        started(alice, evo, ciphertext, secret, alice_after, evo_after),
        crypto::kem_shared_secret(ciphertext, bob_sk) matches Some(s) && s@ == secret,
    ensures
        ({
            let bob_after = with_pending(bob, crypto::kem_shared_secret(ciphertext, bob_sk)->Some_0@);
            &&& alice_after.pend is Some
            &&& alice_after.pend == bob_after.pend
            &&& alice_after.committed() == bob_after.committed()
            &&& alice_after.committed().epoch == alice.epoch + 1
        }),
{
}

/// A public key that is set as the peer's is the one an evolution starts with.
pub proof fn law_set_peer_key_can_start(evo: EvolutionView, pk: Seq<u8>)
    requires
        pk.len() == KEM_PUBLIC_KEY_LEN,
    ensures
        start_code(EvolutionView { peer_pk: pk, peer_pk_hash: crypto::sha256(pk)@, ..evo }) == 0,
{
}

/// A public key that was swapped after it was set is noticed, as far as its
/// hash differs.
pub proof fn law_swapped_peer_key_is_refused(evo: EvolutionView, pk: Seq<u8>, other: Seq<u8>)
    requires
        other.len() > 0,
        evo.peer_pk == other,
        evo.peer_pk_hash == crypto::sha256(pk)@,
        crypto::sha256(pk)@ != crypto::sha256(other)@,
        crypto::sha256(pk)@ != crypto::zeros(32),
    ensures
        start_code(evo) == 5,
{
}

/// The pending root key is what HKDF makes of the whole secret, as its salt,
/// and the whole current root key. The current root key and the epoch stay.
pub proof fn law_pending_key_takes_whole_secret_and_root(v: root_state::RootStateView, secret: Seq<u8>)
    ensures
        with_pending(v, secret).pend == Some(
            crypto::hkdf_sha256(secret, v.curr, labels::label("LinkChat Evolution"))@,
        ),
        with_pending(v, secret).curr == v.curr,
        with_pending(v, secret).epoch == v.epoch,
{
}

/// An evolution that has started has the key of the encapsulated secret
/// pending and the ciphertext of that secret ready for the peer, and has
/// changed nothing else.
pub proof fn law_started_evolution(
    state: root_state::RootStateView,
    evo: EvolutionView,
    ciphertext: Seq<u8>,
    secret: Seq<u8>,
    state_after: root_state::RootStateView,
    evo_after: EvolutionView,
)
    requires
        started(state, evo, ciphertext, secret, state_after, evo_after),
    ensures
        exists|bytes: [u8; 32]| #[trigger]
            crypto::kem_encapsulation(evo.peer_pk, bytes) == (ciphertext, secret),
        ciphertext.len() == 1568,
        secret.len() == 32,
        state_after.pend == Some(crypto::hkdf_sha256(secret, state.curr, labels::label("LinkChat Evolution"))@),
        state_after.curr == state.curr,
        state_after.epoch == state.epoch,
        evo_after.kem_cipher == Some(ciphertext),
        evo_after.own_pk == evo.own_pk,
        evo_after.own_sk == evo.own_sk,
        evo_after.peer_pk == evo.peer_pk,
        evo_after.peer_pk_hash == evo.peer_pk_hash,
{
}

/// An evolution starts exactly where the peer's public key has its length and
/// its hash is the one that was kept, or none was kept. Each refusal has its
/// code, and the first reason counts.
pub proof fn law_start_is_refused_for_cause(evo: EvolutionView)
    ensures
        ({
            let unset = forall|i: int| 0 <= i < 32 ==> evo.peer_pk_hash[i] == 0;
            let known = unset || evo.peer_pk_hash == crypto::sha256(evo.peer_pk)@;
            &&& evo.peer_pk_hash.len() == 32 ==> {
                &&& start_code(evo) == 0 <==> evo.peer_pk.len() == 1568 && known
                &&& start_code(evo) == 2 <==> evo.peer_pk.len() == 0
                &&& start_code(evo) == 5 <==> evo.peer_pk.len() > 0 && !known
                &&& start_code(evo) == 1 <==> evo.peer_pk.len() > 0 && evo.peer_pk.len() != 1568 && known
            }
        }),
{
    if evo.peer_pk_hash.len() == 32 {
        if forall|i: int| 0 <= i < 32 ==> evo.peer_pk_hash[i] == 0 {
            assert(evo.peer_pk_hash =~= crypto::zeros(32));
        }
    }
}

} // verus!
