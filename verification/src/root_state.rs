//! The root state: the only lasting cryptographic state of a session.
//!
//! It is a current root key, a root key that is pending until both peers have
//! it, and the number of the epoch.

use vstd::prelude::*;
use crate::crypto;
use crate::message_cipher::{reset_msg_counter, MsgCounter};

verus! {

/// The root state of a session.
pub struct RootState {
    curr: [u8; 32],
    pend: Option<[u8; 32]>,
    epoch: u32,
}

/// The root state, seen as mathematical values.
#[verifier::ext_equal]
pub ghost struct RootStateView {
    /// The current root key.
    pub curr: Seq<u8>,
    /// The pending root key.
    pub pend: Option<Seq<u8>>,
    /// The number of the epoch.
    pub epoch: nat,
}

impl View for RootState {
    type V = RootStateView;

    closed spec fn view(&self) -> RootStateView {
        RootStateView {
            curr: self.curr@,
            pend: match self.pend {
                Some(key) => Some(key@),
                None => None,
            },
            epoch: self.epoch as nat,
        }
    }
}

impl RootStateView {
    /// The state after the pending root key has been promoted.
    pub open spec fn committed(self) -> RootStateView {
        RootStateView { curr: self.pend->Some_0, pend: None, epoch: self.epoch + 1 }
    }

    /// The state after one step to the next epoch.
    pub open spec fn rolled(self, salt: Seq<u8>, info: Seq<u8>) -> RootStateView {
        RootStateView { curr: crypto::hkdf_sha256(salt, self.curr, info)@, epoch: self.epoch + 1, ..self }
    }
}

impl RootState {
    /// A session before its initialisation: the root key is zero, nothing is
    /// pending, the epoch is 0.
    pub fn new() -> (state: Self)
        ensures
            state@ == (RootStateView { curr: crypto::zeros(32), pend: None, epoch: 0 }),
    {
        let state = RootState { curr: [0u8; 32], pend: None, epoch: 0 };
        assert(state.curr@ =~= crypto::zeros(32));
        state
    }
}

/// Replaces the current root key.
pub fn set_root_state_curr(state: &mut RootState, key: [u8; 32])
    ensures
        final(state)@ == (RootStateView { curr: key@, ..old(state)@ }),
{
    state.curr = key;
}

/// The current root key.
pub fn read_root_state_curr(state: &RootState) -> (key: [u8; 32])
    ensures
        key@ == state@.curr,
{
    state.curr
}

/// Replaces the pending root key.
pub fn set_root_state_pend(state: &mut RootState, key: Option<[u8; 32]>)
    ensures
        final(state)@ == (RootStateView {
            pend: match key {
                Some(k) => Some(k@),
                None => None,
            },
            ..old(state)@
        }),
{
    state.pend = key;
}

/// The pending root key.
pub fn read_root_state_pend(state: &RootState) -> (key: Option<[u8; 32]>)
    ensures
        match key {
            Some(k) => state@.pend == Some(k@),
            None => state@.pend is None,
        },
{
    state.pend
}

/// The number of the epoch.
pub fn read_epoch_id(state: &RootState) -> (id: u32)
    ensures
        id == state@.epoch,
{
    state.epoch
}

/// Replaces the number of the epoch.
pub fn set_epoch_id(state: &mut RootState, id: u32)
    ensures
        final(state)@ == (RootStateView { epoch: id as nat, ..old(state)@ }),
{
    state.epoch = id;
}

/// Promotes the pending root key to the current one, overwrites the old one,
/// goes to the next epoch and starts its message numbers anew. The code is 0,
/// or 1 where nothing is pending.
pub fn commit_evolution(state: &mut RootState, counter: &mut MsgCounter) -> (code: u32)
    requires
        old(state)@.pend is Some ==> old(state)@.epoch < u32::MAX,
    ensures
        if old(state)@.pend is Some {
            &&& code == 0
            &&& final(state)@ == old(state)@.committed()
            &&& final(counter)@ == 1
        } else {
            &&& code == 1
            &&& *final(state) == *old(state)
            &&& *final(counter) == *old(counter)
        },
{
    match state.pend {
        None => 1,
        Some(new_key) => {
            crypto::zeroize_slice(&mut state.curr);
            state.curr = new_key;
            state.pend = None;
            state.epoch = state.epoch + 1;
            reset_msg_counter(counter);
            0
        },
    }
}

/// Derives the root key of the next epoch from the current one and goes there.
/// Returns the number of the new epoch.
pub fn roll_epoch_forward(state: &mut RootState, counter: &mut MsgCounter, salt: &[u8], info: &[u8]) -> (id: u32)
    requires
        old(state)@.epoch < u32::MAX,
        salt@.len() <= crypto::HASH_INPUT_MAX,
        info@.len() <= crypto::HASH_INPUT_MAX,
    ensures
        final(state)@ == old(state)@.rolled(salt@, info@),
        final(state)@.curr == crypto::hkdf_sha256(salt@, old(state)@.curr, info@)@,
        final(state)@.pend == old(state)@.pend,
        final(state)@.epoch == old(state)@.epoch + 1,
        final(counter)@ == 1,
        id == old(state)@.epoch + 1,
{
    match crypto::hkdf_sha256_32(salt, state.curr.as_slice(), info) {
        Ok(okm) => enter_next_epoch(state, counter, okm),
        Err(_) => u32::MAX,
    }
}

/// Goes to the next epoch with the given root key, overwrites the old one and
/// starts the message numbers anew. Returns the number of the new epoch.
pub fn enter_next_epoch(state: &mut RootState, counter: &mut MsgCounter, root: [u8; 32]) -> (id: u32)
    requires
        old(state)@.epoch < u32::MAX,
    ensures
        final(state)@ == (RootStateView { curr: root@, epoch: old(state)@.epoch + 1, ..old(state)@ }),
        final(counter)@ == 1,
        id == old(state)@.epoch + 1,
{
    crypto::zeroize_slice(&mut state.curr);
    state.curr = root;
    state.epoch = state.epoch + 1;
    reset_msg_counter(counter);
    state.epoch
}

/// A commit takes the pending key: the next commit is refused until a new key
/// is pending.
pub proof fn law_commit_takes_pending(v: RootStateView)
    requires
        v.pend is Some,
    ensures
        v.committed().curr == v.pend->Some_0,
        v.committed().pend is None,
        v.committed().epoch == v.epoch + 1,
{
}

/// Peers that have the same key pending in the same epoch have the same root
/// state once both have committed.
pub proof fn law_commit_converges(a: RootStateView, b: RootStateView)
    requires
        a.pend is Some,
        a.pend == b.pend,
        a.epoch == b.epoch,
    ensures
        a.committed() == b.committed(),
{
}

/// A step to the next epoch makes the root key with HKDF out of the whole
/// current one, and leaves the pending one alone.
pub proof fn law_next_root_comes_of_current(v: RootStateView, salt: Seq<u8>, info: Seq<u8>)
    ensures
        v.rolled(salt, info).curr == crypto::hkdf_sha256(salt, v.curr, info)@,
        v.rolled(salt, info).pend == v.pend,
        v.rolled(salt, info).epoch == v.epoch + 1,
{
}

} // verus!
