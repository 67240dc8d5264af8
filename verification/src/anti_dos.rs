//! Recovery after lost or withheld messages.
//!
//! Where the peer is epochs ahead, the root key is rolled forward epoch by
//! epoch. The number of epochs that are caught up on is bounded.

use vstd::prelude::*;
use crate::crypto;
use crate::labels;
use crate::message_cipher::MsgCounter;
use crate::root_state;
use crate::root_state::{roll_epoch_forward, RootState};

verus! {

/// Largest number of epochs that are caught up on at once.
pub const MAX_EPOCH_GAP: u32 = 100_000;

/// The root state `n` epochs further on.
pub open spec fn rolled_times(v: root_state::RootStateView, n: nat) -> root_state::RootStateView
    decreases n,
{
    if n == 0 {
        v
    } else {
        rolled_times(v, (n - 1) as nat).rolled(labels::label("epoch_roll"), labels::label("LinkChat Epoch Roll"))
    }
}

/// Rolling forward counts the epochs and leaves the pending root key alone.
proof fn lemma_rolled_times(v: root_state::RootStateView, n: nat)
    ensures
        rolled_times(v, n).epoch == v.epoch + n,
        rolled_times(v, n).pend == v.pend,
    decreases n,
{
    if n > 0 {
        lemma_rolled_times(v, (n - 1) as nat);
    }
}

/// Rolls the root state forward to `target_epoch`. Returns the epoch that it
/// is in then, or `u32::MAX` where the gap is too large and nothing changed.
pub fn recover_after_loss(state: &mut RootState, counter: &mut MsgCounter, target_epoch: u32) -> (epoch: u32)
    ensures
        ({
            let gap = target_epoch - old(state)@.epoch;
            if gap <= 0 {
                &&& epoch == old(state)@.epoch
                &&& *final(state) == *old(state)
                &&& *final(counter) == *old(counter)
            } else if gap > 100_000 {
                &&& epoch == u32::MAX
                &&& *final(state) == *old(state)
                &&& *final(counter) == *old(counter)
            } else {
                &&& epoch == target_epoch
                &&& final(state)@ == rolled_times(old(state)@, gap as nat)
                &&& final(state)@.epoch == target_epoch
                &&& final(state)@.pend == old(state)@.pend
                &&& final(counter)@ == 1
            }
        }),
{
    let e: u32 = root_state::read_epoch_id(state);
    if target_epoch <= e {
        return e;
    }
    let gap: u32 = target_epoch - e;
    if gap > MAX_EPOCH_GAP {
        return u32::MAX;
    }
    proof {
        reveal_strlit("epoch_roll");
        labels::lemma_label("epoch_roll");
        reveal_strlit("LinkChat Epoch Roll");
        labels::lemma_label("LinkChat Epoch Roll");
    }
    let ghost before = state@;
    let mut last: u32 = e;
    let mut i: u32 = 0;
    while i < gap
        invariant
            i <= gap,
            gap == target_epoch - before.epoch,
            before.epoch == e,
            last == before.epoch + i,
            state@ == rolled_times(before, i as nat),
            state@.epoch == before.epoch + i,
            i > 0 ==> counter@ == 1,
            labels::label("epoch_roll").len() == 10,
            labels::label("LinkChat Epoch Roll").len() == 19,
        decreases gap - i,
    {
        last = roll_epoch_forward(
            state,
            counter,
            labels::label_bytes("epoch_roll"),
            labels::label_bytes("LinkChat Epoch Roll"),
        );
        i = i + 1;
    }
    proof {
        lemma_rolled_times(before, gap as nat);
    }
    last
}

/// Catching up in two steps comes to the same as catching up in one.
pub proof fn law_recovery_composes(v: root_state::RootStateView, m: nat, n: nat)
    ensures
        rolled_times(rolled_times(v, m), n) == rolled_times(v, m + n),
    decreases n,
{
    if n > 0 {
        law_recovery_composes(v, m, (n - 1) as nat);
    }
}

/// Peers with the same root key in the same epoch have the same root key after
/// both have gone on to a later one.
pub proof fn law_recovery_agrees(a: root_state::RootStateView, b: root_state::RootStateView, n: nat)
    requires
        a.curr == b.curr,
        a.epoch == b.epoch,
    ensures
        rolled_times(a, n).curr == rolled_times(b, n).curr,
        rolled_times(a, n).epoch == rolled_times(b, n).epoch,
    decreases n,
{
    if n > 0 {
        law_recovery_agrees(a, b, (n - 1) as nat);
    }
}

/// Each epoch on the way has a root key that HKDF makes of the one before; the
/// epochs are counted one by one, and the pending root key stays.
pub proof fn law_each_root_comes_of_the_one_before(v: root_state::RootStateView, n: nat)
    ensures
        rolled_times(v, 0) == v,
        rolled_times(v, n + 1).curr == crypto::hkdf_sha256(
            labels::label("epoch_roll"),
            rolled_times(v, n).curr,
            labels::label("LinkChat Epoch Roll"),
        )@,
        rolled_times(v, n).epoch == v.epoch + n,
        rolled_times(v, n).pend == v.pend,
{
    lemma_rolled_times(v, n);
}

} // verus!
