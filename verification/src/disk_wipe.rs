//! Destruction of a vault file: every byte is overwritten with random bytes,
//! then with zeros, and the file is cut to nothing, with a flush after each.
//! Then the process ends.
//!
//! Overwriting does not reach every copy that a storage device may keep. What
//! it leaves is ciphertext without its key.

use vstd::prelude::*;
use crate::crypto;
use crate::disk;

verus! {

/// Largest piece that is written at once.
pub const WIPE_CHUNK: usize = 4096;

/// What is to be done to the file next.
pub enum WipeAction {
    /// Go to the start of the file.
    SeekStart,
    /// Write at the place where the file is.
    Write(Vec<u8>),
    /// Flush to durable media.
    SyncAll,
    /// Cut the file to no bytes.
    Truncate,
    /// End the process at once, so that nothing can undo the destruction.
    Exit,
    /// Nothing: there is nothing left to destroy.
    Done,
}

/// How far the destruction has come.
#[derive(Clone, Copy, Debug, PartialEq, Eq, Structural)]
pub enum WipePhase {
    RandomSeek,
    RandomWrite,
    RandomSync,
    ZeroSeek,
    ZeroWrite,
    ZeroSync,
    Truncate,
    FinalSync,
    Exit,
    Finished,
}

/// The destruction of a file of a known size.
pub struct VaultWipe {
    size: u64,
    remaining: u64,
    phase: WipePhase,
}

/// The destruction, seen as mathematical values.
#[verifier::ext_equal]
pub ghost struct WipeView {
    /// Size of the file at the start.
    pub size: nat,
    /// Bytes that the pass under way has yet to write.
    pub remaining: nat,
    /// How far the destruction has come.
    pub phase: WipePhase,
}

/// `WipeAction` over mathematical values.
#[verifier::ext_equal]
pub ghost enum WipeActionView {
    SeekStart,
    Write(Seq<u8>),
    SyncAll,
    Truncate,
    Exit,
    Done,
}

impl View for WipeAction {
    type V = WipeActionView;

    open spec fn view(&self) -> WipeActionView {
        match *self {
            WipeAction::SeekStart => WipeActionView::SeekStart,
            WipeAction::Write(data) => WipeActionView::Write(data@),
            WipeAction::SyncAll => WipeActionView::SyncAll,
            WipeAction::Truncate => WipeActionView::Truncate,
            WipeAction::Exit => WipeActionView::Exit,
            WipeAction::Done => WipeActionView::Done,
        }
    }
}

impl View for VaultWipe {
    type V = WipeView;

    closed spec fn view(&self) -> WipeView {
        WipeView { size: self.size as nat, remaining: self.remaining as nat, phase: self.phase }
    }
}

impl WipeView {
    /// A pass that is under way has something left to write.
    pub open spec fn wf(self) -> bool {
        &&& self.remaining <= self.size
        &&& self.phase is RandomWrite || self.phase is ZeroWrite ==> self.remaining > 0
        &&& !(self.phase is Finished) ==> self.size > 0
    }

    /// Size of the next piece.
    pub open spec fn take(self) -> nat {
        if self.remaining < WIPE_CHUNK {
            self.remaining
        } else {
            WIPE_CHUNK as nat
        }
    }

    /// `action` is due, and leads to `after`. The bytes of the random pass are
    /// left open; those of the other pass are zero.
    pub open spec fn steps_to(self, action: WipeActionView, after: WipeView) -> bool {
        let written = (self.remaining - self.take()) as nat;
        match self.phase {
            WipePhase::RandomSeek => {
                &&& action == WipeActionView::SeekStart
                &&& after == (WipeView { phase: WipePhase::RandomWrite, remaining: self.size, ..self })
            },
            WipePhase::RandomWrite => {
                &&& action matches WipeActionView::Write(data) && data.len() == self.take()
                &&& after == (WipeView {
                    remaining: written,
                    phase: if written == 0 { WipePhase::RandomSync } else { WipePhase::RandomWrite },
                    ..self
                })
            },
            WipePhase::RandomSync => {
                &&& action == WipeActionView::SyncAll
                &&& after == (WipeView { phase: WipePhase::ZeroSeek, ..self })
            },
            WipePhase::ZeroSeek => {
                &&& action == WipeActionView::SeekStart
                &&& after == (WipeView { phase: WipePhase::ZeroWrite, remaining: self.size, ..self })
            },
            WipePhase::ZeroWrite => {
                &&& action == WipeActionView::Write(crypto::zeros(self.take()))
                &&& after == (WipeView {
                    remaining: written,
                    phase: if written == 0 { WipePhase::ZeroSync } else { WipePhase::ZeroWrite },
                    ..self
                })
            },
            WipePhase::ZeroSync => {
                &&& action == WipeActionView::SyncAll
                &&& after == (WipeView { phase: WipePhase::Truncate, ..self })
            },
            WipePhase::Truncate => {
                &&& action == WipeActionView::Truncate
                &&& after == (WipeView { phase: WipePhase::FinalSync, ..self })
            },
            WipePhase::FinalSync => {
                &&& action == WipeActionView::SyncAll
                &&& after == (WipeView { phase: WipePhase::Exit, ..self })
            },
            WipePhase::Exit => {
                &&& action == WipeActionView::Exit
                &&& after == (WipeView { phase: WipePhase::Finished, ..self })
            },
            WipePhase::Finished => {
                &&& action == WipeActionView::Done
                &&& after == self
            },
        }
    }

    /// How many steps are left at most.
    pub open spec fn steps_left(self) -> nat {
        match self.phase {
            WipePhase::RandomSeek => 2 * self.size + 9,
            WipePhase::RandomWrite => self.remaining + self.size + 8,
            WipePhase::RandomSync => self.size + 7,
            WipePhase::ZeroSeek => self.size + 6,
            WipePhase::ZeroWrite => self.remaining + 5,
            WipePhase::ZeroSync => 4,
            WipePhase::Truncate => 3,
            WipePhase::FinalSync => 2,
            WipePhase::Exit => 1,
            WipePhase::Finished => 0,
        }
    }
}

/// The destruction of a file of `size` bytes before its first step. An empty
/// file is destroyed already.
pub open spec fn new_wipe(size: nat) -> WipeView {
    WipeView {
        size,
        remaining: 0,
        phase: if size == 0 { WipePhase::Finished } else { WipePhase::RandomSeek },
    }
}

/// Starts the destruction of a vault file of `file_size` bytes. The caller asks
/// for one action after another and carries it out, up to `Exit` or, where the
/// file was empty, `Done`.
pub fn purge_entire_vault(file_size: u64) -> (wipe: VaultWipe)
    ensures
        wipe@ == new_wipe(file_size as nat),
        wipe@.wf(),
{
    VaultWipe {
        size: file_size,
        remaining: 0,
        phase: if file_size == 0 {
            WipePhase::Finished
        } else {
            WipePhase::RandomSeek
        },
    }
}

impl VaultWipe {
    #[verifier::type_invariant]
    spec fn on_track(self) -> bool {
        self@.wf()
    }

    /// What is to be done to the file next.
    pub fn next_action(&mut self) -> (action: WipeAction)
        ensures
            final(self)@.wf(),
            old(self)@.steps_to(action@, final(self)@),
            old(self)@.phase is RandomWrite ==> crypto::drawn(action@->Write_0),
    {
        proof {
            use_type_invariant(&*self);
        }
        let size: u64 = self.size;
        match self.phase {
            WipePhase::RandomSeek => {
                *self = VaultWipe { size, remaining: size, phase: WipePhase::RandomWrite };
                WipeAction::SeekStart
            },
            WipePhase::RandomWrite => {
                let mut chunk: Vec<u8> = self.zero_chunk();
                crypto::fill_random(chunk.as_mut_slice());
                let remaining: u64 = self.remaining - chunk.len() as u64;
                let phase: WipePhase = if remaining == 0 {
                    WipePhase::RandomSync
                } else {
                    WipePhase::RandomWrite
                };
                *self = VaultWipe { size, remaining, phase };
                WipeAction::Write(chunk)
            },
            WipePhase::RandomSync => {
                self.phase = WipePhase::ZeroSeek;
                WipeAction::SyncAll
            },
            WipePhase::ZeroSeek => {
                *self = VaultWipe { size, remaining: size, phase: WipePhase::ZeroWrite };
                WipeAction::SeekStart
            },
            WipePhase::ZeroWrite => {
                let chunk: Vec<u8> = self.zero_chunk();
                let remaining: u64 = self.remaining - chunk.len() as u64;
                let phase: WipePhase = if remaining == 0 {
                    WipePhase::ZeroSync
                } else {
                    WipePhase::ZeroWrite
                };
                *self = VaultWipe { size, remaining, phase };
                WipeAction::Write(chunk)
            },
            WipePhase::ZeroSync => {
                self.phase = WipePhase::Truncate;
                WipeAction::SyncAll
            },
            WipePhase::Truncate => {
                self.phase = WipePhase::FinalSync;
                WipeAction::Truncate
            },
            WipePhase::FinalSync => {
                self.phase = WipePhase::Exit;
                WipeAction::SyncAll
            },
            WipePhase::Exit => {
                self.phase = WipePhase::Finished;
                WipeAction::Exit
            },
            WipePhase::Finished => WipeAction::Done,
        }
    }

    /// Zeros for the next piece.
    fn zero_chunk(&self) -> (chunk: Vec<u8>)
        ensures
            chunk@ == crypto::zeros(self@.take()),
    {
        let take: usize = if self.remaining < WIPE_CHUNK as u64 {
            self.remaining as usize
        } else {
            WIPE_CHUNK
        };
        let chunk: Vec<u8> = vec![0u8; take];
        assert(chunk@ =~= crypto::zeros(self@.take()));
        chunk
    }
}

// ---------------------------------------------------------------------------
// Laws
// ---------------------------------------------------------------------------

/// A file in the course of its destruction.
#[verifier::ext_equal]
pub ghost struct WipedFile {
    /// The contents.
    pub data: Seq<u8>,
    /// Where it is written next.
    pub pos: nat,
    /// What has reached durable media.
    pub durable: Seq<u8>,
    /// The pieces written since the start was last gone to, joined.
    pub pass: Seq<u8>,
}

/// The file after one action.
pub open spec fn act(file: WipedFile, action: WipeActionView) -> WipedFile {
    match action {
        WipeActionView::SeekStart => WipedFile { pos: 0, pass: Seq::empty(), ..file },
        WipeActionView::Write(data) => WipedFile {
            data: disk::overwrite(file.data, file.pos, data),
            pos: file.pos + data.len(),
            pass: file.pass + data,
            ..file
        },
        WipeActionView::SyncAll => WipedFile { durable: file.data, ..file },
        WipeActionView::Truncate => WipedFile { data: Seq::empty(), ..file },
        WipeActionView::Exit => file,
        WipeActionView::Done => file,
    }
}

/// What holds of the file at each point of its destruction. At the end of the
/// random pass the file is what was written in it, and nothing else; at the
/// end of the other pass it is zeros.
pub open spec fn on_course(w: WipeView, file: WipedFile) -> bool {
    let written = w.size - w.remaining;
    match w.phase {
        WipePhase::RandomSeek => file.data.len() == w.size,
        WipePhase::RandomWrite => {
            &&& file.data.len() == w.size
            &&& file.pos == written
            &&& file.data.subrange(0, written) == file.pass
        },
        WipePhase::RandomSync => file.data.len() == w.size && file.data == file.pass,
        WipePhase::ZeroSeek => {
            &&& file.data.len() == w.size
            &&& file.data == file.pass
            &&& file.durable == file.pass
        },
        WipePhase::ZeroWrite => {
            &&& file.data.len() == w.size
            &&& file.pos == written
            &&& file.data.subrange(0, written) == crypto::zeros(written as nat)
        },
        WipePhase::ZeroSync => file.data == crypto::zeros(w.size),
        WipePhase::Truncate => file.data == crypto::zeros(w.size) && file.durable == crypto::zeros(w.size),
        WipePhase::FinalSync => file.data == Seq::<u8>::empty(),
        WipePhase::Exit => file.data == Seq::<u8>::empty() && file.durable == Seq::<u8>::empty(),
        WipePhase::Finished => file.data == Seq::<u8>::empty() && (w.size > 0 ==> file.durable == Seq::<
            u8,
        >::empty()),
    }
}

/// Each step keeps the destruction on course and brings it nearer to its end.
pub proof fn law_wipe_step(w: WipeView, action: WipeActionView, after: WipeView, file: WipedFile)
    requires
        w.wf(),
        on_course(w, file),
        w.steps_to(action, after),
    ensures
        after.wf(),
        on_course(after, act(file, action)),
        !(w.phase is Finished) ==> after.steps_left() < w.steps_left(),
{
    let next = act(file, action);
    let written = w.size - w.remaining;
    if w.phase is RandomSeek {
        assert(next.data.subrange(0, 0) =~= next.pass);
    }
    if w.phase is RandomWrite {
        let done = written + w.take();
        assert(next.data.len() == w.size);
        assert forall|i: int| 0 <= i < written implies next.data[i] == file.pass[i] by {
            assert(file.data.subrange(0, written)[i] == file.pass[i]);
        }
        assert(next.data.subrange(0, done) =~= next.pass);
        if after.phase is RandomSync {
            assert(next.data =~= next.pass);
        }
    }
    if w.phase is ZeroSeek {
        assert(next.data.subrange(0, 0) =~= crypto::zeros(0));
    }
    if w.phase is ZeroWrite {
        let done = written + w.take();
        assert(next.data.len() == w.size);
        assert forall|i: int| 0 <= i < done implies next.data[i] == 0 by {
            if i < written {
                assert(file.data.subrange(0, written)[i] == crypto::zeros(written as nat)[i]);
            }
        }
        assert(next.data.subrange(0, done) =~= crypto::zeros(done as nat));
        if after.phase is ZeroSync {
            assert(next.data =~= crypto::zeros(w.size));
        }
    }
}

/// The file after the first `n` actions.
pub open spec fn act_all(file: WipedFile, actions: Seq<WipeActionView>) -> WipedFile
    decreases actions.len(),
{
    if actions.len() == 0 {
        file
    } else {
        act(act_all(file, actions.drop_last()), actions.last())
    }
}

/// `states` and `actions` are a run of the destruction of a file of `size`
/// bytes.
pub open spec fn is_wipe_run(size: nat, states: Seq<WipeView>, actions: Seq<WipeActionView>) -> bool {
    &&& states.len() == actions.len() + 1
    &&& states[0] == new_wipe(size)
    &&& forall|i: int| #![trigger actions[i]]
        0 <= i < actions.len() ==> states[i].steps_to(actions[i], states[i + 1])
}

/// A run that has come to its end has destroyed the file, also on durable
/// media, before the process ends. After the random pass the durable file is
/// what was written in that pass. Before the file was cut off, every byte of
/// it was zero, also on durable media.
pub proof fn law_wipe_destroys_file(
    size: nat,
    states: Seq<WipeView>,
    actions: Seq<WipeActionView>,
    file: WipedFile,
)
    requires
        file.data.len() == size,
        is_wipe_run(size, states, actions),
    ensures
        states.last().wf(),
        on_course(states.last(), act_all(file, actions)),
        states.last().phase is ZeroSeek ==> act_all(file, actions).durable == act_all(file, actions).pass,
        states.last().phase is Truncate ==> act_all(file, actions).durable == crypto::zeros(size),
        states.last().phase is Exit ==> act_all(file, actions).durable == Seq::<u8>::empty(),
        states.last().phase is Finished ==> act_all(file, actions).data == Seq::<u8>::empty(),
        states.last().size == size,
    decreases actions.len(),
{
    if actions.len() == 0 {
        assert(states.last() == new_wipe(size));
        if size == 0 {
            assert(file.data =~= Seq::<u8>::empty());
        }
    } else {
        let front = actions.drop_last();
        let heads = states.drop_last();
        let last = actions.len() - 1;
        assert forall|i: int| #![trigger front[i]] 0 <= i < front.len() implies heads[i].steps_to(
            front[i],
            heads[i + 1],
        ) by {
            assert(front[i] == actions[i]);
        }
        law_wipe_destroys_file(size, heads, front, file);
        assert(heads.last() == states[last]);
        assert(actions[last] == actions.last());
        assert(states.last() == states[last + 1]);
        law_wipe_step(states[last], actions.last(), states.last(), act_all(file, front));
    }
}

/// The random pass leaves nothing of the file that was there: once it has been
/// flushed, any two files of the same size have become the same, also on
/// durable media.
pub proof fn law_random_pass_leaves_nothing(
    size: nat,
    states: Seq<WipeView>,
    actions: Seq<WipeActionView>,
    file1: WipedFile,
    file2: WipedFile,
)
    requires
        file1.data.len() == size,
        file2.data.len() == size,
        is_wipe_run(size, states, actions),
        states.last().phase is ZeroSeek,
    ensures
        act_all(file1, actions).data == act_all(file2, actions).data,
        act_all(file1, actions).durable == act_all(file2, actions).durable,
{
    law_wipe_destroys_file(size, states, actions, file1);
    law_wipe_destroys_file(size, states, actions, file2);
    if actions.len() == 0 {
        assert(states.last() == new_wipe(size));
    } else {
        assert(states[0].steps_to(actions[0], states[1]));
        lemma_pass_is_what_was_written(actions, file1, file2);
    }
}

/// What a pass has written does not depend on the file.
proof fn lemma_pass_is_what_was_written(actions: Seq<WipeActionView>, file1: WipedFile, file2: WipedFile)
    requires
        actions.len() > 0,
        actions[0] == WipeActionView::SeekStart,
    ensures
        act_all(file1, actions).pass == act_all(file2, actions).pass,
    decreases actions.len(),
{
    let front = actions.drop_last();
    if front.len() > 0 {
        lemma_pass_is_what_was_written(front, file1, file2);
    }
}

/// Where a phase stands in the order of the destruction.
pub open spec fn phase_rank(phase: WipePhase) -> nat {
    match phase {
        WipePhase::RandomSeek => 0,
        WipePhase::RandomWrite => 1,
        WipePhase::RandomSync => 2,
        WipePhase::ZeroSeek => 3,
        WipePhase::ZeroWrite => 4,
        WipePhase::ZeroSync => 5,
        WipePhase::Truncate => 6,
        WipePhase::FinalSync => 7,
        WipePhase::Exit => 8,
        WipePhase::Finished => 9,
    }
}

/// A run that is past a phase has been in it.
proof fn lemma_no_phase_is_skipped(
    size: nat,
    states: Seq<WipeView>,
    actions: Seq<WipeActionView>,
    phase: WipePhase,
) -> (at: int)
    requires
        size > 0,
        is_wipe_run(size, states, actions),
        phase_rank(phase) <= phase_rank(states.last().phase),
    ensures
        0 <= at < states.len(),
        states[at].phase == phase,
    decreases actions.len(),
{
    if states.last().phase == phase {
        states.len() - 1
    } else {
        let last = actions.len() - 1;
        let front = actions.drop_last();
        let heads = states.drop_last();
        if actions.len() == 0 {
            assert(states.last() == new_wipe(size));
            0
        } else {
            assert forall|i: int| #![trigger front[i]] 0 <= i < front.len() implies heads[i].steps_to(
                front[i],
                heads[i + 1],
            ) by {
                assert(front[i] == actions[i]);
            }
            assert(states[last].steps_to(actions[last], states[last + 1]));
            assert(heads.last() == states[last]);
            lemma_no_phase_is_skipped(size, heads, front, phase)
        }
    }
}

/// The first steps of a run are a run.
proof fn lemma_run_prefix(size: nat, states: Seq<WipeView>, actions: Seq<WipeActionView>, n: int)
    requires
        is_wipe_run(size, states, actions),
        0 <= n < states.len(),
    ensures
        is_wipe_run(size, states.take(n + 1), actions.take(n)),
{
    let (heads, front) = (states.take(n + 1), actions.take(n));
    assert forall|i: int| #![trigger front[i]] 0 <= i < front.len() implies heads[i].steps_to(
        front[i],
        heads[i + 1],
    ) by {
        assert(front[i] == actions[i]);
    }
}

/// The destruction of a file that is not empty leaves no pass out: before the
/// end there was a point at which the durable file was as many bytes as
/// before, all written in the random pass, and a point at which it was as many
/// zeros.
pub proof fn law_wipe_leaves_no_pass_out(
    size: nat,
    states: Seq<WipeView>,
    actions: Seq<WipeActionView>,
    file: WipedFile,
) -> (at: (int, int))
    requires
        size > 0,
        file.data.len() == size,
        is_wipe_run(size, states, actions),
        states.last().phase is Finished,
    ensures
        0 <= at.0 < states.len(),
        states[at.0].phase is ZeroSeek,
        act_all(file, actions.take(at.0)).durable.len() == size,
        act_all(file, actions.take(at.0)).durable == act_all(file, actions.take(at.0)).pass,
        0 <= at.1 < states.len(),
        states[at.1].phase is Truncate,
        act_all(file, actions.take(at.1)).durable.len() == size,
        forall|i: int| 0 <= i < size ==> #[trigger] act_all(file, actions.take(at.1)).durable[i] == 0,
        act_all(file, actions).durable.len() == 0,
        act_all(file, actions).data.len() == 0,
{
    let random = lemma_no_phase_is_skipped(size, states, actions, WipePhase::ZeroSeek);
    lemma_run_prefix(size, states, actions, random);
    law_wipe_destroys_file(size, states.take(random + 1), actions.take(random), file);
    let zero = lemma_no_phase_is_skipped(size, states, actions, WipePhase::Truncate);
    lemma_run_prefix(size, states, actions, zero);
    law_wipe_destroys_file(size, states.take(zero + 1), actions.take(zero), file);
    law_wipe_destroys_file(size, states, actions, file);
    (random, zero)
}

/// What each action does to the file: a piece lands where the file is and
/// moves it on, a flush makes all of it durable, and cutting it leaves nothing.
pub proof fn law_actions_on_file(file: WipedFile, data: Seq<u8>)
    ensures
        act(file, WipeActionView::SeekStart).pos == 0,
        act(file, WipeActionView::SeekStart).data == file.data,
        act(file, WipeActionView::SeekStart).durable == file.durable,
        act(file, WipeActionView::Write(data)).data == disk::run_one(
            file.data,
            disk::DiskOpView::WriteAt { offset: file.pos, data },
        ),
        act(file, WipeActionView::Write(data)).pos == file.pos + data.len(),
        act(file, WipeActionView::Write(data)).durable == file.durable,
        act(file, WipeActionView::SyncAll).data == file.data,
        act(file, WipeActionView::SyncAll).durable == file.data,
        act(file, WipeActionView::Truncate).data == Seq::<u8>::empty(),
        act(file, WipeActionView::Truncate).durable == file.durable,
        act(file, WipeActionView::Exit) == file,
        act(file, WipeActionView::Done) == file,
{
}

/// A file is written in pieces of 4096 bytes, but for the last of a pass, which
/// is what is left; the last step is to end the process, and an empty file
/// asks for none.
pub proof fn law_wipe_pieces(w: WipeView, action: WipeActionView, after: WipeView)
    requires
        w.wf(),
        w.steps_to(action, after),
    ensures
        action matches WipeActionView::Write(data) ==> 0 < data.len() <= 4096 && data.len() <= w.remaining,
        action matches WipeActionView::Write(data) ==> data.len() < 4096 ==> data.len() == w.remaining,
        action is Exit <==> w.phase is Exit,
        action is Done <==> w.phase is Finished,
        after.phase is Finished ==> w.phase is Exit || w.phase is Finished,
        new_wipe(0).phase is Finished,
        w.size > 0 ==> new_wipe(w.size).phase is RandomSeek,
{
}

} // verus!
