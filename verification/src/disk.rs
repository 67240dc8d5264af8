//! What the library asks of the file that holds a vault.
//!
//! The library touches no file. It hands out lists of operations, and the
//! caller carries them out in order. `run` says what file comes of a list.
//!
//! A list that touches a vault in use notes the times of the file first and
//! puts them back last, so that they tell nothing of what was done.

use vstd::prelude::*;
use crate::crypto;

verus! {

/// One operation on the vault file.
pub enum DiskOp {
    /// Set the length of the file, cutting it off or extending it with zeros.
    SetLen(u64),
    /// Write `data` at `offset`.
    WriteAt { offset: u64, data: Vec<u8> },
    /// Read `len` bytes at `offset`.
    ReadAt { offset: u64, len: u64 },
    /// Flush data and metadata to durable media.
    SyncAll,
    /// Note the access and the modification time of the file.
    NoteTimestamps,
    /// Set both times to what was noted last.
    RestoreTimestamps,
}

/// `DiskOp` over mathematical values.
#[verifier::ext_equal]
pub ghost enum DiskOpView {
    SetLen(nat),
    WriteAt { offset: nat, data: Seq<u8> },
    ReadAt { offset: nat, len: nat },
    SyncAll,
    NoteTimestamps,
    RestoreTimestamps,
}

impl View for DiskOp {
    type V = DiskOpView;

    open spec fn view(&self) -> DiskOpView {
        match *self {
            DiskOp::SetLen(n) => DiskOpView::SetLen(n as nat),
            DiskOp::WriteAt { offset, data } => DiskOpView::WriteAt { offset: offset as nat, data: data@ },
            DiskOp::ReadAt { offset, len } => DiskOpView::ReadAt { offset: offset as nat, len: len as nat },
            DiskOp::SyncAll => DiskOpView::SyncAll,
            DiskOp::NoteTimestamps => DiskOpView::NoteTimestamps,
            DiskOp::RestoreTimestamps => DiskOpView::RestoreTimestamps,
        }
    }
}

/// The views of a list of operations.
pub open spec fn views(ops: Seq<DiskOp>) -> Seq<DiskOpView> {
    Seq::new(ops.len(), |i: int| ops[i]@)
}

/// The file `disk` after `data` has been written at `offset`.
pub open spec fn overwrite(disk: Seq<u8>, offset: nat, data: Seq<u8>) -> Seq<u8> {
    let end = offset + data.len();
    Seq::new(
        if disk.len() < end { end } else { disk.len() },
        |i: int|
            if offset <= i < end {
                data[i - offset]
            } else if i < disk.len() {
                disk[i]
            } else {
                0u8
            },
    )
}

/// The file `disk` after one operation.
pub open spec fn run_one(disk: Seq<u8>, op: DiskOpView) -> Seq<u8> {
    match op {
        DiskOpView::SetLen(n) => if n <= disk.len() {
            disk.take(n as int)
        } else {
            disk + crypto::zeros((n - disk.len()) as nat)
        },
        DiskOpView::WriteAt { offset, data } => overwrite(disk, offset, data),
        DiskOpView::ReadAt { .. } => disk,
        DiskOpView::SyncAll => disk,
        DiskOpView::NoteTimestamps => disk,
        DiskOpView::RestoreTimestamps => disk,
    }
}

/// What one operation reads from the file `disk`.
pub open spec fn read_by(disk: Seq<u8>, op: DiskOpView) -> Seq<u8> {
    match op {
        DiskOpView::ReadAt { offset, len } => disk.subrange(offset as int, (offset + len) as int),
        _ => Seq::empty(),
    }
}

/// The file `disk` after a list of operations, first to last.
pub open spec fn run(disk: Seq<u8>, ops: Seq<DiskOpView>) -> Seq<u8>
    decreases ops.len(),
{
    if ops.len() == 0 {
        disk
    } else {
        run_one(run(disk, ops.drop_last()), ops.last())
    }
}

/// The views of several lists of operations.
pub open spec fn all_views(batches: Seq<Vec<DiskOp>>) -> Seq<Seq<DiskOpView>> {
    Seq::new(batches.len(), |i: int| views(batches[i]@))
}

/// The file `disk` after several lists of operations, first to last.
pub open spec fn run_all(disk: Seq<u8>, batches: Seq<Seq<DiskOpView>>) -> Seq<u8>
    decreases batches.len(),
{
    if batches.len() == 0 {
        disk
    } else {
        run(run_all(disk, batches.drop_last()), batches.last())
    }
}

/// One more list runs on the file that the others leave.
pub proof fn lemma_run_all_push(disk: Seq<u8>, batches: Seq<Vec<DiskOp>>, ops: Vec<DiskOp>)
    ensures
        run_all(disk, all_views(batches.push(ops))) == run(run_all(disk, all_views(batches)), views(ops@)),
{
    let longer = all_views(batches.push(ops));
    assert(longer.drop_last() =~= all_views(batches));
    assert(longer.last() == views(ops@));
}

/// A list of one to four operations runs as its members do in turn.
pub proof fn lemma_run_short(disk: Seq<u8>, a: DiskOpView, b: DiskOpView, c: DiskOpView, d: DiskOpView)
    ensures
        run(disk, Seq::empty()) == disk,
        run(disk, seq![a]) == run_one(disk, a),
        run(disk, seq![a, b]) == run_one(run_one(disk, a), b),
        run(disk, seq![a, b, c]) == run_one(run_one(run_one(disk, a), b), c),
        run(disk, seq![a, b, c, d]) == run_one(run_one(run_one(run_one(disk, a), b), c), d),
{
    reveal_with_fuel(run, 6);
    assert(seq![a].drop_last() =~= Seq::<DiskOpView>::empty());
    assert(seq![a, b].drop_last() =~= seq![a]);
    assert(seq![a, b, c].drop_last() =~= seq![a, b]);
    assert(seq![a, b, c, d].drop_last() =~= seq![a, b, c]);
}

// ---------------------------------------------------------------------------
// Times of the file
// ---------------------------------------------------------------------------

/// A file with its times.
#[verifier::ext_equal]
pub ghost struct TimedFile {
    /// The contents.
    pub data: Seq<u8>,
    /// The access time.
    pub atime: int,
    /// The modification time.
    pub mtime: int,
    /// The access and the modification time that were noted last.
    pub noted: Option<(int, int)>,
}

/// `op` can turn the file `before` into `after`. Whatever reads, writes,
/// resizes or flushes a file leaves its times open.
pub open spec fn happens(before: TimedFile, op: DiskOpView, after: TimedFile) -> bool {
    &&& after.data == run_one(before.data, op)
    &&& match op {
        DiskOpView::NoteTimestamps => {
            &&& after.atime == before.atime
            &&& after.mtime == before.mtime
            &&& after.noted == Some((before.atime, before.mtime))
        },
        DiskOpView::RestoreTimestamps => {
            &&& after.noted == before.noted
            &&& before.noted matches Some(times) ==> after.atime == times.0 && after.mtime == times.1
        },
        _ => after.noted == before.noted,
    }
}

/// `files` are the file before the first of `ops` and after each of them.
pub open spec fn is_course(files: Seq<TimedFile>, ops: Seq<DiskOpView>) -> bool {
    &&& files.len() == ops.len() + 1
    &&& forall|i: int| #![trigger ops[i]] 0 <= i < ops.len() ==> happens(files[i], ops[i], files[i + 1])
}

/// The times are noted first, put back last, and not noted in between.
pub open spec fn restores_times(ops: Seq<DiskOpView>) -> bool {
    &&& ops.len() >= 2
    &&& ops[0] is NoteTimestamps
    &&& ops.last() is RestoreTimestamps
    &&& forall|i: int| 0 < i < ops.len() ==> !(#[trigger] ops[i] is NoteTimestamps)
}

/// A list that restores the times leaves both as they were, whatever the
/// operations in between did to them.
pub proof fn law_times_are_restored(files: Seq<TimedFile>, ops: Seq<DiskOpView>)
    requires
        is_course(files, ops),
        restores_times(ops),
    ensures
        files.last().atime == files[0].atime,
        files.last().mtime == files[0].mtime,
        files.last().data == run(files[0].data, ops),
{
    lemma_course_runs(files, ops);
    let last = ops.len() - 1;
    assert(ops[0] is NoteTimestamps);
    lemma_noted_times_stay(files, ops, last);
    assert(ops[last] is RestoreTimestamps);
}

/// The contents of the file are those that `run` gives.
proof fn lemma_course_runs(files: Seq<TimedFile>, ops: Seq<DiskOpView>)
    requires
        is_course(files, ops),
    ensures
        files.last().data == run(files[0].data, ops),
    decreases ops.len(),
{
    if ops.len() > 0 {
        let front = ops.drop_last();
        let heads = files.drop_last();
        assert forall|i: int| #![trigger front[i]] 0 <= i < front.len() implies happens(
            heads[i],
            front[i],
            heads[i + 1],
        ) by {
            assert(front[i] == ops[i]);
        }
        lemma_course_runs(heads, front);
        assert(ops[ops.len() - 1] == ops.last());
    }
}

/// What was noted first is what is noted before operation `n`.
proof fn lemma_noted_times_stay(files: Seq<TimedFile>, ops: Seq<DiskOpView>, n: int)
    requires
        is_course(files, ops),
        restores_times(ops),
        1 <= n < ops.len(),
    ensures
        files[n].noted == Some((files[0].atime, files[0].mtime)),
    decreases n,
{
    if n == 1 {
        assert(ops[0] is NoteTimestamps);
    } else {
        lemma_noted_times_stay(files, ops, n - 1);
        assert(!(ops[n - 1] is NoteTimestamps));
    }
}

// ---------------------------------------------------------------------------
// Laws of the file
// ---------------------------------------------------------------------------

/// A write changes the bytes it covers and no others; where it reaches past
/// the end the file grows, and a gap is filled with zeros.
pub proof fn law_write_changes_what_it_covers(disk: Seq<u8>, offset: nat, data: Seq<u8>, i: int)
    ensures
        ({
            let after = run_one(disk, DiskOpView::WriteAt { offset, data });
            &&& offset + data.len() <= disk.len() ==> after.len() == disk.len()
            &&& offset + data.len() > disk.len() ==> after.len() == offset + data.len()
            &&& offset <= i < offset + data.len() ==> after[i] == data[i - offset]
            &&& 0 <= i < disk.len() && !(offset <= i < offset + data.len()) ==> after[i] == disk[i]
            &&& disk.len() <= i < offset ==> after[i] == 0
        }),
{
}

/// Setting the length keeps the bytes up to it and adds zeros where it grows.
pub proof fn law_set_len_cuts_or_extends(disk: Seq<u8>, n: nat, i: int)
    ensures
        ({
            let after = run_one(disk, DiskOpView::SetLen(n));
            &&& after.len() == n
            &&& 0 <= i < n && i < disk.len() ==> after[i] == disk[i]
            &&& disk.len() <= i < n ==> after[i] == 0
        }),
{
}

/// Operations run one after another, each on the file that the one before
/// leaves; what neither writes nor resizes leaves the bytes as they are.
pub proof fn law_operations_run_in_turn(disk: Seq<u8>, ops: Seq<DiskOpView>, op: DiskOpView)
    ensures
        run(disk, Seq::empty()) == disk,
        run(disk, ops.push(op)) == run_one(run(disk, ops), op),
        !(op is WriteAt) && !(op is SetLen) ==> run_one(disk, op) == disk,
{
    assert(ops.push(op).drop_last() =~= ops);
}

/// Several lists run as one list would that holds them all in turn.
pub proof fn law_lists_run_in_turn(disk: Seq<u8>, batches: Seq<Seq<DiskOpView>>, ops: Seq<DiskOpView>)
    ensures
        run_all(disk, Seq::empty()) == disk,
        run_all(disk, batches.push(ops)) == run(run_all(disk, batches), ops),
{
    assert(batches.push(ops).drop_last() =~= batches);
}

/// A read is of the bytes at its offset, as many as were asked for.
pub proof fn law_read_is_of_its_range(disk: Seq<u8>, offset: nat, len: nat, i: int)
    requires
        offset + len <= disk.len(),
    ensures
        read_by(disk, DiskOpView::ReadAt { offset, len }).len() == len,
        0 <= i < len ==> read_by(disk, DiskOpView::ReadAt { offset, len })[i] == disk[offset + i],
{
}

/// Whatever times a read, a write, a change of length or a flush leaves behind,
/// it can happen so.
pub proof fn law_times_are_at_risk(before: TimedFile, op: DiskOpView, atime: int, mtime: int)
    requires
        !(op is NoteTimestamps),
        !(op is RestoreTimestamps),
    ensures
        happens(before, op, TimedFile { data: run_one(before.data, op), atime, mtime, noted: before.noted }),
{
}

/// The view of a list has one entry for each operation, in order, with the
/// same numbers and bytes.
pub proof fn law_views_match_operations(ops: Seq<DiskOp>, i: int)
    requires
        0 <= i < ops.len(),
    ensures
        views(ops).len() == ops.len(),
        match ops[i] {
            DiskOp::SetLen(n) => views(ops)[i] == DiskOpView::SetLen(n as nat),
            DiskOp::WriteAt { offset, data } => views(ops)[i] == (DiskOpView::WriteAt {
                offset: offset as nat,
                data: data@,
            }),
            DiskOp::ReadAt { offset, len } => views(ops)[i] == (DiskOpView::ReadAt {
                offset: offset as nat,
                len: len as nat,
            }),
            DiskOp::SyncAll => views(ops)[i] is SyncAll,
            DiskOp::NoteTimestamps => views(ops)[i] is NoteTimestamps,
            DiskOp::RestoreTimestamps => views(ops)[i] is RestoreTimestamps,
        },
{
}

} // verus!
