//! Estimation of how far the counters of two peers have drifted apart.
//!
//! Each frame tells the remote counter. The differences to the local counter
//! go into a ring of 16 samples, whose median is the estimated skew.

use vstd::prelude::*;
use vstd::relations;
use vstd::seq_lib;

verus! {

/// Number of samples that are kept.
pub const DELTA_HISTORY_SIZE: usize = 16;

/// Largest forward offset that is tried where a frame does not fit its
/// declared counter.
pub const SEEK_WINDOW: u64 = 10;

// ---------------------------------------------------------------------------
// Ring of samples
// ---------------------------------------------------------------------------

/// The last 16 samples.
pub struct SkewRingBuffer {
    buf: [i64; 16],
    write_idx: usize,
    count: usize,
}

impl View for SkewRingBuffer {
    type V = Seq<i64>;

    /// The samples, oldest first.
    closed spec fn view(&self) -> Seq<i64> {
        if self.count < DELTA_HISTORY_SIZE {
            self.buf@.subrange(0, self.count as int)
        } else {
            self.buf@.subrange(self.write_idx as int, 16) + self.buf@.subrange(0, self.write_idx as int)
        }
    }
}

/// The order of samples.
pub open spec fn at_most() -> spec_fn(i64, i64) -> bool {
    |a: i64, b: i64| a <= b
}

/// The samples in order of size.
pub open spec fn ascending(samples: Seq<i64>) -> Seq<i64> {
    samples.sort_by(at_most())
}

/// Half of `x`, rounded towards zero.
pub open spec fn half(x: int) -> int {
    if x >= 0 {
        x / 2
    } else {
        -((-x) / 2)
    }
}

/// The median: the sample in the middle, or the mean of the two in the middle,
/// rounded towards zero. It is 0 where there are no samples.
pub open spec fn median_of(samples: Seq<i64>) -> int {
    let s = ascending(samples);
    let mid = samples.len() as int / 2;
    if samples.len() == 0 {
        0
    } else if samples.len() % 2 == 1 {
        s[mid] as int
    } else {
        half(s[mid - 1] + s[mid])
    }
}

/// The samples after one more has come.
pub open spec fn pushed(samples: Seq<i64>, delta: i64) -> Seq<i64> {
    if samples.len() < DELTA_HISTORY_SIZE {
        samples.push(delta)
    } else {
        samples.drop_first().push(delta)
    }
}

proof fn lemma_at_most_is_total()
    ensures
        relations::total_ordering(at_most()),
{
}

impl SkewRingBuffer {
    #[verifier::type_invariant]
    spec fn wf(self) -> bool {
        &&& self.write_idx < DELTA_HISTORY_SIZE
        &&& self.count <= DELTA_HISTORY_SIZE
        &&& self.count < DELTA_HISTORY_SIZE ==> self.write_idx == self.count
    }

    /// No samples.
    pub fn new() -> (ring: Self)
        ensures
            ring@ == Seq::<i64>::empty(),
    {
        let ring = SkewRingBuffer { buf: [0i64; 16], write_idx: 0, count: 0 };
        assert(ring@ =~= Seq::<i64>::empty());
        ring
    }

    /// Number of samples, at most 16.
    pub fn count(&self) -> (n: usize)
        ensures
            n == self@.len(),
            n <= DELTA_HISTORY_SIZE,
    {
        proof {
            use_type_invariant(self);
        }
        self.count
    }

    /// Adds a sample, in place of the oldest where there are 16 already.
    pub fn push(&mut self, delta: i64)
        ensures
            final(self)@ == pushed(old(self)@, delta),
    {
        proof {
            use_type_invariant(&*self);
        }
        let ghost before = *self;
        let at: usize = self.write_idx;
        let mut buf: [i64; 16] = self.buf;
        buf[at] = delta;
        let count: usize = if self.count < DELTA_HISTORY_SIZE {
            self.count + 1
        } else {
            self.count
        };
        *self = SkewRingBuffer { buf, write_idx: (at + 1) % DELTA_HISTORY_SIZE, count };
        proof {
            assert(self.buf@ == before.buf@.update(at as int, delta));
            assert(self@ =~= pushed(before@, delta));
        }
    }

    /// The samples in order of size.
    pub fn sorted_entries(&self) -> (sorted: Vec<i64>)
        ensures
            sorted@ == ascending(self@),
            sorted@.len() == self@.len(),
            forall|i: int, j: int| 0 <= i <= j < sorted@.len() ==> sorted@[i] <= sorted@[j],
            sorted@.to_multiset() == self@.to_multiset(),
    {
        broadcast use vstd::seq_lib::group_to_multiset_ensures;

        proof {
            use_type_invariant(self);
        }
        let mut sorted: Vec<i64> = Vec::new();
        let mut i: usize = 0;
        assert(self.buf@.subrange(0, 0) =~= Seq::<i64>::empty());
        while i < self.count
            invariant
                self.wf(),
                i <= self.count,
                sorted@.len() == i,
                forall|a: int, b: int| 0 <= a <= b < sorted@.len() ==> sorted@[a] <= sorted@[b],
                sorted@.to_multiset() == self.buf@.subrange(0, i as int).to_multiset(),
            decreases self.count - i,
        {
            let x: i64 = self.buf[i];
            proof {
                let next = self.buf@.subrange(0, i + 1);
                assert(next =~= self.buf@.subrange(0, i as int).push(x));
                seq_lib::to_multiset_build(self.buf@.subrange(0, i as int), x);
            }
            insert_sorted(&mut sorted, x);
            i = i + 1;
        }
        proof {
            let stored = self.buf@.subrange(0, self.count as int);
            if self.count == DELTA_HISTORY_SIZE {
                let front = self.buf@.subrange(0, self.write_idx as int);
                let back = self.buf@.subrange(self.write_idx as int, 16);
                assert(stored =~= front + back);
                assert(self@ =~= back + front);
                seq_lib::lemma_multiset_commutative(front, back);
                seq_lib::lemma_multiset_commutative(back, front);
                assert(stored.to_multiset() =~= self@.to_multiset());
            }
            law_ascending_is_unique(self@, sorted@);
            seq_lib::to_multiset_len(sorted@);
            seq_lib::to_multiset_len(self@);
        }
        sorted
    }

    /// The median of the samples.
    pub fn median(&self) -> (m: i64)
        ensures
            m == median_of(self@),
    {
        proof {
            use_type_invariant(self);
        }
        if self.count == 0 {
            return 0;
        }
        let sorted: Vec<i64> = self.sorted_entries();
        let mid: usize = self.count / 2;
        if self.count % 2 == 1 {
            sorted[mid]
        } else {
            let sum: i128 = sorted[mid - 1] as i128 + sorted[mid] as i128;
            if sum >= 0 {
                (sum / 2) as i64
            } else {
                (-((-sum) / 2)) as i64
            }
        }
    }
}

/// Inserts `x` into an ascending vector so that it stays ascending.
fn insert_sorted(sorted: &mut Vec<i64>, x: i64)
    requires
        forall|a: int, b: int| 0 <= a <= b < old(sorted)@.len() ==> old(sorted)@[a] <= old(sorted)@[b],
    ensures
        final(sorted)@.len() == old(sorted)@.len() + 1,
        forall|a: int, b: int| 0 <= a <= b < final(sorted)@.len() ==> final(sorted)@[a] <= final(sorted)@[b],
        final(sorted)@.to_multiset() == old(sorted)@.to_multiset().insert(x),
{
    let mut at: usize = 0;
    while at < sorted.len() && sorted[at] <= x
        invariant
            at <= sorted@.len(),
            sorted@ == old(sorted)@,
            forall|a: int| 0 <= a < at ==> sorted@[a] <= x,
        decreases sorted@.len() - at,
    {
        at = at + 1;
    }
    sorted.insert(at, x);
    proof {
        seq_lib::to_multiset_insert(old(sorted)@, at as int, x);
        let before = old(sorted)@;
        let after = sorted@;
        assert forall|a: int, b: int| 0 <= a <= b < after.len() implies after[a] <= after[b] by {
            let i = if a < at { a } else { a - 1 };
            let j = if b < at { b } else { b - 1 };
            if a != at && b != at {
                assert(before[i] <= before[j]);
            } else if a == at && b > at {
                assert(before[at as int] <= before[j]);
            }
        }
    }
}

// ---------------------------------------------------------------------------
// Skew
// ---------------------------------------------------------------------------

/// The state of the estimation.
pub struct ClockAlign {
    history: Option<SkewRingBuffer>,
    last_sample_ns: Option<u64>,
    estimated_skew: i64,
}

/// The state of the estimation, seen as mathematical values.
#[verifier::ext_equal]
pub ghost struct ClockView {
    /// The samples, once the estimation has been initialised.
    pub history: Option<Seq<i64>>,
    /// The time of the last sample, once the estimation has been initialised.
    pub last_sample_ns: Option<u64>,
    /// The estimated skew.
    pub skew: int,
}

impl View for ClockAlign {
    type V = ClockView;

    closed spec fn view(&self) -> ClockView {
        ClockView {
            history: match self.history {
                Some(ring) => Some(ring@),
                None => None,
            },
            last_sample_ns: self.last_sample_ns,
            skew: self.estimated_skew as int,
        }
    }
}

impl ClockAlign {
    /// Before the initialisation, the skew is 0.
    pub fn new() -> (clock: Self)
        ensures
            clock@ == (ClockView { history: None, last_sample_ns: None, skew: 0 }),
    {
        ClockAlign { history: None, last_sample_ns: None, estimated_skew: 0 }
    }
}

/// The state once it has been initialised. What has been initialised already
/// stays as it is.
pub open spec fn initialised(clock: ClockView) -> ClockView {
    ClockView {
        history: if clock.history is Some { clock.history } else { Some(Seq::empty()) },
        last_sample_ns: if clock.last_sample_ns is Some { clock.last_sample_ns } else { Some(0) },
        ..clock
    }
}

/// Initialises the estimation. What has been initialised already stays as it
/// is.
pub fn init_clock_align(clock: &mut ClockAlign)
    ensures
        final(clock)@ == initialised(old(clock)@),
{
    if clock.history.is_none() {
        clock.history = Some(SkewRingBuffer::new());
    }
    if clock.last_sample_ns.is_none() {
        clock.last_sample_ns = Some(0);
    }
}

/// The difference of two counters.
pub open spec fn counter_delta(remote_counter: u64, local_counter: u64) -> int {
    (remote_counter as i64) - (local_counter as i64)
}

/// Takes a sample: the remote counter of a frame less the local counter, at
/// the time `now_ns`. The estimated skew becomes the median of the samples.
pub fn record_counter_observation(clock: &mut ClockAlign, remote_counter: u64, local_counter: u64, now_ns: u64)
    requires
        i64::MIN <= counter_delta(remote_counter, local_counter) <= i64::MAX,
    ensures
        ({
            let delta = counter_delta(remote_counter, local_counter) as i64;
            final(clock)@ == (ClockView {
                history: match old(clock)@.history {
                    Some(samples) => Some(pushed(samples, delta)),
                    None => None,
                },
                last_sample_ns: if old(clock)@.last_sample_ns is Some { Some(now_ns) } else { None },
                skew: match old(clock)@.history {
                    Some(samples) => median_of(pushed(samples, delta)),
                    None => old(clock)@.skew,
                },
            })
        }),
{
    let delta: i64 = remote_counter as i64 - local_counter as i64;
    if let Some(mut ring) = clock.history.take() {
        ring.push(delta);
        clock.estimated_skew = ring.median();
        clock.history = Some(ring);
    }
    if clock.last_sample_ns.is_some() {
        clock.last_sample_ns = Some(now_ns);
    }
}

/// Nanoseconds of whole seconds, as far as 64 bits go.
pub open spec fn whole_nanos(secs: u64) -> int {
    if secs * 1_000_000_000 > u64::MAX {
        u64::MAX as int
    } else {
        secs * 1_000_000_000
    }
}

/// Nanoseconds of a span of whole seconds and a rest, for the time of a sample.
pub fn monotonic_nanos(secs: u64, subsec_nanos: u32) -> (nanos: u64)
    requires
        whole_nanos(secs) + subsec_nanos <= u64::MAX,
    ensures
        nanos == whole_nanos(secs) + subsec_nanos,
{
    let whole: u64 = match secs.checked_mul(1_000_000_000) {
        Some(nanos) => nanos,
        None => u64::MAX,
    };
    whole + subsec_nanos as u64
}

/// The estimated skew in counter steps. It is positive where the remote peer
/// is ahead and negative where it is behind.
pub fn estimated_skew(clock: &ClockAlign) -> (steps: i64)
    ensures
        steps == clock@.skew,
{
    clock.estimated_skew
}

/// Initialises the estimation.
pub fn init(clock: &mut ClockAlign)
    ensures
        final(clock)@ == initialised(old(clock)@),
{
    init_clock_align(clock)
}

/// The estimated skew in counter steps.
pub fn skew(clock: &ClockAlign) -> (steps: i64)
    ensures
        steps == clock@.skew,
{
    estimated_skew(clock)
}

// ---------------------------------------------------------------------------
// Laws
// ---------------------------------------------------------------------------

/// Any arrangement of the samples in order of size is the one that the median
/// is taken from.
pub proof fn law_ascending_is_unique(samples: Seq<i64>, sorted: Seq<i64>)
    requires
        forall|i: int, j: int| 0 <= i <= j < sorted.len() ==> sorted[i] <= sorted[j],
        sorted.to_multiset() == samples.to_multiset(),
    ensures
        ascending(samples) == sorted,
{
    lemma_at_most_is_total();
    samples.lemma_sort_by_ensures(at_most());
    assert(relations::sorted_by(sorted, at_most()));
    seq_lib::lemma_sorted_unique(sorted, ascending(samples), at_most());
}

/// The samples after a run of them has come.
pub open spec fn pushed_all(deltas: Seq<i64>) -> Seq<i64>
    decreases deltas.len(),
{
    if deltas.len() == 0 {
        Seq::empty()
    } else {
        pushed(pushed_all(deltas.drop_last()), deltas.last())
    }
}

/// The ring holds the last 16 samples, in the order in which they came.
pub proof fn law_ring_holds_last_samples(deltas: Seq<i64>)
    ensures
        pushed_all(deltas) == deltas.subrange(
            if deltas.len() > DELTA_HISTORY_SIZE { deltas.len() - DELTA_HISTORY_SIZE } else { 0 },
            deltas.len() as int,
        ),
    decreases deltas.len(),
{
    if deltas.len() > 0 {
        law_ring_holds_last_samples(deltas.drop_last());
        let from = if deltas.len() > DELTA_HISTORY_SIZE { deltas.len() - DELTA_HISTORY_SIZE } else { 0 };
        assert(pushed_all(deltas) =~= deltas.subrange(from, deltas.len() as int));
    } else {
        assert(pushed_all(deltas) =~= deltas.subrange(0, 0));
    }
}

/// The skew of peers whose counters always differ by the same is that
/// difference.
pub proof fn law_constant_skew_is_found(samples: Seq<i64>, delta: i64)
    requires
        samples.len() > 0,
        forall|i: int| 0 <= i < samples.len() ==> samples[i] == delta,
    ensures
        median_of(samples) == delta,
{
    broadcast use vstd::seq_lib::group_to_multiset_ensures;

    lemma_at_most_is_total();
    samples.lemma_sort_by_ensures(at_most());
    let s = ascending(samples);
    seq_lib::to_multiset_len(s);
    seq_lib::to_multiset_len(samples);
    assert forall|i: int| 0 <= i < s.len() implies s[i] == delta by {
        assert(s.contains(s[i]));
        assert(samples.contains(s[i]));
    }
}

/// The median is the middle one of the samples in order of size, or lies
/// halfway between the two in the middle, up to the rounding, which goes
/// towards zero.
pub proof fn law_median_is_in_the_middle(samples: Seq<i64>, sorted: Seq<i64>)
    requires
        samples.len() > 0,
        forall|i: int, j: int| 0 <= i <= j < sorted.len() ==> sorted[i] <= sorted[j],
        sorted.to_multiset() == samples.to_multiset(),
    ensures
        ({
            let n = samples.len() as int;
            let m = median_of(samples);
            let sum = sorted[n / 2 - 1] + sorted[n / 2];
            &&& n % 2 == 1 ==> m == sorted[n / 2]
            &&& n % 2 == 0 && sum >= 0 ==> 2 * m <= sum <= 2 * m + 1
            &&& n % 2 == 0 && sum < 0 ==> 2 * m - 1 <= sum <= 2 * m
        }),
{
    law_ascending_is_unique(samples, sorted);
}

/// Counters below 2^63 differ by what is left after subtraction; those from
/// there on count as negative.
pub proof fn law_counter_delta(remote_counter: u64, local_counter: u64)
    ensures
        ({
            let top: int = 0x8000_0000_0000_0000;
            let remote = if remote_counter < top { remote_counter as int } else { remote_counter - 2 * top };
            let local = if local_counter < top { local_counter as int } else { local_counter - 2 * top };
            counter_delta(remote_counter, local_counter) == remote - local
        }),
{
    lemma_signed(remote_counter);
    lemma_signed(local_counter);
}

proof fn lemma_signed(x: u64)
    ensures
        x < 0x8000_0000_0000_0000 ==> x as i64 == x,
        x >= 0x8000_0000_0000_0000 ==> x as i64 == x - 0x1_0000_0000_0000_0000,
{
    assert(x < 0x8000_0000_0000_0000 ==> x as i64 == x) by (bit_vector);
    assert(x >= 0x8000_0000_0000_0000 ==> x as i64 == x - 0x1_0000_0000_0000_0000) by (bit_vector);
}

/// A second is a thousand million nanoseconds, up to the largest number of 64
/// bits.
pub proof fn law_whole_nanos(secs: u64)
    ensures
        secs <= 18_446_744_073 ==> whole_nanos(secs) == secs * 1_000_000_000,
        secs > 18_446_744_073 ==> whole_nanos(secs) == 0xffff_ffff_ffff_ffff,
{
}

/// Initialising twice comes to the same as once; it starts with no samples and
/// the time 0, and leaves the skew, and what was there, alone.
pub proof fn law_initialising_keeps_what_is_there(clock: ClockView)
    ensures
        initialised(initialised(clock)) == initialised(clock),
        clock.history is None ==> initialised(clock).history == Some(Seq::<i64>::empty()),
        clock.history is Some ==> initialised(clock).history == clock.history,
        clock.last_sample_ns is None ==> initialised(clock).last_sample_ns == Some(0u64),
        clock.last_sample_ns is Some ==> initialised(clock).last_sample_ns == clock.last_sample_ns,
        initialised(clock).skew == clock.skew,
{
}

/// A sample goes behind the others; the oldest of 16 makes room for it.
pub proof fn law_push_drops_the_oldest(samples: Seq<i64>, delta: i64, i: int)
    requires
        samples.len() <= 16,
    ensures
        pushed(samples, delta).last() == delta,
        samples.len() < 16 ==> pushed(samples, delta).len() == samples.len() + 1,
        samples.len() == 16 ==> pushed(samples, delta).len() == 16,
        samples.len() < 16 && 0 <= i < samples.len() ==> pushed(samples, delta)[i] == samples[i],
        samples.len() == 16 && 0 <= i < 15 ==> pushed(samples, delta)[i] == samples[i + 1],
{
}

} // verus!
