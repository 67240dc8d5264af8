//! The block bitmap: one bit per data block, bit `i % 8` of byte `i / 8`.

use vstd::prelude::*;

verus! {

/// Bit `k` of `byte` is set.
pub open spec fn bit_of(byte: u8, k: u8) -> bool {
    byte & (1u8 << k) != 0
}

/// The first `n` bits of a bitmap.
pub open spec fn bits(bitmap: Seq<u8>, n: nat) -> Seq<bool> {
    Seq::new(n, |i: int| bit_of(bitmap[i / 8], (i % 8) as u8))
}

/// How many bits are clear.
pub open spec fn clear_count(flags: Seq<bool>) -> nat
    decreases flags.len(),
{
    if flags.len() == 0 {
        0
    } else {
        clear_count(flags.drop_last()) + if flags.last() { 0nat } else { 1nat }
    }
}

/// There are no more clear bits than bits.
pub proof fn lemma_clear_count_bound(flags: Seq<bool>)
    ensures
        clear_count(flags) <= flags.len(),
    decreases flags.len(),
{
    if flags.len() > 0 {
        lemma_clear_count_bound(flags.drop_last());
    }
}

/// Setting a clear bit takes one from the count; clearing a set bit adds one.
pub proof fn lemma_clear_count_update(flags: Seq<bool>, i: int, value: bool)
    requires
        0 <= i < flags.len(),
    ensures
        clear_count(flags.update(i, value)) + (if flags[i] { 0int } else { 1int }) == clear_count(flags) + (if value {
            0int
        } else {
            1int
        }),
    decreases flags.len(),
{
    let after = flags.update(i, value);
    if i == flags.len() - 1 {
        assert(after.drop_last() =~= flags.drop_last());
    } else {
        assert(after.drop_last() =~= flags.drop_last().update(i, value));
        lemma_clear_count_update(flags.drop_last(), i, value);
    }
}

/// A bit is clear somewhere exactly when the count is not zero.
pub proof fn lemma_clear_count_zero(flags: Seq<bool>)
    ensures
        clear_count(flags) == 0 <==> (forall|i: int| 0 <= i < flags.len() ==> flags[i]),
    decreases flags.len(),
{
    if flags.len() > 0 {
        let front = flags.drop_last();
        lemma_clear_count_zero(front);
        if clear_count(flags) == 0 {
            assert forall|i: int| 0 <= i < flags.len() implies flags[i] by {
                if i < flags.len() - 1 {
                    assert(front[i]);
                }
            }
        }
        if forall|i: int| 0 <= i < flags.len() ==> flags[i] {
            assert(flags[flags.len() - 1]);
            assert forall|i: int| 0 <= i < front.len() implies front[i] by {
                assert(flags[i]);
            }
        }
    }
}

/// All bits of zero bytes are clear.
pub proof fn lemma_zero_bits(bitmap: Seq<u8>, n: nat)
    requires
        n <= 8 * bitmap.len(),
        forall|i: int| 0 <= i < bitmap.len() ==> bitmap[i] == 0,
    ensures
        bits(bitmap, n) == Seq::new(n, |i: int| false),
        clear_count(bits(bitmap, n)) == n,
    decreases n,
{
    let flags = bits(bitmap, n);
    assert forall|i: int| 0 <= i < n implies !flags[i] by {
        let k: u8 = (i % 8) as u8;
        assert(0u8 & (1u8 << k) == 0) by (bit_vector);
        assert(bitmap[i / 8] == 0);
    }
    assert(flags =~= Seq::new(n, |i: int| false));
    if n > 0 {
        lemma_zero_bits(bitmap, (n - 1) as nat);
        assert(flags.drop_last() =~= bits(bitmap, (n - 1) as nat));
    }
}

/// Setting bit `i` of a byte changes that bit and no other.
proof fn lemma_set_bit(byte: u8, k: u8)
    requires
        k < 8,
    ensures
        forall|j: u8| j < 8 ==> #[trigger] bit_of(byte | (1u8 << k), j) == (bit_of(byte, j) || j == k),
{
    assert forall|j: u8| j < 8 implies #[trigger] bit_of(byte | (1u8 << k), j) == (bit_of(byte, j) || j == k) by {
        assert(((byte | (1u8 << k)) & (1u8 << j) != 0) == (byte & (1u8 << j) != 0 || j == k)) by (bit_vector)
            requires
                j < 8,
                k < 8,
        ;
    }
}

/// Clearing bit `i` of a byte changes that bit and no other.
proof fn lemma_clear_bit(byte: u8, k: u8)
    requires
        k < 8,
    ensures
        forall|j: u8| j < 8 ==> #[trigger] bit_of(byte & !(1u8 << k), j) == (bit_of(byte, j) && j != k),
{
    assert forall|j: u8| j < 8 implies #[trigger] bit_of(byte & !(1u8 << k), j) == (bit_of(byte, j) && j != k) by {
        assert(((byte & !(1u8 << k)) & (1u8 << j) != 0) == (byte & (1u8 << j) != 0 && j != k)) by (bit_vector)
            requires
                j < 8,
                k < 8,
        ;
    }
}

/// Whether bit `i` is set.
pub(crate) fn test_bit(bitmap: &Vec<u8>, i: usize) -> (set: bool)
    requires
        i < 8 * bitmap@.len(),
    ensures
        forall|n: nat| i < n ==> set == #[trigger] bits(bitmap@, n)[i as int],
{
    let k: u8 = (i % 8) as u8;
    bitmap[i / 8] & (1u8 << k) != 0
}

/// Sets or clears bit `i`.
pub(crate) fn assign_bit(bitmap: &mut Vec<u8>, i: usize, value: bool)
    requires
        i < 8 * old(bitmap)@.len(),
    ensures
        final(bitmap)@.len() == old(bitmap)@.len(),
        forall|n: nat|
            i < n <= 8 * old(bitmap)@.len() ==> #[trigger] bits(final(bitmap)@, n) == bits(
                old(bitmap)@,
                n,
            ).update(i as int, value),
        forall|n: nat| n <= i ==> #[trigger] bits(final(bitmap)@, n) == bits(old(bitmap)@, n),
{
    let k: u8 = (i % 8) as u8;
    let byte: u8 = bitmap[i / 8];
    let changed: u8 = if value {
        byte | (1u8 << k)
    } else {
        byte & !(1u8 << k)
    };
    proof {
        lemma_set_bit(byte, k);
        lemma_clear_bit(byte, k);
    }
    bitmap.set(i / 8, changed);
    proof {
        let before = old(bitmap)@;
        let after = bitmap@;
        assert forall|j: int| 0 <= j < 8 * before.len() implies #[trigger] bit_of(after[j / 8], (j % 8) as u8) == (if j == i {
            value
        } else {
            bit_of(before[j / 8], (j % 8) as u8)
        }) by {
            if j / 8 == i / 8 {
                assert(after[j / 8] == changed);
                if (j % 8) as u8 == k {
                    assert(j == i);
                }
            } else {
                assert(j != i);
                assert(after[j / 8] == before[j / 8]);
            }
        }
        assert forall|n: nat| i < n <= 8 * before.len() implies #[trigger] bits(after, n) == bits(before, n).update(i as int, value) by {
            assert(bits(after, n) =~= bits(before, n).update(i as int, value));
        }
        assert forall|n: nat| n <= i implies #[trigger] bits(after, n) == bits(before, n) by {
            assert(bits(after, n) =~= bits(before, n));
        }
    }
}

/// How many of the first `n` bits are clear.
pub(crate) fn count_clear(bitmap: &Vec<u8>, n: usize) -> (count: u64)
    requires
        n <= 8 * bitmap@.len(),
        n < u64::MAX,
    ensures
        count == clear_count(bits(bitmap@, n as nat)),
{
    let mut count: u64 = 0;
    let mut i: usize = 0;
    while i < n
        invariant
            i <= n < u64::MAX,
            n <= 8 * bitmap@.len(),
            count == clear_count(bits(bitmap@, i as nat)),
            count <= i,
        decreases n - i,
    {
        proof {
            let flags = bits(bitmap@, (i + 1) as nat);
            assert(flags.drop_last() =~= bits(bitmap@, i as nat));
        }
        if !test_bit(bitmap, i) {
            count = count + 1;
        }
        i = i + 1;
    }
    count
}

/// The lowest clear bit among the first `n`.
pub(crate) fn find_clear(bitmap: &Vec<u8>, n: usize) -> (found: Option<usize>)
    requires
        n <= 8 * bitmap@.len(),
    ensures
        match found {
            Some(i) => {
                &&& i < n
                &&& !bits(bitmap@, n as nat)[i as int]
                &&& forall|j: int| 0 <= j < i ==> bits(bitmap@, n as nat)[j]
            },
            None => forall|j: int| 0 <= j < n ==> bits(bitmap@, n as nat)[j],
        },
{
    let mut i: usize = 0;
    while i < n
        invariant
            i <= n,
            n <= 8 * bitmap@.len(),
            forall|j: int| 0 <= j < i ==> bits(bitmap@, n as nat)[j],
        decreases n - i,
    {
        if !test_bit(bitmap, i) {
            return Some(i);
        }
        i = i + 1;
    }
    None
}

// ---------------------------------------------------------------------------
// Laws
// ---------------------------------------------------------------------------

/// Entry `i` of the bits is bit `i % 8` of byte `i / 8`, counted from the low
/// end.
pub proof fn law_bits_are_of_bytes(bitmap: Seq<u8>, n: nat, i: int)
    requires
        0 <= i < n,
    ensures
        bits(bitmap, n).len() == n,
        bits(bitmap, n)[i] == ((bitmap[i / 8] >> ((i % 8) as u8)) % 2 == 1),
{
    let byte = bitmap[i / 8];
    let k: u8 = (i % 8) as u8;
    assert((byte & (1u8 << k) != 0) == ((byte >> k) % 2 == 1)) by (bit_vector)
        requires
            k < 8,
    ;
}

/// The count is that of the entries that are false.
pub proof fn law_clear_count_counts_clear(flags: Seq<bool>)
    ensures
        clear_count(flags) == flags.filter(|set: bool| !set).len(),
    decreases flags.len(),
{
    reveal(Seq::filter);
    if flags.len() > 0 {
        law_clear_count_counts_clear(flags.drop_last());
    }
}

} // verus!
