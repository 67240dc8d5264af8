//! Little-endian numbers and other byte-string building blocks.

use vstd::prelude::*;
use vstd::arithmetic::{div_mod, power};

verus! {

/// The `n` low bytes of `x`, least significant first.
pub open spec fn le_bytes(x: nat, n: nat) -> Seq<u8>
    decreases n,
{
    if n == 0 {
        Seq::empty()
    } else {
        seq![(x % 256) as u8] + le_bytes(x / 256, (n - 1) as nat)
    }
}

/// The number that `s` spells, least significant byte first.
pub open spec fn le_value(s: Seq<u8>) -> nat
    decreases s.len(),
{
    if s.len() == 0 {
        0
    } else {
        s[0] as nat + 256 * le_value(s.drop_first())
    }
}

/// How many numbers `n` bytes can spell.
pub open spec fn le_range(n: nat) -> nat
    decreases n,
{
    if n == 0 {
        1
    } else {
        256 * le_range((n - 1) as nat)
    }
}

/// `n` bytes spell every number below 2^16, 2^32 and 2^64 for `n` of 2, 4 and 8.
pub proof fn lemma_le_range()
    ensures
        le_range(2) == 0x1_0000,
        le_range(4) == 0x1_0000_0000,
        le_range(8) == 0x1_0000_0000_0000_0000,
{
    reveal_with_fuel(le_range, 9);
}

/// A number is spelled with as many bytes as were asked for.
pub broadcast proof fn lemma_le_bytes_len(x: nat, n: nat)
    ensures
        #[trigger] le_bytes(x, n).len() == n,
    decreases n,
{
    if n > 0 {
        lemma_le_bytes_len(x / 256, (n - 1) as nat);
    }
}

/// Reading a spelled number gives the number back.
pub proof fn lemma_le_value_of_bytes(x: nat, n: nat)
    requires
        x < le_range(n),
    ensures
        le_value(le_bytes(x, n)) == x,
    decreases n,
{
    if n > 0 {
        let rest = le_bytes(x / 256, (n - 1) as nat);
        let s = le_bytes(x, n);
        assert(s.drop_first() =~= rest);
        assert(x / 256 < le_range((n - 1) as nat));
        lemma_le_value_of_bytes(x / 256, (n - 1) as nat);
    }
}

/// Spelling what was read gives the bytes back.
pub proof fn lemma_le_bytes_of_value(s: Seq<u8>)
    ensures
        le_bytes(le_value(s), s.len()) == s,
        le_value(s) < le_range(s.len()),
    decreases s.len(),
{
    if s.len() > 0 {
        let rest = s.drop_first();
        lemma_le_bytes_of_value(rest);
        let v = le_value(s);
        assert(v / 256 == le_value(rest));
        assert(v % 256 == s[0] as nat);
        assert(le_bytes(v, s.len()) =~= s);
    }
}

/// Two numbers in range that are spelled alike are equal.
pub proof fn lemma_le_bytes_injective(x: nat, y: nat, n: nat)
    requires
        x < le_range(n),
        y < le_range(n),
        le_bytes(x, n) == le_bytes(y, n),
    ensures
        x == y,
{
    lemma_le_value_of_bytes(x, n);
    lemma_le_value_of_bytes(y, n);
}

/// Appends the `n` low bytes of `x`, least significant first.
pub(crate) fn push_le(out: &mut Vec<u8>, x: u64, n: usize)
    ensures
        final(out)@ == old(out)@ + le_bytes(x as nat, n as nat),
{
    let mut rest: u64 = x;
    let mut i: usize = 0;
    let ghost start = out@;
    while i < n
        invariant
            i <= n,
            out@ + le_bytes(rest as nat, (n - i) as nat) == start + le_bytes(x as nat, n as nat),
        decreases n - i,
    {
        let ghost before = out@;
        let ghost tail = le_bytes(rest as nat / 256, (n - i - 1) as nat);
        out.push((rest % 256) as u8);
        assert(out@ + tail =~= before + (seq![(rest as nat % 256) as u8] + tail));
        rest = rest / 256;
        i = i + 1;
    }
    assert(out@ + le_bytes(rest as nat, 0) =~= out@);
}

/// Reads `n` bytes of `data` at `at` as a number, least significant first.
pub(crate) fn read_le(data: &[u8], at: usize, n: usize) -> (x: u64)
    requires
        n <= 8,
        at + n <= data@.len(),
    ensures
        x as nat == le_value(data@.subrange(at as int, at + n)),
{
    let ghost field = data@.subrange(at as int, at + n);
    let total: usize = data.len();
    let mut x: u64 = 0;
    let mut i: usize = n;
    proof {
        assert(field.subrange(n as int, n as int) =~= Seq::empty());
    }
    while i > 0
        invariant
            i <= n <= 8,
            at + n <= total == data@.len(),
            field == data@.subrange(at as int, at + n),
            x as nat == le_value(field.subrange(i as int, n as int)),
        decreases i,
    {
        i = i - 1;
        let b: u8 = data[at + i];
        proof {
            let tail = field.subrange(i as int + 1, n as int);
            let now = field.subrange(i as int, n as int);
            assert(now.drop_first() =~= tail);
            lemma_le_bytes_of_value(tail);
            lemma_le_range_bounds(tail.len());
        }
        x = x * 256 + b as u64;
    }
    proof {
        assert(field.subrange(0, n as int) =~= field);
    }
    x
}

/// Up to 7 bytes leave room for one more in 64 bits.
proof fn lemma_le_range_bounds(n: nat)
    requires
        n <= 7,
    ensures
        256 * le_range(n) <= 0x1_0000_0000_0000_0000,
{
    reveal_with_fuel(le_range, 9);
}

/// Appends the whole of `data`.
pub(crate) fn push_all(out: &mut Vec<u8>, data: &[u8])
    ensures
        final(out)@ == old(out)@ + data@,
{
    out.extend_from_slice(data);
    assert(out@ =~= old(out)@ + data@);
}

/// Copies `src` over `dest`, starting at `at`.
pub(crate) fn write_at(dest: &mut [u8], at: usize, src: &[u8])
    requires
        at + src@.len() <= old(dest)@.len(),
    ensures
        final(dest)@.len() == old(dest)@.len(),
        final(dest)@ == old(dest)@.subrange(0, at as int) + src@ + old(dest)@.subrange(
            at + src@.len(),
            old(dest)@.len() as int,
        ),
{
    let ghost before = dest@;
    let total: usize = dest.len();
    let mut i: usize = 0;
    while i < src.len()
        invariant
            i <= src@.len(),
            at + src@.len() <= total == before.len(),
            dest@.len() == before.len(),
            dest@ == before.subrange(0, at as int) + src@.subrange(0, i as int) + before.subrange(
                at + i,
                before.len() as int,
            ),
        decreases src@.len() - i,
    {
        dest[at + i] = src[i];
        i = i + 1;
        assert(dest@ =~= before.subrange(0, at as int) + src@.subrange(0, i as int) + before.subrange(
            at + i,
            before.len() as int,
        ));
    }
    assert(src@.subrange(0, i as int) =~= src@);
}

/// The `N` bytes of `data` at `at`.
pub(crate) fn array_at<const N: usize>(data: &[u8], at: usize) -> (out: [u8; N])
    requires
        at + N <= data@.len(),
    ensures
        out@ == data@.subrange(at as int, at + N),
{
    let total: usize = data.len();
    assert(at + N <= total);
    let mut out = [0u8; N];
    write_at(&mut out, 0, slice_part(data, at, at + N));
    assert(out@ =~= data@.subrange(at as int, at + N));
    out
}

/// The bytes of `data` from `from` up to `to`.
pub(crate) fn slice_part(data: &[u8], from: usize, to: usize) -> (part: &[u8])
    requires
        from <= to <= data@.len(),
    ensures
        part@ == data@.subrange(from as int, to as int),
{
    vstd::slice::slice_subrange(data, from, to)
}

/// Whether two byte strings are equal. All bytes are looked at, whatever the
/// first ones are.
pub(crate) fn equal_bytes(a: &[u8; 32], b: &[u8; 32]) -> (same: bool)
    ensures
        same == (a@ == b@),
{
    let mut acc: u8 = 0;
    let mut i: usize = 0;
    assert(a@.subrange(0, 0) =~= b@.subrange(0, 0));
    while i < 32
        invariant
            i <= 32,
            acc == 0 <==> a@.subrange(0, i as int) == b@.subrange(0, i as int),
        decreases 32 - i,
    {
        let x: u8 = a[i];
        let y: u8 = b[i];
        let ghost was = acc;
        acc = acc | (x ^ y);
        proof {
            assert((was | (x ^ y)) == 0 <==> (was == 0 && x == y)) by (bit_vector);
            let (s, t) = (a@.subrange(0, i as int), b@.subrange(0, i as int));
            let (s1, t1) = (a@.subrange(0, i + 1), b@.subrange(0, i + 1));
            assert(s1 =~= s.push(x));
            assert(t1 =~= t.push(y));
            if s1 == t1 {
                assert(s1[i as int] == t1[i as int]);
                assert(s =~= s1.drop_last());
                assert(t =~= t1.drop_last());
            }
        }
        i = i + 1;
    }
    assert(a@.subrange(0, 32) =~= a@);
    assert(b@.subrange(0, 32) =~= b@);
    acc == 0
}

// ---------------------------------------------------------------------------
// Laws
// ---------------------------------------------------------------------------

/// Byte `i` of a spelled number is its digit of weight 256 to the power of
/// `i`.
pub proof fn law_le_bytes_are_digits(x: nat, n: nat, i: nat)
    requires
        i < n,
    ensures
        le_bytes(x, n).len() == n,
        le_bytes(x, n)[i as int] == (x as int / power::pow(256, i)) % 256,
    decreases i,
{
    lemma_le_bytes_len(x, n);
    if i == 0 {
        power::lemma_pow0(256);
    } else {
        law_le_bytes_are_digits(x / 256, (n - 1) as nat, (i - 1) as nat);
        lemma_le_bytes_len(x / 256, (n - 1) as nat);
        assert(le_bytes(x, n)[i as int] == le_bytes(x / 256, (n - 1) as nat)[i - 1]);
        let below = power::pow(256, (i - 1) as nat);
        reveal(power::pow);
        assert(power::pow(256, i) == 256 * below);
        power::lemma_pow_positive(256, (i - 1) as nat);
        div_mod::lemma_div_denominator(x as int, 256, below);
    }
}

/// `n` bytes spell 256 to the power of `n` numbers.
pub proof fn law_le_range_is_power(n: nat)
    ensures
        le_range(n) == power::pow(256, n),
    decreases n,
{
    reveal(power::pow);
    if n > 0 {
        law_le_range_is_power((n - 1) as nat);
    }
}

} // verus!
