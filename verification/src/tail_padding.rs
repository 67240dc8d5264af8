//! Random padding behind a payload, which hides its length.
//!
//! Layout: payload, noise of 16 to 512 bytes, length of the noise in two
//! bytes.

use vstd::prelude::*;
use crate::crypto;
use crate::encoding;
use crate::encoding::{push_all, push_le, read_le, slice_part};

verus! {

/// Shortest padding.
pub const MIN_PAD: usize = 16;

/// Longest padding.
pub const MAX_PAD: usize = 512;

/// A payload with padding.
pub open spec fn padded_bytes(payload: Seq<u8>, noise: Seq<u8>) -> Seq<u8> {
    payload + noise + encoding::le_bytes(noise.len(), 2)
}

/// The length of the padding that the last two bytes name.
pub open spec fn named_pad_len(padded: Seq<u8>) -> nat {
    encoding::le_value(padded.subrange(padded.len() - 2, padded.len() as int))
}

/// The payload in front of the padding; `None` where the bytes cannot have
/// been padded.
pub open spec fn stripped_bytes(padded: Seq<u8>) -> Option<Seq<u8>> {
    if padded.len() < 4 {
        None
    } else {
        let l = named_pad_len(padded);
        if MIN_PAD <= l <= MAX_PAD && l + 2 <= padded.len() {
            Some(padded.subrange(0, padded.len() - 2 - l))
        } else {
            None
        }
    }
}

/// `out` is `payload` with a padding of 16 to 512 bytes.
pub open spec fn is_padded(payload: Seq<u8>, out: Seq<u8>) -> bool {
    exists|noise: Seq<u8>|
        MIN_PAD <= noise.len() <= MAX_PAD && out == #[trigger] padded_bytes(payload, noise)
}

/// Pads a payload with a random number of random bytes. Stripping gives the
/// payload back.
pub fn add_tail_padding(payload: &[u8]) -> (out: Vec<u8>)
    ensures
        is_padded(payload@, out@),
        stripped_bytes(out@) == Some(payload@),
        crypto::drawn(out@.subrange(payload@.len() as int, out@.len() - 2)),
        exists|number: u32| #[trigger]
            crypto::drawn_number(number) && out@.len() == payload@.len() + (number % 497 + 16) + 2,
{
    let number: u32 = crypto::random_u32();
    let l: usize = pad_len(number);
    let mut noise: Vec<u8> = vec![0u8; l];
    crypto::fill_random(noise.as_mut_slice());
    let out: Vec<u8> = pad_with(payload, noise.as_slice());
    assert(out@ == padded_bytes(payload@, noise@));
    proof {
        encoding::lemma_le_bytes_len(noise@.len(), 2);
        assert(out@.subrange(payload@.len() as int, out@.len() - 2) =~= noise@);
        assert(crypto::drawn_number(number) && out@.len() == payload@.len() + (number % 497 + 16) + 2);
    }
    out
}

/// The length of padding that a drawn number stands for.
pub fn pad_len(drawn: u32) -> (l: usize)
    ensures
        l == drawn % 497 + 16,
        MIN_PAD <= l <= MAX_PAD,
{
    (drawn as usize % (MAX_PAD - MIN_PAD + 1)) + MIN_PAD
}

/// Pads a payload with the given noise.
pub fn pad_with(payload: &[u8], noise: &[u8]) -> (out: Vec<u8>)
    requires
        MIN_PAD <= noise@.len() <= MAX_PAD,
    ensures
        out@ == padded_bytes(payload@, noise@),
        stripped_bytes(out@) == Some(payload@),
{
    let mut out: Vec<u8> = Vec::new();
    push_all(&mut out, payload);
    push_all(&mut out, noise);
    push_le(&mut out, noise.len() as u64, 2);
    proof {
        assert(out@ =~= padded_bytes(payload@, noise@));
        law_strip_undoes_pad(payload@, noise@);
    }
    out
}

/// The payload in front of the padding; `None` where the bytes cannot have
/// been padded.
pub fn strip_tail_padding(padded: &[u8]) -> (payload: Option<Vec<u8>>)
    ensures
        match payload {
            Some(p) => stripped_bytes(padded@) == Some(p@),
            None => stripped_bytes(padded@) is None,
        },
{
    let len: usize = padded.len();
    if len < 4 {
        return None;
    }
    let named: u64 = read_le(padded, len - 2, 2);
    if named < MIN_PAD as u64 || named > MAX_PAD as u64 {
        return None;
    }
    let l: usize = named as usize;
    if len < 2 + l {
        return None;
    }
    Some(vstd::slice::slice_to_vec(slice_part(padded, 0, len - 2 - l)))
}

/// Stripping gives back what was padded.
pub proof fn law_strip_undoes_pad(payload: Seq<u8>, noise: Seq<u8>)
    requires
        MIN_PAD <= noise.len() <= MAX_PAD,
    ensures
        stripped_bytes(padded_bytes(payload, noise)) == Some(payload),
{
    let out = padded_bytes(payload, noise);
    encoding::lemma_le_bytes_len(noise.len(), 2);
    encoding::lemma_le_range();
    encoding::lemma_le_value_of_bytes(noise.len(), 2);
    assert(out.subrange(out.len() - 2, out.len() as int) =~= encoding::le_bytes(noise.len(), 2));
    assert(out.subrange(0, payload.len() as int) =~= payload);
}

/// What can be stripped has been padded: it is the payload, noise of an
/// allowed length, and that length.
pub proof fn law_stripped_was_padded(padded: Seq<u8>)
    requires
        stripped_bytes(padded) is Some,
    ensures
        is_padded(stripped_bytes(padded)->Some_0, padded),
{
    let l = named_pad_len(padded);
    let payload = stripped_bytes(padded)->Some_0;
    let noise = padded.subrange(padded.len() - 2 - l, padded.len() - 2);
    let tail = padded.subrange(padded.len() - 2, padded.len() as int);
    encoding::lemma_le_bytes_of_value(tail);
    assert(padded =~= padded_bytes(payload, noise));
}

/// A padded payload is the payload, then the noise, then the number of noise
/// bytes, low byte first.
pub proof fn law_padding_layout(payload: Seq<u8>, noise: Seq<u8>, i: int)
    requires
        noise.len() < 65536,
    ensures
        padded_bytes(payload, noise).len() == payload.len() + noise.len() + 2,
        0 <= i < payload.len() ==> padded_bytes(payload, noise)[i] == payload[i],
        0 <= i < noise.len() ==> padded_bytes(payload, noise)[payload.len() + i] == noise[i],
        padded_bytes(payload, noise)[(payload.len() + noise.len()) as int] == noise.len() % 256,
        padded_bytes(payload, noise)[(payload.len() + noise.len() + 1) as int] == noise.len() / 256,
{
    encoding::lemma_le_bytes_len(noise.len(), 2);
    reveal_with_fuel(encoding::le_bytes, 3);
    assert(encoding::le_bytes(noise.len(), 2) =~= seq![(noise.len() % 256) as u8, (noise.len() / 256) as u8]);
}

/// What is stripped is the front of what came, short of the noise that its last
/// two bytes count and of these two bytes. Less than 16 or more than 512 bytes
/// of noise, or more than there are, is refused, and so are fewer than four
/// bytes in all.
pub proof fn law_strip_cuts_what_is_counted(padded: Seq<u8>)
    ensures
        padded.len() < 4 ==> stripped_bytes(padded) is None,
        padded.len() >= 4 ==> ({
            let n = padded.len();
            let l = padded[n - 2] + 256 * padded[n - 1];
            match stripped_bytes(padded) {
                Some(payload) => 16 <= l <= 512 && payload == padded.subrange(0, n - 2 - l),
                None => l < 16 || l > 512 || n < l + 2,
            }
        }),
{
    if padded.len() >= 4 {
        let tail = padded.subrange(padded.len() - 2, padded.len() as int);
        reveal_with_fuel(encoding::le_value, 4);
        assert(tail.drop_first().drop_first().len() == 0);
        assert(encoding::le_value(tail) == tail[0] + 256 * tail[1]);
    }
}

/// Padding puts at least 18 and at most 514 bytes behind the payload, which
/// itself stays in front.
pub proof fn law_padding_keeps_payload_in_front(payload: Seq<u8>, out: Seq<u8>, i: int)
    requires
        is_padded(payload, out),
    ensures
        payload.len() + 18 <= out.len() <= payload.len() + 514,
        0 <= i < payload.len() ==> out[i] == payload[i],
{
    let noise = choose|noise: Seq<u8>|
        MIN_PAD <= noise.len() <= MAX_PAD && out == #[trigger] padded_bytes(payload, noise);
    law_padding_layout(payload, noise, i);
}

} // verus!
