//! A byte container that leaves nothing of its contents behind.

use vstd::prelude::*;
use crate::crypto;
use crate::crypto::{zeroize_slice, zeroize_vec};

verus! {

/// Bytes on the heap that are overwritten with zeros when the container goes
/// out of scope.
pub struct SecureBuffer {
    inner: Vec<u8>,
}

impl View for SecureBuffer {
    type V = Seq<u8>;

    closed spec fn view(&self) -> Seq<u8> {
        self.inner@
    }
}

impl SecureBuffer {
    /// An empty buffer.
    pub fn new() -> (buf: Self)
        ensures
            buf@ == Seq::<u8>::empty(),
    {
        SecureBuffer { inner: Vec::new() }
    }

    /// An empty buffer with room for at least `cap` bytes. The contract speaks of
    /// the contents; the room is left to `Vec::with_capacity`.
    pub fn with_capacity(cap: usize) -> (buf: Self)
        ensures
            buf@ == Seq::<u8>::empty(),
    {
        SecureBuffer { inner: Vec::with_capacity(cap) }
    }

    /// Takes the bytes of `v` over.
    pub fn from_vec(v: Vec<u8>) -> (buf: Self)
        ensures
            buf@ == v@,
    {
        SecureBuffer { inner: v }
    }

    /// The bytes.
    pub fn as_slice(&self) -> (s: &[u8])
        ensures
            s@ == self@,
    {
        self.inner.as_slice()
    }

    /// The bytes, to be changed in place.
    pub fn as_mut_slice(&mut self) -> (s: &mut [u8])
        ensures
            s@ == old(self)@,
            final(self)@ == final(s)@,
    {
        self.inner.as_mut_slice()
    }

    /// Number of bytes.
    pub fn len(&self) -> (n: usize)
        ensures
            n == self@.len(),
    {
        self.inner.len()
    }

    /// Whether there are no bytes.
    pub fn is_empty(&self) -> (empty: bool)
        ensures
            empty == (self@.len() == 0),
    {
        self.inner.len() == 0
    }

    /// Overwrites every byte with zero.
    fn overwrite(&mut self)
        ensures
            final(self)@ == crypto::zeros(old(self)@.len()),
    {
        zeroize_slice(self.inner.as_mut_slice());
    }

    /// Overwrites every byte with zero and empties the buffer.
    pub fn clear(&mut self)
        ensures
            final(self)@ == Seq::<u8>::empty(),
    {
        self.overwrite();
        zeroize_vec(&mut self.inner);
        self.inner.clear();
    }
}

impl Default for SecureBuffer {
    fn default() -> (buf: Self)
        ensures
            buf@ == Seq::<u8>::empty(),
    {
        Self::new()
    }
}

impl std::ops::Deref for SecureBuffer {
    type Target = [u8];

    fn deref(&self) -> (s: &[u8])
        ensures
            s@ == self@,
    {
        self.inner.as_slice()
    }
}

impl std::ops::DerefMut for SecureBuffer {
    fn deref_mut(&mut self) -> (s: &mut [u8])
        ensures
            s@ == old(self)@,
            final(self)@ == final(s)@,
    {
        self.inner.as_mut_slice()
    }
}

impl Drop for SecureBuffer {
    /// Overwrites the whole allocation with zeros and empties it before the
    /// memory is given back.
    fn drop(&mut self)
        ensures
            final(self)@ == Seq::<u8>::empty(),
        opens_invariants none
        no_unwind
    {
        zeroize_vec(&mut self.inner);
    }
}

impl From<Vec<u8>> for SecureBuffer {
    fn from(v: Vec<u8>) -> (buf: Self)
        ensures
            buf@ == v@,
    {
        SecureBuffer { inner: v }
    }
}

impl vstd::std_specs::convert::FromSpecImpl<Vec<u8>> for SecureBuffer {
    open spec fn obeys_from_spec() -> bool {
        true
    }

    closed spec fn from_spec(v: Vec<u8>) -> Self {
        SecureBuffer { inner: v }
    }
}

} // verus!
