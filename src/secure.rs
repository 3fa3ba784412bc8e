use rtoolbox::safe_vec::SafeVec;
use crate::crypto::{aes256_ctr_apply, ctr_xor};
use vstd::prelude::*;

verus! {

/// rtoolbox's `SafeVec`: a `Vec<u8>` in its one public field `inner`, whose
/// `Drop` overwrites every byte with zero through volatile writes.
#[verifier::external_type_specification]
pub struct ExSafeVec(rtoolbox::safe_vec::SafeVec);

/// A holder for sensitive bytes (a master password, key material, a
/// plaintext in transit). It keeps them in an rtoolbox `SafeVec`, so they are
/// overwritten with zeros when it is dropped, on every exit path; `scrub`
/// does the same on demand.
pub struct SecureBuffer {
    inner: SafeVec,
}

/// True when every byte of `s` is zero.
pub open spec fn all_zero(s: Seq<u8>) -> bool {
    forall|i: int| 0 <= i < s.len() ==> s[i] == 0
}

impl View for SecureBuffer {
    type V = Seq<u8>;

    closed spec fn view(&self) -> Seq<u8> {
        self.inner.inner@
    }
}

impl SecureBuffer {
    /// Takes ownership of `bytes`.
    pub fn new(bytes: Vec<u8>) -> (r: SecureBuffer)
        ensures
            r@ == bytes@,
    {
        SecureBuffer { inner: SafeVec { inner: bytes } }
    }

    /// Copies `bytes` into a new buffer.
    pub fn from_slice(bytes: &[u8]) -> (r: SecureBuffer)
        ensures
            r@ == bytes@,
            r@.len() <= usize::MAX,
    {
        let mut v: Vec<u8> = Vec::with_capacity(bytes.len());
        let mut i: usize = 0;
        while i < bytes.len()
            invariant
                i <= bytes@.len(),
                v@ == bytes@.subrange(0, i as int),
            decreases bytes@.len() - i,
        {
            v.push(bytes[i]);
            i += 1;
            assert(v@ =~= bytes@.subrange(0, i as int));
        }
        assert(v@ =~= bytes@);
        SecureBuffer { inner: SafeVec { inner: v } }
    }

    /// A new buffer holding `self@[start..end]`.
    pub fn sub(&self, start: usize, end: usize) -> (r: SecureBuffer)
        requires
            start <= end <= self@.len(),
        ensures
            r@ == self@.subrange(start as int, end as int),
    {
        let mut out = SecureBuffer::with_capacity(end - start);
        let mut i: usize = start;
        while i < end
            invariant
                start <= i <= end,
                end <= self@.len(),
                out@ == self@.subrange(start as int, i as int),
            decreases end - i,
        {
            out.push(self.inner.inner[i]);
            i += 1;
            assert(out@ =~= self@.subrange(start as int, i as int));
        }
        out
    }

    /// Encrypts or decrypts the held bytes in place with AES-256-CTR.
    pub fn apply_ctr(&mut self, key: &[u8], iv: &[u8])
        requires
            key@.len() == 32,
            iv@.len() == 16,
        ensures
            final(self)@ == ctr_xor(key@, iv@, old(self)@),
    {
        aes256_ctr_apply(key, iv, &mut self.inner);
        assert(self@ =~= ctr_xor(key@, iv@, old(self)@));
    }

    /// The held bytes.
    pub fn as_slice(&self) -> (r: &[u8])
        ensures
            r@ == self@,
    {
        self.inner.inner.as_slice()
    }

    /// An empty buffer.
    pub fn empty() -> (r: SecureBuffer)
        ensures
            r@ == Seq::<u8>::empty(),
    {
        SecureBuffer { inner: SafeVec { inner: Vec::new() } }
    }

    /// An empty buffer with room for `n` bytes, so that filling it up to
    /// `n` bytes never moves (and leaves behind) its contents.
    pub fn with_capacity(n: usize) -> (r: SecureBuffer)
        ensures
            r@ == Seq::<u8>::empty(),
    {
        SecureBuffer { inner: SafeVec { inner: Vec::with_capacity(n) } }
    }

    /// Appends one byte.
    pub fn push(&mut self, b: u8)
        ensures
            final(self)@ == old(self)@.push(b),
    {
        self.inner.inner.push(b);
    }

    /// Appends every byte of `s`.
    pub fn extend(&mut self, s: &[u8])
        ensures
            final(self)@ == old(self)@ + s@,
    {
        let mut i: usize = 0;
        while i < s.len()
            invariant
                i <= s@.len(),
                self@ == old(self)@ + s@.subrange(0, i as int),
            decreases s@.len() - i,
        {
            self.inner.inner.push(s[i]);
            i += 1;
            assert(self@ =~= old(self)@ + s@.subrange(0, i as int));
        }
        assert(s@.subrange(0, s@.len() as int) =~= s@);
    }

    /// Number of held bytes.
    pub fn len(&self) -> (r: usize)
        ensures
            r == self@.len(),
    {
        self.inner.inner.len()
    }

    /// A second buffer holding the same bytes.
    pub fn duplicate(&self) -> (r: SecureBuffer)
        ensures
            r@ == self@,
            r@.len() <= usize::MAX,
    {
        SecureBuffer::from_slice(self.inner.inner.as_slice())
    }

    /// Overwrites every byte with zero; the length is kept.
    pub fn scrub(&mut self)
        ensures
            final(self)@.len() == old(self)@.len(),
            all_zero(final(self)@),
            !all_zero(old(self)@) ==> final(self)@ != old(self)@,
    {
        let n = self.inner.inner.len();
        let mut i: usize = 0;
        while i < n
            invariant
                n == self.inner.inner@.len(),
                i <= n,
                forall|j: int| 0 <= j < i ==> self.inner.inner@[j] == 0,
            decreases n - i,
        {
            self.inner.inner[i] = 0;
            i += 1;
        }
    }
}

} // verus!
