//! A byte string of bounded length, held in place.

use vstd::prelude::*;

verus! {

/// Up to `N` bytes.
#[derive(Clone, Copy, Debug)]
pub struct ByteBuf<const N: usize> {
    bytes: [u8; N],
    len: usize,
}

impl<const N: usize> View for ByteBuf<N> {
    type V = Seq<u8>;

    closed spec fn view(&self) -> Seq<u8> {
        self.bytes@.subrange(0, self.len as int)
    }
}

impl<const N: usize> ByteBuf<N> {
    #[verifier::type_invariant]
    closed spec fn fits(self) -> bool {
        self.len <= N
    }

    /// The empty byte string.
    pub fn new() -> (buf: Self)
        ensures
            buf@ == Seq::<u8>::empty(),
    {
        let buf = ByteBuf { bytes: [0u8; N], len: 0 };
        assert(buf@ =~= Seq::<u8>::empty());
        buf
    }

    /// The first `N` bytes of `bytes`.
    pub fn from_slice(bytes: &[u8]) -> (buf: Self)
        ensures
            buf@ == bytes@.take(if bytes@.len() <= N {
                bytes@.len() as int
            } else {
                N as int
            }),
    {
        let mut buf = Self::new();
        let mut i: usize = 0;
        while i < bytes.len() && i < N
            invariant
                i <= bytes.len(),
                i <= N,
                buf@ == bytes@.take(i as int),
            decreases bytes.len() - i,
        {
            buf.push(bytes[i]);
            i = i + 1;
            assert(buf@ =~= bytes@.take(i as int));
        }
        buf
    }

    /// The number of bytes held.
    pub fn len(&self) -> (n: usize)
        ensures
            n == self@.len(),
            n <= N,
    {
        proof {
            use_type_invariant(self);
        }
        self.len
    }

    /// The bytes held.
    pub fn as_slice(&self) -> (bytes: &[u8])
        ensures
            bytes@ == self@,
            bytes@.len() <= N,
    {
        proof {
            use_type_invariant(self);
        }
        vstd::slice::slice_subrange(self.bytes.as_slice(), 0, self.len)
    }

    /// Appends one byte.
    pub fn push(&mut self, b: u8)
        requires
            old(self)@.len() < N,
        ensures
            final(self)@ == old(self)@.push(b),
    {
        proof {
            use_type_invariant(&*self);
        }
        let mut bytes: [u8; N] = self.bytes;
        bytes[self.len] = b;
        self.bytes = bytes;
        self.len = self.len + 1;
        assert(self@ =~= old(self)@.push(b));
    }

    /// Forgets the first `n` bytes.
    pub fn drop_front(&mut self, n: usize)
        requires
            n <= old(self)@.len(),
        ensures
            final(self)@ == old(self)@.skip(n as int),
    {
        let whole: Self = *self;
        let rest = vstd::slice::slice_subrange(whole.as_slice(), n, whole.len());
        *self = Self::from_slice(rest);
        assert(self@ =~= old(self)@.skip(n as int));
    }
}

} // verus!
