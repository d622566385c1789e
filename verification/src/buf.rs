//! Byte buffers in the style of the reactor's scatter-gather buffers: a
//! buffer owns an allocation whose meaningful content runs up to the first
//! zero byte, the classic terminator convention of the underlying I/O layer.

use vstd::prelude::*;

verus! {

/// Index of the first zero byte of `s` at or after `i`, or the length of
/// `s` when no zero byte follows.
pub open spec fn first_zero_from(s: Seq<u8>, i: int) -> int
    decreases s.len() - i,
{
    if i < 0 || i >= s.len() {
        i
    } else if s[i] == 0 {
        i
    } else {
        first_zero_from(s, i + 1)
    }
}

/// The content of an allocation: the bytes before its first zero byte.
pub open spec fn buf_content(s: Seq<u8>) -> Seq<u8> {
    s.take(first_zero_from(s, 0))
}

/// An owned byte buffer. The allocation view is `self@`; the meaningful
/// content is `buf_content(self@)`.
pub struct Buf {
    data: Vec<u8>,
}

impl View for Buf {
    type V = Seq<u8>;

    closed spec fn view(&self) -> Seq<u8> {
        self.data@
    }
}

/// Conversion of a plain byte value into an owned buffer.
pub trait ConvertBuf {
    /// The allocation the conversion produces.
    spec fn spec_to_buf(&self) -> Seq<u8>;

    fn to_buf(&self) -> (r: Buf)
        ensures
            r@ == self.spec_to_buf(),
    ;
}

impl ConvertBuf for Vec<u8> {
    /// The bytes themselves followed by a terminator.
    open spec fn spec_to_buf(&self) -> Seq<u8> {
        self@ + seq![0u8]
    }

    fn to_buf(&self) -> (r: Buf) {
        let mut data: Vec<u8> = Vec::new();
        let mut k: usize = 0;
        while k < self.len()
            invariant
                k <= self@.len(),
                data@ == self@.take(k as int),
            decreases self@.len() - k,
        {
            data.push(self[k]);
            k = k + 1;
            proof {
                assert(data@ =~= self@.take(k as int));
            }
        }
        data.push(0);
        proof {
            assert(data@ =~= self@ + seq![0u8]);
        }
        Buf { data }
    }
}

impl Buf {
    /// An uninitialized buffer: no allocation at all.
    pub fn new() -> (r: Self)
        ensures
            r@ == Seq::<u8>::empty(),
    {
        Buf { data: Vec::new() }
    }

    /// A zero-filled allocation of `baselen` bytes.
    pub fn new_with_len(baselen: usize) -> (r: Self)
        ensures
            r@.len() == baselen,
            forall|i: int| 0 <= i < baselen ==> r@[i] == 0u8,
    {
        let mut data: Vec<u8> = Vec::new();
        let mut k: usize = 0;
        while k < baselen
            invariant
                k <= baselen,
                data@.len() == k,
                forall|i: int| 0 <= i < k ==> data@[i] == 0u8,
            decreases baselen - k,
        {
            data.push(0);
            k = k + 1;
        }
        Buf { data }
    }

    /// Allocation length.
    pub fn len(&self) -> (r: usize)
        ensures
            r == self@.len(),
    {
        self.data.len()
    }

    /// A buffer is initialized once it has an allocation.
    pub fn is_initialized(&self) -> (r: bool)
        ensures
            r == (self@.len() != 0),
    {
        self.data.len() != 0
    }

    /// The whole allocation.
    pub fn as_bytes(&self) -> (r: &[u8])
        ensures
            r@ == self@,
    {
        self.data.as_slice()
    }

    /// Length of the content: the bytes before the first zero byte.
    pub fn content_len(&self) -> (r: usize)
        ensures
            r as int == first_zero_from(self@, 0),
    {
        let mut i: usize = 0;
        loop
            invariant
                i <= self@.len(),
                first_zero_from(self@, 0) == first_zero_from(self@, i as int),
            ensures
                i as int == first_zero_from(self@, 0),
            decreases self@.len() - i,
        {
            if i >= self.data.len() {
                break;
            }
            if self.data[i] == 0 {
                break;
            }
            i = i + 1;
        }
        i
    }

    /// A copy of the content.
    pub fn content(&self) -> (r: Vec<u8>)
        ensures
            r@ == buf_content(self@),
    {
        let end = self.content_len();
        let mut out: Vec<u8> = Vec::new();
        let mut k: usize = 0;
        proof {
            lemma_first_zero_bounds(self@, 0);
        }
        while k < end
            invariant
                k <= end,
                end <= self@.len(),
                out@ == self@.take(k as int),
            decreases end - k,
        {
            out.push(self.data[k]);
            k = k + 1;
            proof {
                assert(out@ =~= self@.take(k as int));
            }
        }
        out
    }

    /// Appends the content of `other` to the content of `self`; the new
    /// allocation is exactly the two contents and a terminator. Unlike the
    /// reactor's own buffers, which drain and free the source, `other` is
    /// only read and left intact.
    pub fn append(&mut self, other: &Buf)
        ensures
            final(self)@ == buf_content(old(self)@) + buf_content(other@) + seq![0u8],
    {
        let mut data = self.content();
        let mut tail = other.content();
        data.append(&mut tail);
        data.push(0);
        proof {
            assert(data@ =~= buf_content(old(self)@) + buf_content(other@) + seq![0u8]);
        }
        self.data = data;
    }

    /// Changes the allocation length, keeping the common prefix and filling
    /// growth with zero bytes.
    pub fn resize(&mut self, newlen: usize)
        ensures
            final(self)@.len() == newlen,
            forall|i: int|
                0 <= i < newlen ==> final(self)@[i] == (if i < old(self)@.len() {
                    old(self)@[i]
                } else {
                    0u8
                }),
    {
        if newlen <= self.data.len() {
            self.data.truncate(newlen);
        } else {
            let mut k = self.data.len();
            while k < newlen
                invariant
                    old(self)@.len() <= k <= newlen,
                    self@.len() == k,
                    forall|i: int| 0 <= i < old(self)@.len() ==> self@[i] == old(self)@[i],
                    forall|i: int| old(self)@.len() <= i < k ==> self@[i] == 0u8,
                decreases newlen - k,
            {
                self.data.push(0);
                k = k + 1;
            }
        }
    }

    /// The contents of `bufs` joined in order into one buffer, with a
    /// terminator at the end. Unlike the reactor's own buffers, which are
    /// drained and freed by a join, the inputs are only read and left
    /// intact.
    pub fn join(bufs: &Vec<Buf>) -> (r: Buf)
        ensures
            r@ == spec_join(bufs@) + seq![0u8],
    {
        let mut data: Vec<u8> = Vec::new();
        let mut k: usize = 0;
        while k < bufs.len()
            invariant
                k <= bufs@.len(),
                data@ == spec_join(bufs@.take(k as int)),
            decreases bufs@.len() - k,
        {
            let mut part = bufs[k].content();
            data.append(&mut part);
            k = k + 1;
            proof {
                assert(bufs@.take(k as int).drop_last() =~= bufs@.take(k as int - 1));
                assert(data@ =~= spec_join(bufs@.take(k as int)));
            }
        }
        data.push(0);
        proof {
            assert(bufs@.take(bufs@.len() as int) =~= bufs@);
        }
        Buf { data }
    }
}

/// The contents of a sequence of buffers, joined in order.
pub open spec fn spec_join(bufs: Seq<Buf>) -> Seq<u8>
    decreases bufs.len(),
{
    if bufs.len() == 0 {
        Seq::<u8>::empty()
    } else {
        spec_join(bufs.drop_last()) + buf_content(bufs.last()@)
    }
}

/// The first zero of `s` searched from a position inside `s` lies between
/// that position and the length of `s`.
pub proof fn lemma_first_zero_bounds(s: Seq<u8>, i: int)
    requires
        0 <= i <= s.len(),
    ensures
        i <= first_zero_from(s, i) <= s.len(),
    decreases s.len() - i,
{
    if i < s.len() && s[i] != 0 {
        lemma_first_zero_bounds(s, i + 1);
    }
}

} // verus!
