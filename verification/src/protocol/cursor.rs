use vstd::prelude::*;

verus! {

/// A read position within a byte slice.
pub struct Cursor<'a> {
    buf: &'a [u8],
    pos: usize,
}

impl<'a> Cursor<'a> {
    #[verifier::type_invariant]
    spec fn position_in_bounds(self) -> bool {
        self.pos <= self.buf@.len()
    }

    /// All the bytes behind the cursor, read or not.
    pub closed spec fn data(self) -> Seq<u8> {
        self.buf@
    }

    /// How many bytes have been consumed.
    pub closed spec fn position(self) -> nat {
        self.pos as nat
    }

    /// The bytes that have not been read yet.
    pub open spec fn remaining(self) -> Seq<u8> {
        self.data().subrange(self.position() as int, self.data().len() as int)
    }

    pub fn new(buf: &'a [u8]) -> (r: Self)
        ensures
            r.data() == buf@,
            r.position() == 0,
            r.remaining() == buf@,
    {
        let r = Cursor { buf, pos: 0 };
        assert(r.remaining() =~= buf@);
        r
    }

    /// The position never passes the end of the data.
    pub open spec fn in_bounds(self) -> bool {
        self.position() <= self.data().len()
    }

    /// Makes `in_bounds` known for this cursor; does nothing at run time.
    pub fn note_in_bounds(&self)
        ensures
            self.in_bounds(),
    {
        proof {
            use_type_invariant(self);
        }
    }

    /// Moving the position forward drops that many bytes from what remains.
    pub proof fn lemma_advance(before: Self, after: Self, n: nat)
        requires
            before.in_bounds(),
            after.data() == before.data(),
            after.position() == before.position() + n,
            n <= before.remaining().len(),
        ensures
            after.in_bounds(),
            after.remaining() == before.remaining().skip(n as int),
    {
        assert(after.remaining() =~= before.remaining().skip(n as int));
    }

    pub fn position_usize(&self) -> (r: usize)
        ensures
            r == self.position(),
            r <= self.data().len(),
    {
        proof {
            use_type_invariant(self);
        }
        self.pos
    }

    pub fn remaining_len(&self) -> (r: usize)
        ensures
            r == self.remaining().len(),
    {
        proof {
            use_type_invariant(self);
        }
        self.buf.len() - self.pos
    }

    /// Reads one byte, if any is left.
    pub fn next_byte(&mut self) -> (r: Option<u8>)
        ensures
            final(self).data() == old(self).data(),
            old(self).remaining().len() == 0 ==> r is None && final(self).position() == old(
                self,
            ).position(),
            old(self).remaining().len() > 0 ==> r == Some(old(self).remaining()[0])
                && final(self).position() == old(self).position() + 1,
    {
        proof {
            use_type_invariant(&*self);
        }
        if self.pos < self.buf.len() {
            let b = self.buf[self.pos];
            self.pos = self.pos + 1;
            Some(b)
        } else {
            None
        }
    }

    /// Takes the next `n` bytes as a slice, if that many are left.
    pub fn take(&mut self, n: usize) -> (r: Option<&'a [u8]>)
        ensures
            final(self).data() == old(self).data(),
            n > old(self).remaining().len() ==> r is None && final(self).position() == old(
                self,
            ).position(),
            n <= old(self).remaining().len() ==> (r matches Some(s) && s@ == old(
                self,
            ).remaining().subrange(0, n as int) && final(self).position() == old(self).position()
                + n),
    {
        proof {
            use_type_invariant(&*self);
        }
        if n <= self.buf.len() - self.pos {
            let start = self.pos;
            let s = slice_range(self.buf, start, start + n);
            self.pos = start + n;
            assert(s@ =~= old(self).remaining().subrange(0, n as int));
            Some(s)
        } else {
            None
        }
    }

    /// Takes every byte that is left.
    pub fn take_rest(&mut self) -> (r: &'a [u8])
        ensures
            final(self).data() == old(self).data(),
            r@ == old(self).remaining(),
            final(self).position() == old(self).data().len(),
    {
        proof {
            use_type_invariant(&*self);
        }
        let start = self.pos;
        let len = self.buf.len();
        let s = slice_range(self.buf, start, len);
        self.pos = len;
        s
    }
}

fn slice_range<'b>(s: &'b [u8], start: usize, end: usize) -> (r: &'b [u8])
    requires
        start <= end <= s@.len(),
    ensures
        r@ == s@.subrange(start as int, end as int),
{
    &s[start..end]
}

} // verus!
