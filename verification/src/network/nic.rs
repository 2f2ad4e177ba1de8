//! Reading received packets.
use vstd::prelude::*;

verus! {

/// The 16-bit value that two bytes spell in network order.
pub open spec fn be16(hi: u8, lo: u8) -> u16 {
    (hi as int * 256 + lo as int) as u16
}

/// A cursor over the bytes of a received packet.
#[derive(Clone, Copy)]
pub struct PacketReader<'a> {
    data: &'a [u8],
    ofs: usize,
}

impl<'a> PacketReader<'a> {
    #[verifier::type_invariant]
    spec fn in_bounds(self) -> bool {
        self.ofs <= self.data@.len()
    }

    /// The bytes not yet read.
    pub closed spec fn remaining(&self) -> Seq<u8> {
        self.data@.skip(self.ofs as int)
    }

    /// A cursor at the start of `data`.
    pub fn new(data: &'a [u8]) -> (r: Self)
        ensures
            r.remaining() == data@,
    {
        let r = PacketReader { data, ofs: 0 };
        proof {
            assert(data@.skip(0) =~= data@);
        }
        r
    }

    /// The number of bytes not yet read.
    pub fn remain(&self) -> (r: usize)
        ensures
            r == self.remaining().len(),
    {
        proof {
            use_type_invariant(self);
        }
        self.data.len() - self.ofs
    }

    /// Reads one byte. Fails, reading nothing, when none is left.
    pub fn read_u8(&mut self) -> (r: Result<u8, ()>)
        ensures
            match r {
                Ok(v) => {
                    &&& old(self).remaining().len() >= 1
                    &&& v == old(self).remaining()[0]
                    &&& final(self).remaining() == old(self).remaining().skip(1)
                },
                Err(_) => {
                    &&& old(self).remaining().len() < 1
                    &&& *final(self) == *old(self)
                },
            },
    {
        proof {
            use_type_invariant(&*self);
        }
        if self.data.len() - self.ofs < 1 {
            return Err(());
        }
        let v = self.data[self.ofs];
        self.ofs = self.ofs + 1;
        proof {
            assert(self.remaining() =~= old(self).remaining().skip(1));
        }
        Ok(v)
    }

    /// Reads a 16-bit value in network order. Fails, reading nothing, when
    /// fewer than two bytes are left.
    pub fn read_u16n(&mut self) -> (r: Result<u16, ()>)
        ensures
            match r {
                Ok(v) => {
                    &&& old(self).remaining().len() >= 2
                    &&& v == be16(old(self).remaining()[0], old(self).remaining()[1])
                    &&& final(self).remaining() == old(self).remaining().skip(2)
                },
                Err(_) => {
                    &&& old(self).remaining().len() < 2
                    &&& *final(self) == *old(self)
                },
            },
    {
        proof {
            use_type_invariant(&*self);
        }
        if self.data.len() - self.ofs < 2 {
            return Err(());
        }
        let hi = self.data[self.ofs];
        let lo = self.data[self.ofs + 1];
        self.ofs = self.ofs + 2;
        let v = ((hi as u16) << 8) | (lo as u16);
        proof {
            assert(((hi as u16) << 8) | (lo as u16) == (hi as int * 256 + lo as int) as u16)
                by (bit_vector);
            assert(self.remaining() =~= old(self).remaining().skip(2));
        }
        Ok(v)
    }

    /// Fills `b` with the next bytes. Fails, reading nothing, when fewer
    /// bytes are left than `b` holds.
    pub fn read_bytes<const N: usize>(&mut self, b: [u8; N]) -> (r: Result<[u8; N], ()>)
        ensures
            match r {
                Ok(v) => {
                    &&& old(self).remaining().len() >= N
                    &&& v@ == old(self).remaining().take(N as int)
                    &&& final(self).remaining() == old(self).remaining().skip(N as int)
                },
                Err(_) => {
                    &&& old(self).remaining().len() < N
                    &&& *final(self) == *old(self)
                },
            },
    {
        proof {
            use_type_invariant(&*self);
        }
        if self.data.len() - self.ofs < N {
            return Err(());
        }
        let mut b = b;
        let start = self.ofs;
        let data = self.data;
        let len = data.len();
        let mut i: usize = 0;
        while i < N
            invariant
                i <= N,
                len == data@.len(),
                start + N <= len,
                forall|k: int| 0 <= k < i ==> b@[k] == data@[start + k],
            decreases N - i,
        {
            b[i] = data[start + i];
            i = i + 1;
        }
        self.ofs = start + N;
        proof {
            assert(b@ =~= old(self).remaining().take(N as int));
            assert(self.remaining() =~= old(self).remaining().skip(N as int));
        }
        Ok(b)
    }
}

} // verus!
