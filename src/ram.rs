//! Memory: a fixed array of bytes.
use vstd::prelude::*;
use crate::RAM_SIZE;

verus! {

/// `mem` with `data` written over it from address `start` on.
pub open spec fn spec_written(mem: Seq<u8>, start: int, data: Seq<u8>) -> Seq<u8> {
    Seq::new(
        mem.len(),
        |a: int|
            if start <= a < start + data.len() {
                data[a - start]
            } else {
                mem[a]
            },
    )
}

/// The whole addressable memory of the machine.
pub struct Ram {
    pub buf: [u8; RAM_SIZE],
}

impl View for Ram {
    type V = Seq<u8>;

    open spec fn view(&self) -> Seq<u8> {
        self.buf@
    }
}

impl Ram {
    /// Memory with every byte zero.
    pub fn new() -> (r: Ram)
        ensures
            r@.len() == RAM_SIZE,
            forall|a: int| 0 <= a < RAM_SIZE ==> r@[a] == 0,
    {
        Ram { buf: [0u8; RAM_SIZE] }
    }

    /// The two bytes of the instruction word at `pc`, or `None` where the
    /// word does not lie wholly inside memory.
    pub fn fetch(&self, pc: u16) -> (r: Option<[u8; 2]>)
        ensures
            pc + 1 < RAM_SIZE <==> r.is_some(),
            r matches Some(w) ==> w@[0] == self@[pc as int] && w@[1] == self@[pc + 1],
    {
        if (pc as usize) + 1 < RAM_SIZE {
            Some([self.buf[pc as usize], self.buf[pc as usize + 1]])
        } else {
            None
        }
    }

    /// Copies `r` into memory from address `start` on.
    pub fn load_slice(&mut self, start: u16, r: &[u8])
        requires
            start + r@.len() <= RAM_SIZE,
        ensures
            final(self)@ == spec_written(old(self)@, start as int, r@),
    {
        let n = r.len();
        let mut i: usize = 0;
        while i < n
            invariant
                n == r@.len(),
                start + n <= RAM_SIZE,
                i <= n,
                self@.len() == RAM_SIZE,
                self@ == spec_written(old(self)@, start as int, r@.subrange(0, i as int)),
            decreases n - i,
        {
            self.buf[start as usize + i] = r[i];
            i = i + 1;
        }
        assert(r@.subrange(0, n as int) =~= r@);
        assert(self@ =~= spec_written(old(self)@, start as int, r@));
    }

    /// Copies as much of `data` as fits into memory from address `start` on,
    /// and returns the number of bytes copied.
    pub fn load(&mut self, start: u16, data: &[u8]) -> (n: usize)
        requires
            start <= RAM_SIZE,
        ensures
            n == if data@.len() <= RAM_SIZE - start {
                data@.len() as int
            } else {
                RAM_SIZE - start
            },
            final(self)@ == spec_written(old(self)@, start as int, data@.subrange(0, n as int)),
    {
        let room = RAM_SIZE - start as usize;
        let n = if data.len() <= room {
            data.len()
        } else {
            room
        };
        self.load_slice(start, &data[0..n]);
        n
    }
}

} // verus!
