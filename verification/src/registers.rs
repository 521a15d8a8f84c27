//! The register file: 32 words, zeroed at machine start.
//!
//! Register 31 is the instruction pointer, always read as an address into
//! the program grid; registers 0..=30 are general purpose. The instruction
//! pointer is exposed through a coordinate view over the same storage.

use vstd::prelude::*;

use crate::error::Error;
use crate::word::{addr_word, addr_x, addr_y, word_wf, COORD_LIMIT};

verus! {

/// How many registers the file holds.
pub const REGISTER_COUNT: usize = 32;

/// The index of the register that serves as the instruction pointer.
pub const IP_REGISTER: usize = 31;

/// Exactly 32 words, indices 0..=31.
pub struct RegisterFile {
    regs: Vec<u32>,
}

impl View for RegisterFile {
    type V = Seq<u32>;

    closed spec fn view(&self) -> Seq<u32> {
        self.regs@
    }
}

impl RegisterFile {
    /// A well-formed file holds exactly 32 words of 24 bits each.
    pub open spec fn wf(self) -> bool {
        &&& self@.len() == 32
        &&& forall|i: int| 0 <= i < 32 ==> word_wf(#[trigger] self@[i])
    }

    /// A fresh file with every register zeroed.
    pub fn new() -> (r: RegisterFile)
        ensures
            r.wf(),
            r@ == Seq::new(32, |i: int| 0u32),
    {
        let mut regs: Vec<u32> = Vec::new();
        let mut i: usize = 0;
        while i < 32
            invariant
                i <= 32,
                regs@.len() == i,
                forall|j: int| 0 <= j < i ==> #[trigger] regs@[j] == 0u32,
            decreases 32 - i,
        {
            regs.push(0);
            i += 1;
        }
        let r = RegisterFile { regs };
        proof {
            assert(r@ =~= Seq::new(32, |i: int| 0u32));
        }
        r
    }

    /// The word in register `index`, or `InvalidRegister` past 31.
    pub fn read(&self, index: usize) -> (r: Result<u32, Error>)
        requires
            self.wf(),
        ensures
            index < 32 ==> r == Ok::<u32, Error>(self@[index as int]),
            index >= 32 ==> r == Err::<u32, Error>(Error::InvalidRegister),
            r is Ok ==> word_wf(r->Ok_0),
    {
        if index < REGISTER_COUNT {
            Ok(self.regs[index])
        } else {
            Err(Error::InvalidRegister)
        }
    }

    /// Stores `w` in register `index`, or fails with `InvalidRegister` past
    /// 31, leaving the file unchanged.
    pub fn write(&mut self, index: usize, w: u32) -> (r: Result<(), Error>)
        requires
            old(self).wf(),
            word_wf(w),
        ensures
            final(self).wf(),
            index < 32 ==> r == Ok::<(), Error>(()) && final(self)@ == old(self)@.update(index as int, w),
            index >= 32 ==> r == Err::<(), Error>(Error::InvalidRegister) && final(self)@ == old(self)@,
    {
        if index < REGISTER_COUNT {
            self.regs.set(index, w);
            Ok(())
        } else {
            Err(Error::InvalidRegister)
        }
    }

    /// The instruction pointer read as a coordinate pair: the address view
    /// over register 31.
    pub fn read_ip(&self) -> (r: (u32, u32))
        requires
            self.wf(),
        ensures
            r.0 == addr_x(self@[31]),
            r.1 == addr_y(self@[31]),
            r.0 < COORD_LIMIT,
            r.1 < COORD_LIMIT,
    {
        crate::word::to_address(self.regs[IP_REGISTER])
    }

    /// Stores the coordinate pair `(x, y)` into register 31, packed as an
    /// address word.
    pub fn write_ip(&mut self, x: u32, y: u32)
        requires
            old(self).wf(),
            x < COORD_LIMIT,
            y < COORD_LIMIT,
        ensures
            final(self).wf(),
            final(self)@ == old(self)@.update(31, (addr_word(x as int, y as int)) as u32),
    {
        let w = crate::word::from_address(x, y);
        self.regs.set(IP_REGISTER, w);
    }
}

} // verus!
