//! The machine: memory with the font and a program, the engine, and the
//! display and keyboard that the host supplies.
use vstd::prelude::*;
use crate::cpu::{spec_outcome, CpuState, Display, ExecError, Keyboard, CPU};
use crate::inst::Inst;
use crate::ram::{spec_written, Ram};
use crate::timer::spec_after_ticks;
use crate::{HEAD_OF_PROGRAM, HEAD_OF_SPRITE, RAM_SIZE};

verus! {

/// The sixteen font glyphs, 0 to F, five rows each, one after another.
pub open spec fn spec_font() -> Seq<u8> {
    seq![
        0xf0, 0x90, 0x90, 0x90, 0xf0, 0x20, 0x60, 0x20, 0x20, 0x70,
        0xf0, 0x10, 0xf0, 0x80, 0xf0, 0xf0, 0x10, 0xf0, 0x10, 0xf0,
        0x90, 0x90, 0xf0, 0x10, 0x10, 0xf0, 0x80, 0xf0, 0x10, 0xf0,
        0xf0, 0x80, 0xf0, 0x90, 0xf0, 0xf0, 0x10, 0x20, 0x40, 0x40,
        0xf0, 0x90, 0xf0, 0x90, 0xf0, 0xf0, 0x90, 0xf0, 0x10, 0xf0,
        0xf0, 0x90, 0xf0, 0x90, 0x90, 0xe0, 0x90, 0xe0, 0x90, 0xe0,
        0xf0, 0x80, 0x80, 0x80, 0xf0, 0xe0, 0x90, 0x90, 0x90, 0xe0,
        0xf0, 0x80, 0xf0, 0x80, 0xf0, 0xf0, 0x80, 0xf0, 0x80, 0x80,
    ]
}

/// The font glyphs as bytes.
pub fn font() -> (r: Vec<u8>)
    ensures
        r@ == spec_font(),
{
    let r = vec![
        0xf0, 0x90, 0x90, 0x90, 0xf0, 0x20, 0x60, 0x20, 0x20, 0x70,
        0xf0, 0x10, 0xf0, 0x80, 0xf0, 0xf0, 0x10, 0xf0, 0x10, 0xf0,
        0x90, 0x90, 0xf0, 0x10, 0x10, 0xf0, 0x80, 0xf0, 0x10, 0xf0,
        0xf0, 0x80, 0xf0, 0x90, 0xf0, 0xf0, 0x10, 0x20, 0x40, 0x40,
        0xf0, 0x90, 0xf0, 0x90, 0xf0, 0xf0, 0x90, 0xf0, 0x10, 0xf0,
        0xf0, 0x90, 0xf0, 0x90, 0x90, 0xe0, 0x90, 0xe0, 0x90, 0xe0,
        0xf0, 0x80, 0x80, 0x80, 0xf0, 0xe0, 0x90, 0x90, 0x90, 0xe0,
        0xf0, 0x80, 0xf0, 0x80, 0xf0, 0xf0, 0x80, 0xf0, 0x80, 0x80,
    ];
    assert(r@ =~= spec_font());
    r
}

/// A whole machine.
pub struct Chip<D: Display, K: Keyboard> {
    pub cpu: CPU,
    pub ram: Ram,
    pub display: D,
    pub keyboard: K,
}

impl<D: Display, K: Keyboard> Chip<D, K> {
    /// The engine's invariant holds.
    pub open spec fn wf(&self) -> bool {
        self.cpu.wf()
    }

    /// A machine with fresh registers and memory that holds only the font,
    /// from address zero.
    pub fn new(dsp: D, kbd: K) -> (r: Self)
        ensures
            r.wf(),
            r.display == dsp,
            r.keyboard == kbd,
            r.cpu@.pc == HEAD_OF_PROGRAM,
            r.cpu@.sp == 0,
            r.cpu@.i == 0,
            r.cpu@.dt == 0,
            r.cpu@.st == 0,
            forall|j: int| 0 <= j < 16 ==> r.cpu@.v[j] == 0,
            r.ram@.len() == RAM_SIZE,
            forall|a: int| 0 <= a < RAM_SIZE ==> r.ram@[a] == (if a < spec_font().len() {
                spec_font()[a]
            } else {
                0
            }),
    {
        let mut chip = Chip { cpu: CPU::new(), ram: Ram::new(), display: dsp, keyboard: kbd };
        let f = font();
        chip.ram.load_slice(HEAD_OF_SPRITE, f.as_slice());
        chip
    }

    /// One fetch-decode-execute cycle; see `CPU::cycle`.
    pub fn cycle(&mut self) -> (r: Result<(), ExecError>)
        requires
            old(self).wf(),
        ensures
            final(self).wf(),
            old(self).cpu.pc + 1 >= RAM_SIZE ==> r == Err::<(), ExecError>(ExecError::PcOutOfRange)
                && final(self).cpu@ == old(self).cpu@ && final(self).ram@ == old(self).ram@,
            old(self).cpu.pc + 1 < RAM_SIZE ==> exists|b: u8|
                #[trigger] spec_outcome(
                    old(self).cpu@,
                    old(self).ram@,
                    Inst::spec_decode(
                        old(self).ram@[old(self).cpu.pc as int],
                        old(self).ram@[old(self).cpu.pc + 1],
                    ),
                    b,
                    r,
                    final(self).cpu@,
                    final(self).ram@,
                ),
    {
        let ghost c0 = self.cpu@;
        let ghost m0 = self.ram@;
        let ghost pc = self.cpu.pc;
        let r = self.cpu.cycle(&mut self.ram, &mut self.display, &self.keyboard);
        proof {
            if pc + 1 < RAM_SIZE {
                let op = Inst::spec_decode(m0[pc as int], m0[pc + 1]);
                let b = choose|b: u8| #[trigger] spec_outcome(c0, m0, op, b, r, self.cpu@, self.ram@);
                assert(spec_outcome(c0, m0, op, b, r, self.cpu@, self.ram@));
            }
        }
        r
    }

    /// Copies as much of a program as fits into memory from the program's
    /// start address, and returns the number of bytes copied.
    pub fn load(&mut self, program: &[u8]) -> (n: usize)
        ensures
            n == if program@.len() <= RAM_SIZE - HEAD_OF_PROGRAM {
                program@.len() as int
            } else {
                RAM_SIZE - HEAD_OF_PROGRAM
            },
            final(self).ram@ == spec_written(
                old(self).ram@,
                HEAD_OF_PROGRAM as int,
                program@.subrange(0, n as int),
            ),
            final(self).cpu == old(self).cpu,
    {
        self.ram.load(HEAD_OF_PROGRAM, program)
    }

    /// Whether the program counter has run off the end of memory, which ends
    /// a run normally.
    pub fn finished(&self) -> (r: bool)
        ensures
            r == (self.cpu.pc + 1 >= RAM_SIZE),
    {
        self.cpu.pc as usize + 1 >= RAM_SIZE
    }

    /// `n` ticks of the 60 Hz clock on both timers.
    pub fn tick_timers(&mut self, n: u64)
        ensures
            final(self).cpu@ == (CpuState {
                dt: spec_after_ticks(old(self).cpu@.dt, n as nat) as u8,
                st: spec_after_ticks(old(self).cpu@.st, n as nat) as u8,
                ..old(self).cpu@
            }),
            final(self).ram == old(self).ram,
            final(self).wf() == old(self).wf(),
    {
        self.cpu.dt.ticks(n);
        self.cpu.st.ticks(n);
    }
}

} // verus!
