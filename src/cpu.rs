//! The execution engine: registers, the call stack, and the meaning of each
//! instruction.
use vstd::prelude::*;
use crate::inst::{addr, spec_addr, spec_val, val, Inst};
use crate::ram::{spec_written, Ram};
use crate::timer::Timer;
use crate::{HEAD_OF_PROGRAM, HEAD_OF_SPRITE, RAM_SIZE};
use vstd::array::array_as_slice;
use vstd::slice::slice_subrange;

verus! {

/// Number of general registers; the last one doubles as the flag register.
pub const NUM_REGS: usize = 16;

/// Index of the flag register `VF`.
pub const FLAG: usize = 15;

/// Capacity of the call stack.
pub const STACK_SIZE: usize = 16;

/// Bytes in one font glyph.
pub const GLYPH_BYTES: u16 = 5;

/// Why an instruction could not be carried out.
#[derive(Debug, Clone, Copy, PartialEq, Eq, Structural)]
pub enum ExecError {
    /// The word matches no instruction of the set.
    Unknown(Inst),
    /// A call with all sixteen stack slots in use.
    StackOverflow,
    /// A return with an empty stack.
    StackUnderflow,
    /// An access through `I` that reaches past the end of memory.
    OutOfMemory,
    /// The program counter does not address a whole word of memory.
    PcOutOfRange,
}

/// How an instruction moves the program counter.
#[derive(Debug, Clone, Copy, PartialEq, Eq, Structural)]
pub enum Control {
    /// On to the next instruction.
    Next,
    /// Over the next instruction.
    Skip,
    /// To the given address.
    Jump(u16),
}

/// The registers of the engine as mathematical values.
pub struct CpuState {
    pub v: Seq<u8>,
    pub i: u16,
    pub pc: u16,
    pub sp: u8,
    pub stack: Seq<u16>,
    pub dt: u8,
    pub st: u8,
}

/// Registers, program counter, call stack and the two timers.
pub struct CPU {
    pub v: [u8; NUM_REGS],
    pub i: u16,
    pub pc: u16,
    pub sp: u8,
    pub stack: [u16; STACK_SIZE],
    pub dt: Timer,
    pub st: Timer,
}

impl View for CPU {
    type V = CpuState;

    open spec fn view(&self) -> CpuState {
        CpuState {
            v: self.v@,
            i: self.i,
            pc: self.pc,
            sp: self.sp,
            stack: self.stack@,
            dt: self.dt.val,
            st: self.st.val,
        }
    }
}

impl CPU {
    /// The stack pointer stays within the stack.
    pub open spec fn wf(&self) -> bool {
        self.sp <= STACK_SIZE
    }
}

/// `a + b` modulo 2^16.
pub open spec fn wrap16(a: int, b: int) -> u16 {
    ((a + b) % 0x10000) as u16
}

/// The program counter after an instruction at `pc` with control `c`.
pub open spec fn spec_next_pc(pc: u16, c: Control) -> u16 {
    match c {
        Control::Next => wrap16(pc as int, 2),
        Control::Skip => wrap16(pc as int, 4),
        Control::Jump(t) => t,
    }
}

/// The registers with `V[x]` set to `b`.
pub open spec fn with_reg(s: CpuState, x: u8, b: int) -> CpuState {
    CpuState { v: s.v.update(x as int, b as u8), ..s }
}

/// Skip when `cond` holds, else go on.
pub open spec fn skip_if(cond: bool) -> Control {
    if cond {
        Control::Skip
    } else {
        Control::Next
    }
}

/// The flag value for a condition.
pub open spec fn flag(cond: bool) -> u8 {
    if cond {
        1
    } else {
        0
    }
}

/// The binary-coded decimal digits of `b`, hundreds first, written at `at`.
pub open spec fn spec_bcd(mem: Seq<u8>, at: int, b: u8) -> Seq<u8> {
    mem.update(at, b / 100).update(at + 1, (b / 10) % 10).update(at + 2, b % 10)
}

/// Control flow and conditional skips: groups 0 to 5, 9, B and E.
pub open spec fn spec_flow(s: CpuState, mem: Seq<u8>, op: Inst, input: u8) -> Result<
    (CpuState, Seq<u8>, Control),
    ExecError,
> {
    let vx = s.v[op.1 as int];
    let vy = s.v[op.2 as int];
    let kk = spec_val(op.2, op.3);
    let nnn = spec_addr(op.1, op.2, op.3);
    match op {
        Inst(0, 0, 0xe, 0) => Ok((s, mem, Control::Next)),
        Inst(0, 0, 0xe, 0xe) => if s.sp == 0 {
            Err(ExecError::StackUnderflow)
        } else {
            let sp = (s.sp - 1) as u8;
            Ok(
                (
                    CpuState { sp: sp, ..s },
                    mem,
                    Control::Jump(wrap16(s.stack[sp as int] as int, 2)),
                ),
            )
        },
        Inst(0, _, _, _) => Ok((s, mem, Control::Jump(nnn as u16))),
        Inst(1, _, _, _) => Ok((s, mem, Control::Jump(nnn as u16))),
        Inst(2, _, _, _) => if s.sp >= STACK_SIZE {
            Err(ExecError::StackOverflow)
        } else {
            Ok(
                (
                    CpuState {
                        stack: s.stack.update(s.sp as int, s.pc),
                        sp: (s.sp + 1) as u8,
                        ..s
                    },
                    mem,
                    Control::Jump(nnn as u16),
                ),
            )
        },
        Inst(3, _, _, _) => Ok((s, mem, skip_if(vx == kk))),
        Inst(4, _, _, _) => Ok((s, mem, skip_if(vx != kk))),
        Inst(5, _, _, 0) => Ok((s, mem, skip_if(vx == vy))),
        Inst(9, _, _, 0) => Ok((s, mem, skip_if(vx != vy))),
        Inst(0xb, _, _, _) => Ok((s, mem, Control::Jump((s.v[0] + nnn) as u16))),
        Inst(0xe, _, 9, 0xe) => Ok((s, mem, skip_if(input != 0))),
        Inst(0xe, _, 0xa, 1) => Ok((s, mem, skip_if(input == 0))),
        _ => Err(ExecError::Unknown(op)),
    }
}

/// Register loads and bitwise operations: groups 6, 7, and 8 up to 3.
pub open spec fn spec_alu(s: CpuState, mem: Seq<u8>, op: Inst, input: u8) -> Result<
    (CpuState, Seq<u8>, Control),
    ExecError,
> {
    let vx = s.v[op.1 as int];
    let vy = s.v[op.2 as int];
    let kk = spec_val(op.2, op.3);
    match op {
        Inst(6, x, _, _) => Ok((with_reg(s, x, kk), mem, Control::Next)),
        Inst(7, x, _, _) => Ok((with_reg(s, x, (vx + kk) % 256), mem, Control::Next)),
        Inst(8, x, _, 0) => Ok((with_reg(s, x, vy as int), mem, Control::Next)),
        Inst(8, x, _, 1) => Ok((with_reg(s, x, (vx | vy) as int), mem, Control::Next)),
        Inst(8, x, _, 2) => Ok((with_reg(s, x, (vx & vy) as int), mem, Control::Next)),
        Inst(8, x, _, 3) => Ok((with_reg(s, x, (vx ^ vy) as int), mem, Control::Next)),
        _ => Err(ExecError::Unknown(op)),
    }
}

/// Arithmetic and shifts, which set the flag register: group 8 from 4 on.
pub open spec fn spec_arith(s: CpuState, mem: Seq<u8>, op: Inst, input: u8) -> Result<
    (CpuState, Seq<u8>, Control),
    ExecError,
> {
    let vx = s.v[op.1 as int];
    let vy = s.v[op.2 as int];
    match op {
        Inst(8, x, _, 4) => Ok(
            (
                with_reg(with_reg(s, x, (vx + vy) % 256), 15, flag(vx + vy > 255) as int),
                mem,
                Control::Next,
            ),
        ),
        Inst(8, x, _, 5) => Ok(
            (
                with_reg(with_reg(s, x, (vx - vy) % 256), 15, flag(vx >= vy) as int),
                mem,
                Control::Next,
            ),
        ),
        Inst(8, x, _, 6) => {
            let t = with_reg(s, 15, (vx % 2) as int);
            Ok((with_reg(t, x, (t.v[x as int] / 2) as int), mem, Control::Next))
        },
        Inst(8, x, _, 7) => Ok(
            (
                with_reg(with_reg(s, x, (vy - vx) % 256), 15, flag(vy >= vx) as int),
                mem,
                Control::Next,
            ),
        ),
        Inst(8, x, _, 0xe) => {
            let t = with_reg(s, 15, (vx / 128) as int);
            Ok((with_reg(t, x, (t.v[x as int] * 2) % 256), mem, Control::Next))
        },
        _ => Err(ExecError::Unknown(op)),
    }
}

/// The index register, timers, memory and outside values: groups A, C, D and F.
pub open spec fn spec_misc(s: CpuState, mem: Seq<u8>, op: Inst, input: u8) -> Result<
    (CpuState, Seq<u8>, Control),
    ExecError,
> {
    let vx = s.v[op.1 as int];
    let kk = spec_val(op.2, op.3);
    let nnn = spec_addr(op.1, op.2, op.3);
    match op {
        Inst(0xa, _, _, _) => Ok((CpuState { i: nnn as u16, ..s }, mem, Control::Next)),
        Inst(0xc, x, _, _) => Ok((with_reg(s, x, (input & (kk as u8)) as int), mem, Control::Next)),
        Inst(0xd, _, _, n) => if s.i + n > RAM_SIZE {
            Err(ExecError::OutOfMemory)
        } else {
            Ok((with_reg(s, 15, flag(input != 0) as int), mem, Control::Next))
        },
        Inst(0xf, x, 0, 7) => Ok((with_reg(s, x, s.dt as int), mem, Control::Next)),
        Inst(0xf, x, 0, 0xa) => Ok((with_reg(s, x, input as int), mem, Control::Next)),
        Inst(0xf, _, 1, 5) => Ok((CpuState { dt: vx, ..s }, mem, Control::Next)),
        Inst(0xf, _, 1, 8) => Ok((CpuState { st: vx, ..s }, mem, Control::Next)),
        Inst(0xf, _, 1, 0xe) => Ok((CpuState { i: wrap16(s.i as int, vx as int), ..s }, mem, Control::Next)),
        Inst(0xf, _, 2, 9) => Ok(
            (CpuState { i: (HEAD_OF_SPRITE + vx * GLYPH_BYTES) as u16, ..s }, mem, Control::Next),
        ),
        Inst(0xf, _, 3, 3) => if s.i + 2 >= RAM_SIZE {
            Err(ExecError::OutOfMemory)
        } else {
            Ok((s, spec_bcd(mem, s.i as int, vx), Control::Next))
        },
        Inst(0xf, x, 5, 5) => if s.i + x >= RAM_SIZE {
            Err(ExecError::OutOfMemory)
        } else {
            Ok((s, spec_written(mem, s.i as int, s.v.subrange(0, x + 1)), Control::Next))
        },
        Inst(0xf, x, 6, 5) => if s.i + x >= RAM_SIZE {
            Err(ExecError::OutOfMemory)
        } else {
            Ok(
                (
                    CpuState {
                        v: Seq::new(
                            s.v.len(),
                            |j: int|
                                if j <= x {
                                    mem[s.i + j]
                                } else {
                                    s.v[j]
                                },
                        ),
                        ..s
                    },
                    mem,
                    Control::Next,
                ),
            )
        },
        _ => Err(ExecError::Unknown(op)),
    }
}

/// What instruction `op` does to the registers and memory, and how it moves
/// the program counter. `input` is what the outside handed back for it: 1 or
/// 0 for a sprite collision or a key press, the key that was waited for, or a
/// random byte; other instructions ignore it.
pub open spec fn spec_exec(s: CpuState, mem: Seq<u8>, op: Inst, input: u8) -> Result<
    (CpuState, Seq<u8>, Control),
    ExecError,
> {
    if op.0 <= 5 || op.0 == 9 || op.0 == 0xb || op.0 == 0xe {
        spec_flow(s, mem, op, input)
    } else if op.0 <= 7 || (op.0 == 8 && op.3 <= 3) {
        spec_alu(s, mem, op, input)
    } else if op.0 == 8 {
        spec_arith(s, mem, op, input)
    } else {
        spec_misc(s, mem, op, input)
    }
}

/// One whole instruction: its effect, then the program counter moved.
pub open spec fn spec_step(s: CpuState, mem: Seq<u8>, op: Inst, input: u8) -> Result<
    (CpuState, Seq<u8>),
    ExecError,
> {
    match spec_exec(s, mem, op, input) {
        Ok((t, m, c)) => Ok((CpuState { pc: spec_next_pc(s.pc, c), ..t }, m)),
        Err(e) => Err(e),
    }
}

/// What happened when instruction `op` ran on registers `s` and memory
/// `mem` with outside value `input`, returned `r`, and left `s1` and `m1`:
/// the step's result on success; on failure its error, with nothing changed.
pub open spec fn spec_outcome(
    s: CpuState,
    mem: Seq<u8>,
    op: Inst,
    input: u8,
    r: Result<(), ExecError>,
    s1: CpuState,
    m1: Seq<u8>,
) -> bool {
    match spec_step(s, mem, op, input) {
        Ok((c, m)) => r is Ok && s1 == c && m1 == m,
        Err(e) => r == Err::<(), ExecError>(e) && s1 == s && m1 == mem,
    }
}

/// The same as `spec_outcome`, before the program counter moves: `r` holds
/// the control on success.
pub open spec fn exec_outcome(
    s: CpuState,
    mem: Seq<u8>,
    op: Inst,
    input: u8,
    r: Result<Control, ExecError>,
    s1: CpuState,
    m1: Seq<u8>,
) -> bool {
    match spec_exec(s, mem, op, input) {
        Ok((c, m, ctl)) => r == Ok::<Control, ExecError>(ctl) && s1 == c && m1 == m,
        Err(e) => r == Err::<Control, ExecError>(e) && s1 == s && m1 == mem,
    }
}

/// What an instruction needs from outside before it can be applied.
#[derive(Debug, Clone, Copy, PartialEq, Eq, Structural)]
pub enum Request {
    /// Nothing.
    Nothing,
    /// The display to be cleared.
    Clear,
    /// The sprite in memory from `start` up to `end` drawn at `(x, y)`, and
    /// whether it collided.
    Draw { x: u8, y: u8, start: usize, end: usize },
    /// Whether the given key is down.
    IsPressed(u8),
    /// A key press, waited for.
    WaitKey,
    /// A random byte.
    Random,
}

/// What `op` needs from outside on registers `s`.
pub open spec fn spec_request(s: CpuState, op: Inst) -> Request {
    match op {
        Inst(0, 0, 0xe, 0) => Request::Clear,
        Inst(0xc, _, _, _) => Request::Random,
        Inst(0xd, x, y, n) => if s.i + n <= RAM_SIZE {
            Request::Draw {
                x: s.v[x as int],
                y: s.v[y as int],
                start: s.i as usize,
                end: (s.i + n) as usize,
            }
        } else {
            Request::Nothing
        },
        Inst(0xe, x, 9, 0xe) => Request::IsPressed(s.v[x as int]),
        Inst(0xe, x, 0xa, 1) => Request::IsPressed(s.v[x as int]),
        Inst(0xf, _, 0, 0xa) => Request::WaitKey,
        _ => Request::Nothing,
    }
}

/// Whether the request hands a value back.
pub open spec fn wants_input(r: Request) -> bool {
    !(r is Nothing || r is Clear)
}

impl CPU {
    /// Registers, index and stack at zero, the program counter at the start of
    /// the program, both timers at zero.
    pub fn new() -> (r: CPU)
        ensures
            r.wf(),
            forall|j: int| 0 <= j < NUM_REGS ==> r@.v[j] == 0,
            forall|j: int| 0 <= j < STACK_SIZE ==> r@.stack[j] == 0,
            r@.i == 0,
            r@.pc == HEAD_OF_PROGRAM,
            r@.sp == 0,
            r@.dt == 0,
            r@.st == 0,
    {
        CPU {
            v: [0u8; NUM_REGS],
            i: 0,
            stack: [0u16; STACK_SIZE],
            sp: 0,
            pc: HEAD_OF_PROGRAM,
            dt: Timer::new(),
            st: Timer::new(),
        }
    }

    /// Control flow and conditional skips.
    #[verifier::rlimit(100)]
    #[verifier::spinoff_prover]
    fn exec_flow(&mut self, op: Inst, ram: &Ram, input: u8) -> (r: Result<Control, ExecError>)
        requires
            old(self).wf(),
            op.wf(),
            op.0 <= 5 || op.0 == 9 || op.0 == 0xb || op.0 == 0xe,
        ensures
            final(self).wf(),
            exec_outcome(old(self)@, ram@, op, input, r, final(self)@, ram@),
    {
        let x = op.1 as usize;
        let y = op.2 as usize;
        let ctl = match op {
            Inst(0, 0, 0xe, 0) => Control::Next,
            Inst(0, 0, 0xe, 0xe) => {
                if self.sp == 0 {
                    return Err(ExecError::StackUnderflow);
                }
                self.sp = self.sp - 1;
                Control::Jump(((self.stack[self.sp as usize] as u32 + 2) % 0x10000) as u16)
            },
            Inst(0, n1, n2, n3) => Control::Jump(addr(n1, n2, n3)),
            Inst(1, n1, n2, n3) => Control::Jump(addr(n1, n2, n3)),
            Inst(2, n1, n2, n3) => {
                if self.sp as usize >= STACK_SIZE {
                    return Err(ExecError::StackOverflow);
                }
                self.stack[self.sp as usize] = self.pc;
                self.sp = self.sp + 1;
                Control::Jump(addr(n1, n2, n3))
            },
            Inst(3, _, k1, k2) => if self.v[x] == val(k1, k2) {
                Control::Skip
            } else {
                Control::Next
            },
            Inst(4, _, k1, k2) => if self.v[x] != val(k1, k2) {
                Control::Skip
            } else {
                Control::Next
            },
            Inst(5, _, _, 0) => if self.v[x] == self.v[y] {
                Control::Skip
            } else {
                Control::Next
            },
            Inst(9, _, _, 0) => if self.v[x] != self.v[y] {
                Control::Skip
            } else {
                Control::Next
            },
            Inst(0xb, n1, n2, n3) => Control::Jump(self.v[0] as u16 + addr(n1, n2, n3)),
            Inst(0xe, _, 9, 0xe) => if input != 0 {
                Control::Skip
            } else {
                Control::Next
            },
            Inst(0xe, _, 0xa, 1) => if input == 0 {
                Control::Skip
            } else {
                Control::Next
            },
            _ => {
                return Err(ExecError::Unknown(op));
            },
        };
        Ok(ctl)
    }

    /// Register loads and bitwise operations.
    #[verifier::rlimit(100)]
    #[verifier::spinoff_prover]
    fn exec_alu(&mut self, op: Inst, ram: &Ram, input: u8) -> (r: Result<Control, ExecError>)
        requires
            old(self).wf(),
            op.wf(),
            6 <= op.0 <= 7 || (op.0 == 8 && op.3 <= 3),
        ensures
            final(self).wf(),
            exec_outcome(old(self)@, ram@, op, input, r, final(self)@, ram@),
    {
        let x = op.1 as usize;
        let y = op.2 as usize;
        let ctl = match op {
            Inst(6, _, k1, k2) => {
                self.v[x] = val(k1, k2);
                Control::Next
            },
            Inst(7, _, k1, k2) => {
                self.v[x] = ((self.v[x] as u16 + val(k1, k2) as u16) % 256) as u8;
                Control::Next
            },
            Inst(8, _, _, 0) => {
                self.v[x] = self.v[y];
                Control::Next
            },
            Inst(8, _, _, 1) => {
                self.v[x] = self.v[x] | self.v[y];
                Control::Next
            },
            Inst(8, _, _, 2) => {
                self.v[x] = self.v[x] & self.v[y];
                Control::Next
            },
            Inst(8, _, _, 3) => {
                self.v[x] = self.v[x] ^ self.v[y];
                Control::Next
            },
            _ => {
                return Err(ExecError::Unknown(op));
            },
        };
        Ok(ctl)
    }

    /// Arithmetic and shifts, which set the flag register.
    #[verifier::rlimit(100)]
    #[verifier::spinoff_prover]
    fn exec_arith(&mut self, op: Inst, ram: &Ram, input: u8) -> (r: Result<Control, ExecError>)
        requires
            old(self).wf(),
            op.wf(),
            op.0 == 8 && op.3 >= 4,
        ensures
            final(self).wf(),
            exec_outcome(old(self)@, ram@, op, input, r, final(self)@, ram@),
    {
        let x = op.1 as usize;
        let y = op.2 as usize;
        let ctl = match op {
            Inst(8, _, _, 4) => {
                let sum = self.v[x] as u16 + self.v[y] as u16;
                self.v[x] = (sum % 256) as u8;
                self.v[FLAG] = if sum > 255 {
                    1
                } else {
                    0
                };
                Control::Next
            },
            Inst(8, _, _, 5) => {
                let (a, b) = (self.v[x], self.v[y]);
                let d = ((a as u16 + 256 - b as u16) % 256) as u8;
                assert(d == (a - b) % 256);
                self.v[x] = d;
                self.v[FLAG] = if a >= b {
                    1
                } else {
                    0
                };
                Control::Next
            },
            Inst(8, _, _, 6) => {
                self.v[FLAG] = self.v[x] % 2;
                self.v[x] = self.v[x] / 2;
                Control::Next
            },
            Inst(8, _, _, 7) => {
                let (a, b) = (self.v[x], self.v[y]);
                let d = ((b as u16 + 256 - a as u16) % 256) as u8;
                assert(d == (b - a) % 256);
                self.v[x] = d;
                self.v[FLAG] = if b >= a {
                    1
                } else {
                    0
                };
                Control::Next
            },
            Inst(8, _, _, 0xe) => {
                self.v[FLAG] = self.v[x] / 128;
                self.v[x] = ((self.v[x] as u16 * 2) % 256) as u8;
                Control::Next
            },
            _ => {
                return Err(ExecError::Unknown(op));
            },
        };
        Ok(ctl)
    }

    /// The index register, timers, memory and outside values.
    #[verifier::rlimit(100)]
    #[verifier::spinoff_prover]
    fn exec_misc(&mut self, op: Inst, ram: &mut Ram, input: u8) -> (r: Result<Control, ExecError>)
        requires
            old(self).wf(),
            op.wf(),
            op.0 == 0xa || op.0 == 0xc || op.0 == 0xd || op.0 == 0xf,
        ensures
            final(self).wf(),
            exec_outcome(old(self)@, old(ram)@, op, input, r, final(self)@, final(ram)@),
    {
        let ghost s0 = self@;
        let ghost m0 = ram@;
        let x = op.1 as usize;
        let ctl = match op {
            Inst(0xa, n1, n2, n3) => {
                self.i = addr(n1, n2, n3);
                Control::Next
            },
            Inst(0xc, _, k1, k2) => {
                self.v[x] = input & val(k1, k2);
                Control::Next
            },
            Inst(0xd, _, _, n) => {
                if self.i as usize + n as usize > RAM_SIZE {
                    return Err(ExecError::OutOfMemory);
                }
                self.v[FLAG] = if input != 0 {
                    1
                } else {
                    0
                };
                Control::Next
            },
            Inst(0xf, _, 0, 7) => {
                self.v[x] = self.dt.get();
                Control::Next
            },
            Inst(0xf, _, 0, 0xa) => {
                self.v[x] = input;
                Control::Next
            },
            Inst(0xf, _, 1, 5) => {
                let b = self.v[x];
                self.dt.set(b);
                Control::Next
            },
            Inst(0xf, _, 1, 8) => {
                let b = self.v[x];
                self.st.set(b);
                Control::Next
            },
            Inst(0xf, _, 1, 0xe) => {
                self.i = ((self.i as u32 + self.v[x] as u32) % 0x10000) as u16;
                Control::Next
            },
            Inst(0xf, _, 2, 9) => {
                self.i = HEAD_OF_SPRITE + (self.v[x] as u16) * GLYPH_BYTES;
                Control::Next
            },
            Inst(0xf, _, 3, 3) => {
                if self.i as usize + 2 >= RAM_SIZE {
                    return Err(ExecError::OutOfMemory);
                }
                let b = self.v[x];
                let at = self.i as usize;
                ram.buf[at] = b / 100;
                ram.buf[at + 1] = (b / 10) % 10;
                ram.buf[at + 2] = b % 10;
                Control::Next
            },
            Inst(0xf, _, 5, 5) => {
                if self.i as usize + x >= RAM_SIZE {
                    return Err(ExecError::OutOfMemory);
                }
                let at = self.i as usize;
                let mut j: usize = 0;
                while j <= x
                    invariant
                        x < NUM_REGS,
                        at + x < RAM_SIZE,
                        at == s0.i,
                        j <= x + 1,
                        self@ == s0,
                        ram@.len() == RAM_SIZE,
                        ram@ == spec_written(m0, at as int, s0.v.subrange(0, j as int)),
                    decreases x + 1 - j,
                {
                    ram.buf[at + j] = self.v[j];
                    proof {
                        assert(ram@ =~= spec_written(m0, at as int, s0.v.subrange(0, j + 1)));
                    }
                    j = j + 1;
                }
                Control::Next
            },
            Inst(0xf, _, 6, 5) => {
                if self.i as usize + x >= RAM_SIZE {
                    return Err(ExecError::OutOfMemory);
                }
                let at = self.i as usize;
                let mut j: usize = 0;
                while j <= x
                    invariant
                        x < NUM_REGS,
                        at + x < RAM_SIZE,
                        at == s0.i,
                        j <= x + 1,
                        self.i == s0.i,
                        self.pc == s0.pc,
                        self.sp == s0.sp,
                        self.stack@ == s0.stack,
                        self.dt.val == s0.dt,
                        self.st.val == s0.st,
                        ram@ == m0,
                        ram@.len() == RAM_SIZE,
                        self.v@ == Seq::new(
                            NUM_REGS as nat,
                            |k: int|
                                if k < j {
                                    m0[at + k]
                                } else {
                                    s0.v[k]
                                },
                        ),
                    decreases x + 1 - j,
                {
                    self.v[j] = ram.buf[at + j];
                    proof {
                        assert(self.v@ =~= Seq::new(
                            NUM_REGS as nat,
                            |k: int|
                                if k < j + 1 {
                                    m0[at + k]
                                } else {
                                    s0.v[k]
                                },
                        ));
                    }
                    j = j + 1;
                }
                proof {
                    assert(self.v@ =~= Seq::new(
                        s0.v.len(),
                        |k: int|
                            if k <= x {
                                m0[s0.i + k]
                            } else {
                                s0.v[k]
                            },
                    ));
                }
                Control::Next
            },
            _ => {
                return Err(ExecError::Unknown(op));
            },
        };
        Ok(ctl)
    }

    /// Carries out `op`, given the value `input` that the outside handed back
    /// for it, and moves the program counter.
    pub fn apply(&mut self, op: Inst, ram: &mut Ram, input: u8) -> (r: Result<(), ExecError>)
        requires
            old(self).wf(),
            op.wf(),
        ensures
            final(self).wf(),
            spec_outcome(old(self)@, old(ram)@, op, input, r, final(self)@, final(ram)@),
    {
        let ctl = if op.0 <= 5 || op.0 == 9 || op.0 == 0xb || op.0 == 0xe {
            self.exec_flow(op, ram, input)
        } else if op.0 <= 7 || (op.0 == 8 && op.3 <= 3) {
            self.exec_alu(op, ram, input)
        } else if op.0 == 8 {
            self.exec_arith(op, ram, input)
        } else {
            self.exec_misc(op, ram, input)
        };
        match ctl {
            Err(e) => Err(e),
            Ok(c) => {
                self.pc = match c {
                    Control::Next => ((self.pc as u32 + 2) % 0x10000) as u16,
                    Control::Skip => ((self.pc as u32 + 4) % 0x10000) as u16,
                    Control::Jump(t) => t,
                };
                Ok(())
            },
        }
    }
}


/// Where the engine draws: a monochrome framebuffer supplied by the host.
pub trait Display {
    /// Blanks the framebuffer.
    fn clear(&mut self);

    /// XORs an 8-pixel-wide sprite, one byte per row, onto the framebuffer at
    /// `(x, y)` with wraparound, and tells whether a lit pixel was cleared.
    fn draw(&mut self, x: u8, y: u8, sprite: &[u8]) -> bool;
}

/// Where the engine reads keys from: the sixteen-key pad of the host.
pub trait Keyboard {
    /// Whether key `key` is down now.
    fn is_pressed(&self, key: u8) -> bool;

    /// Blocks until a key is pressed, and returns it.
    fn wait(&self) -> u8;
}

/// Relies on rand::random: a byte drawn from the thread-local generator. Any
/// byte may come back.
#[verifier::external_body]
fn random_byte() -> (r: u8) {
    rand::random::<u8>()
}

/// The registers as plain values, for inspection.
#[derive(Debug, Clone, Copy)]
pub struct Dump {
    pub pc: u16,
    pub v: [u8; NUM_REGS],
    pub sp: u8,
    pub stack: [u16; STACK_SIZE],
    pub i: u16,
    pub dt: u8,
}

impl CPU {
    /// What `op` needs from outside before it can be applied.
    pub fn request(&self, op: Inst) -> (r: Request)
        requires
            op.wf(),
        ensures
            r == spec_request(self@, op),
    {
        match op {
            Inst(0, 0, 0xe, 0) => Request::Clear,
            Inst(0xc, _, _, _) => Request::Random,
            Inst(0xd, x, y, n) => if self.i as usize + n as usize <= RAM_SIZE {
                Request::Draw {
                    x: self.v[x as usize],
                    y: self.v[y as usize],
                    start: self.i as usize,
                    end: self.i as usize + n as usize,
                }
            } else {
                Request::Nothing
            },
            Inst(0xe, x, 9, 0xe) => Request::IsPressed(self.v[x as usize]),
            Inst(0xe, x, 0xa, 1) => Request::IsPressed(self.v[x as usize]),
            Inst(0xf, _, 0, 0xa) => Request::WaitKey,
            _ => Request::Nothing,
        }
    }

    /// Carries out `op`: serves its request with the display, the keyboard or
    /// the random source, then applies it with what came back. Whatever came
    /// back, the outcome is that of `apply` on some value; where the request
    /// hands nothing back, it is that of `apply` on zero.
    pub fn execute<D: Display, K: Keyboard>(
        &mut self,
        op: Inst,
        ram: &mut Ram,
        display: &mut D,
        keyboard: &K,
    ) -> (r: Result<(), ExecError>)
        requires
            old(self).wf(),
            op.wf(),
        ensures
            final(self).wf(),
            exists|b: u8|
                #[trigger] spec_outcome(old(self)@, old(ram)@, op, b, r, final(self)@, final(ram)@),
            !wants_input(spec_request(old(self)@, op)) ==> spec_outcome(
                old(self)@,
                old(ram)@,
                op,
                0,
                r,
                final(self)@,
                final(ram)@,
            ),
    {
        let input: u8 = match self.request(op) {
            Request::Nothing => 0,
            Request::Clear => {
                display.clear();
                0
            },
            Request::Draw { x, y, start, end } => {
                let sprite = slice_subrange(array_as_slice(&ram.buf), start, end);
                if display.draw(x, y, sprite) {
                    1
                } else {
                    0
                }
            },
            Request::IsPressed(key) => if keyboard.is_pressed(key) {
                1
            } else {
                0
            },
            Request::WaitKey => keyboard.wait(),
            Request::Random => random_byte(),
        };
        let r = self.apply(op, ram, input);
        assert(spec_outcome(old(self)@, old(ram)@, op, input, r, self@, ram@));
        r
    }

    /// One fetch-decode-execute cycle at the program counter. Fails with
    /// `PcOutOfRange`, changing nothing, where the word at the program counter
    /// does not lie wholly inside memory.
    pub fn cycle<D: Display, K: Keyboard>(
        &mut self,
        ram: &mut Ram,
        display: &mut D,
        keyboard: &K,
    ) -> (r: Result<(), ExecError>)
        requires
            old(self).wf(),
        ensures
            final(self).wf(),
            old(self).pc + 1 >= RAM_SIZE ==> r == Err::<(), ExecError>(ExecError::PcOutOfRange)
                && final(self)@ == old(self)@ && final(ram)@ == old(ram)@,
            old(self).pc + 1 < RAM_SIZE ==> exists|b: u8|
                #[trigger] spec_outcome(
                    old(self)@,
                    old(ram)@,
                    Inst::spec_decode(old(ram)@[old(self).pc as int], old(ram)@[old(self).pc + 1]),
                    b,
                    r,
                    final(self)@,
                    final(ram)@,
                ),
    {
        match ram.fetch(self.pc) {
            None => Err(ExecError::PcOutOfRange),
            Some(w) => {
                let op = Inst::decode(&w);
                self.execute(op, ram, display, keyboard)
            },
        }
    }

    /// The registers as plain values.
    pub fn dump(&self) -> (r: Dump)
        ensures
            r.pc == self.pc,
            r.v@ == self.v@,
            r.sp == self.sp,
            r.stack@ == self.stack@,
            r.i == self.i,
            r.dt == self.dt.val,
    {
        Dump { pc: self.pc, v: self.v, sp: self.sp, stack: self.stack, i: self.i, dt: self.dt.get() }
    }
}


/// Whether instruction `op` succeeds on registers `s` and memory `mem`.
pub open spec fn step_ok(s: CpuState, mem: Seq<u8>, op: Inst, input: u8) -> bool {
    spec_step(s, mem, op, input) is Ok
}

/// The registers after instruction `op`; unchanged where it fails.
pub open spec fn state_after(s: CpuState, mem: Seq<u8>, op: Inst, input: u8) -> CpuState {
    match spec_step(s, mem, op, input) {
        Ok((c, _)) => c,
        Err(_) => s,
    }
}

/// Adding and subtracting registers wraps modulo 256, and always overwrites
/// the flag register: with 1 exactly when an addition carries, and with 1
/// exactly when a subtraction does not borrow.
pub proof fn lemma_add_sub_flags(s: CpuState, mem: Seq<u8>, x: u8, y: u8, input: u8)
    requires
        s.v.len() == NUM_REGS,
        x < 16,
        y < 16,
    ensures
        ({
            let (vx, vy) = (s.v[x as int], s.v[y as int]);
            let add = state_after(s, mem, Inst(8, x, y, 4), input);
            let sub = state_after(s, mem, Inst(8, x, y, 5), input);
            let subn = state_after(s, mem, Inst(8, x, y, 7), input);
            &&& step_ok(s, mem, Inst(8, x, y, 4), input)
            &&& step_ok(s, mem, Inst(8, x, y, 5), input)
            &&& step_ok(s, mem, Inst(8, x, y, 7), input)
            &&& add.v[FLAG as int] == flag(vx + vy > 255)
            &&& sub.v[FLAG as int] == flag(vx >= vy)
            &&& subn.v[FLAG as int] == flag(vy >= vx)
            &&& x != FLAG ==> add.v[x as int] == (vx + vy) % 256
            &&& x != FLAG ==> sub.v[x as int] == (vx - vy) % 256
            &&& x != FLAG ==> subn.v[x as int] == (vy - vx) % 256
        }),
{
}

/// The program counter after a step at `pc` that skips when `cond` holds.
pub open spec fn skipped_pc(pc: u16, cond: bool) -> u16 {
    if cond {
        wrap16(pc as int, 4)
    } else {
        wrap16(pc as int, 2)
    }
}

/// A conditional skip moves the program counter on by 4 when its condition
/// holds and by 2 otherwise, whatever the registers hold.
pub proof fn lemma_skip(s: CpuState, mem: Seq<u8>, x: u8, y: u8, k1: u8, k2: u8, input: u8)
    requires
        s.v.len() == NUM_REGS,
        x < 16,
        y < 16,
        k1 < 16,
        k2 < 16,
    ensures
        ({
            let (vx, vy, kk) = (s.v[x as int], s.v[y as int], spec_val(k1, k2));
            &&& step_ok(s, mem, Inst(3, x, k1, k2), input)
            &&& state_after(s, mem, Inst(3, x, k1, k2), input).pc == skipped_pc(s.pc, vx == kk)
            &&& step_ok(s, mem, Inst(4, x, k1, k2), input)
            &&& state_after(s, mem, Inst(4, x, k1, k2), input).pc == skipped_pc(s.pc, vx != kk)
            &&& step_ok(s, mem, Inst(5, x, y, 0), input)
            &&& state_after(s, mem, Inst(5, x, y, 0), input).pc == skipped_pc(s.pc, vx == vy)
            &&& step_ok(s, mem, Inst(9, x, y, 0), input)
            &&& state_after(s, mem, Inst(9, x, y, 0), input).pc == skipped_pc(s.pc, vx != vy)
            &&& step_ok(s, mem, Inst(0xe, x, 9, 0xe), input)
            &&& state_after(s, mem, Inst(0xe, x, 9, 0xe), input).pc == skipped_pc(s.pc, input != 0)
            &&& step_ok(s, mem, Inst(0xe, x, 0xa, 1), input)
            &&& state_after(s, mem, Inst(0xe, x, 0xa, 1), input).pc == skipped_pc(s.pc, input == 0)
        }),
{
}

/// A call followed by a return resumes just after the call instruction, with
/// the stack pointer, the general registers and the index register as they
/// were before the call, at any depth below the stack's capacity.
pub proof fn lemma_call_return(
    s: CpuState,
    mem: Seq<u8>,
    n1: u8,
    n2: u8,
    n3: u8,
    a: u8,
    b: u8,
)
    requires
        s.v.len() == NUM_REGS,
        s.stack.len() == STACK_SIZE,
        s.sp < STACK_SIZE,
        n1 < 16,
        n2 < 16,
        n3 < 16,
    ensures
        ({
            let called = state_after(s, mem, Inst(2, n1, n2, n3), a);
            let back = state_after(called, mem, Inst(0, 0, 0xe, 0xe), b);
            &&& step_ok(s, mem, Inst(2, n1, n2, n3), a)
            &&& called.pc == spec_addr(n1, n2, n3)
            &&& called.sp == s.sp + 1
            &&& step_ok(called, mem, Inst(0, 0, 0xe, 0xe), b)
            &&& back.pc == wrap16(s.pc as int, 2)
            &&& back.sp == s.sp
            &&& back.v == s.v
            &&& back.i == s.i
        }),
{
}

} // verus!
