//! The execution engine: fetch, decode, execute, advance.
//!
//! The machine's whole behaviour is pinned down by the spec-level transition
//! function [`spec_step`]: one cycle fetches the word under the instruction
//! pointer (halting cleanly if the pointer has left the program grid),
//! decodes it, applies the instruction's effect, and, unless the instruction
//! redirected control, advances the pointer in raster order. [`spec_run`]
//! iterates it; the executable engine is proved to follow it step for step.
//!
//! Design choices this module fixes (the encoding leaves them open):
//! - Every instruction occupies one word, so the pointer advances by one.
//! - `LoadLow`/`LoadHigh` replace the low/high 12 bits of the target word
//!   with the immediate's low 12 bits, of which the 6-bit instruction field
//!   can populate only the low 6.
//! - `Alloc` reads its size from the first operand field and its destination
//!   from the second.
//! - `MemCopy` copies as if through a snapshot: overlapping ranges read the
//!   source as it stood before the copy.
//! - `Return` jumps to whatever word it pops without a bounds check: a popped
//!   address past the grid makes the next fetch halt the machine cleanly.

use vstd::prelude::*;

use crate::error::Error;
use crate::instruction::{spec_decode, Instruction, Register};
use crate::memory::{GridModel, RasterMemory};
use crate::registers::RegisterFile;
use crate::word::{addr_word, addr_x, addr_y, word_wf};

verus! {

/// The mathematical state of one running machine.
#[verifier::ext_equal]
pub ghost struct VmModel {
    /// The program grid: read-write, and the instruction stream.
    pub program: GridModel,
    /// The optional input grid, immutable for the run's duration.
    pub input: Option<GridModel>,
    /// The output grid, absent until `Alloc` materialises it.
    pub output: Option<GridModel>,
    /// The 32 registers; register 31 is the instruction pointer.
    pub regs: Seq<u32>,
    /// The call/return stack, also used by `Push`/`Pop`.
    pub stack: Seq<u32>,
    /// How many output cells have been reserved by `Alloc`.
    pub alloc_next: nat,
}

impl VmModel {
    /// The machine's invariant: well-formed grids within the 4096-a-side
    /// limit, the output grid (once present) shaped like the program grid,
    /// 32 well-formed registers, well-formed stack words, and an allocation
    /// cursor that never passes the output's capacity.
    pub open spec fn wf(self) -> bool {
        &&& self.program.wf()
        &&& self.program.within_limits()
        &&& match self.input {
            Some(g) => g.wf() && g.within_limits(),
            None => true,
        }
        &&& match self.output {
            Some(g) => g.wf() && g.width == self.program.width && g.height
                == self.program.height,
            None => true,
        }
        &&& self.regs.len() == 32
        &&& forall|i: int| 0 <= i < 32 ==> word_wf(#[trigger] self.regs[i])
        &&& forall|i: int| 0 <= i < self.stack.len() ==> word_wf(#[trigger] self.stack[i])
        &&& self.alloc_next <= self.program.width * self.program.height
    }

    /// The instruction pointer's word: register 31.
    pub open spec fn ip(self) -> u32 {
        self.regs[31]
    }
}

/// The state a machine starts a run in: the caller's grids, zeroed
/// registers (so the instruction pointer starts at `(0, 0)`), an empty
/// stack, and no output grid.
pub open spec fn init_model(program: GridModel, input: Option<GridModel>) -> VmModel {
    VmModel {
        program,
        input,
        output: None,
        regs: Seq::new(32, |i: int| 0u32),
        stack: Seq::empty(),
        alloc_next: 0,
    }
}

/// What applying one instruction yields.
pub ghost enum ExecOutcome {
    /// The instruction fell through: the pointer advance still follows.
    Stepped(VmModel),
    /// The instruction redirected control: the pointer is already set.
    Jumped(VmModel),
    /// `Halt`: the machine stops with this state.
    Stopped(VmModel),
    /// A fatal error: the run aborts.
    Fault(Error),
}

/// What one whole fetch-decode-execute-advance cycle yields.
pub ghost enum StepOutcome {
    /// The machine is still running, in this state.
    Next(VmModel),
    /// The machine halted, leaving this state.
    Done(VmModel),
    /// The run aborted with this error.
    Fail(Error),
}

/// The scalar value an operand resolves to: the register's word, or, with
/// the dereference flag, the program cell that word addresses.
pub open spec fn spec_read_operand(m: VmModel, op: Register) -> Result<u32, Error> {
    if op.value >= 32 {
        Err(Error::InvalidRegister)
    } else {
        let w = m.regs[op.value as int];
        if !op.deref {
            Ok(w)
        } else if m.program.in_bounds(addr_x(w), addr_y(w)) {
            Ok(m.program.word_at(addr_x(w), addr_y(w)))
        } else {
            Err(Error::AddressOutOfBounds)
        }
    }
}

/// Whether an operand names a writable location: a valid register, and, with
/// the dereference flag, a register whose word addresses a program cell.
pub open spec fn spec_write_ok(m: VmModel, op: Register) -> bool {
    &&& op.value < 32
    &&& (op.deref ==> m.program.in_bounds(
        addr_x(m.regs[op.value as int]),
        addr_y(m.regs[op.value as int]),
    ))
}

/// The error an unwritable operand raises.
pub open spec fn spec_write_err(m: VmModel, op: Register) -> Error {
    if op.value >= 32 {
        Error::InvalidRegister
    } else {
        Error::AddressOutOfBounds
    }
}

/// The state after storing `w` through an operand: into the register, or,
/// with the dereference flag, into the program cell its word addresses.
pub open spec fn spec_write_operand(m: VmModel, op: Register, w: u32) -> VmModel {
    if !op.deref {
        VmModel { regs: m.regs.update(op.value as int, w), ..m }
    } else {
        let a = m.regs[op.value as int];
        VmModel { program: m.program.with_word(addr_x(a), addr_y(a), w), ..m }
    }
}

/// The scalar binary operations of the 13-way arithmetic/comparison family.
#[derive(Clone, Copy, Debug, PartialEq, Eq, Structural)]
pub enum AluKind {
    Add,
    Subtract,
    Multiply,
    Divide,
    Modulo,
    And,
    Or,
    Equal,
    NotEqual,
    GreaterThan,
    LessThan,
    GreaterThanEqual,
    LessThanEqual,
}

/// Whether the operation faults on this second operand: division or modulo
/// by zero.
pub open spec fn alu_fault(k: AluKind, b: u32) -> bool {
    (k == AluKind::Divide || k == AluKind::Modulo) && b == 0
}

/// The scalar result of one binary operation, truncated to 24 bits;
/// comparisons yield 1 or 0.
pub open spec fn spec_alu(k: AluKind, a: u32, b: u32) -> u32 {
    match k {
        AluKind::Add => ((a + b) % 0x1000000) as u32,
        AluKind::Subtract => (if a >= b {
            a - b
        } else {
            a + 0x1000000 - b
        }) as u32,
        AluKind::Multiply => ((a * b) % 0x1000000) as u32,
        AluKind::Divide => (a as int / b as int) as u32,
        AluKind::Modulo => (a as int % b as int) as u32,
        AluKind::And => a & b,
        AluKind::Or => a | b,
        AluKind::Equal => if a == b {
            1u32
        } else {
            0u32
        },
        AluKind::NotEqual => if a != b {
            1u32
        } else {
            0u32
        },
        AluKind::GreaterThan => if a > b {
            1u32
        } else {
            0u32
        },
        AluKind::LessThan => if a < b {
            1u32
        } else {
            0u32
        },
        AluKind::GreaterThanEqual => if a >= b {
            1u32
        } else {
            0u32
        },
        AluKind::LessThanEqual => if a <= b {
            1u32
        } else {
            0u32
        },
    }
}

/// A binary operation on 24-bit words yields a 24-bit word.
pub proof fn lemma_alu_wf(k: AluKind, a: u32, b: u32)
    requires
        word_wf(a),
        word_wf(b),
        !alu_fault(k, b),
    ensures
        word_wf(spec_alu(k, a, b)),
{
    match k {
        AluKind::Divide => {
            assert((a as int / b as int) <= a as int) by (nonlinear_arith)
                requires
                    b >= 1,
                    a >= 0,
            ;
        },
        AluKind::Modulo => {
            assert(0 <= a as int % b as int && (a as int % b as int) < b as int) by (nonlinear_arith)
                requires
                    b >= 1,
            ;
        },
        AluKind::And => {
            assert((a & b) < 0x1000000) by (bit_vector)
                requires
                    a < 0x1000000,
                    b < 0x1000000,
            ;
        },
        AluKind::Or => {
            assert((a | b) < 0x1000000) by (bit_vector)
                requires
                    a < 0x1000000,
                    b < 0x1000000,
            ;
        },
        _ => {},
    }
}

/// The effect of one arithmetic or comparison instruction: resolve both
/// source operands, fault on division or modulo by zero or on an unwritable
/// destination, else store the truncated result.
pub open spec fn spec_arith(
    m: VmModel,
    d: Register,
    a: Register,
    b: Register,
    k: AluKind,
) -> ExecOutcome {
    match spec_read_operand(m, a) {
        Err(e) => ExecOutcome::Fault(e),
        Ok(va) => match spec_read_operand(m, b) {
            Err(e) => ExecOutcome::Fault(e),
            Ok(vb) => if alu_fault(k, vb) {
                ExecOutcome::Fault(Error::ArithmeticFault)
            } else if !spec_write_ok(m, d) {
                ExecOutcome::Fault(spec_write_err(m, d))
            } else {
                ExecOutcome::Stepped(spec_write_operand(m, d, spec_alu(k, va, vb)))
            },
        },
    }
}

/// The word `LoadLow` leaves in its target: the low 12 bits replaced by the
/// immediate's low 12 bits, the high 12 bits preserved.
pub open spec fn load_low_word(w: u32, imm: u16) -> u32 {
    ((w as int / 4096) * 4096 + (imm as int % 4096)) as u32
}

/// The word `LoadHigh` leaves in its target: the high 12 bits replaced by
/// the immediate's low 12 bits, the low 12 bits preserved.
pub open spec fn load_high_word(w: u32, imm: u16) -> u32 {
    ((imm as int % 4096) * 4096 + (w as int % 4096)) as u32
}

/// The effect of `LoadLow`/`LoadHigh`: a read-modify-write of the operand's
/// location.
pub open spec fn spec_load(m: VmModel, r: Register, imm: u16, high: bool) -> ExecOutcome {
    match spec_read_operand(m, r) {
        Err(e) => ExecOutcome::Fault(e),
        Ok(w) => ExecOutcome::Stepped(
            spec_write_operand(
                m,
                r,
                if high {
                    load_high_word(w, imm)
                } else {
                    load_low_word(w, imm)
                },
            ),
        ),
    }
}

/// The raster successor of the coordinate the instruction pointer holds:
/// one column right, or column 0 of the next row past the last column.
pub open spec fn spec_successor(m: VmModel) -> (int, int) {
    let x = addr_x(m.ip());
    let y = addr_y(m.ip());
    if x + 1 < m.program.width {
        (x + 1, y)
    } else {
        (0, y + 1)
    }
}

/// The effect of `Jump` and `Call` (and their conditional variants once the
/// condition is known taken): the target must resolve to a program
/// coordinate; `Call` additionally pushes the pre-jump successor — which
/// must be expressible as an address — onto the call/return stack.
pub open spec fn spec_jump(m: VmModel, t: Register, and_link: bool) -> ExecOutcome {
    match spec_read_operand(m, t) {
        Err(e) => ExecOutcome::Fault(e),
        Ok(w) => if !m.program.in_bounds(addr_x(w), addr_y(w)) {
            ExecOutcome::Fault(Error::AddressOutOfBounds)
        } else if !and_link {
            ExecOutcome::Jumped(VmModel { regs: m.regs.update(31, w), ..m })
        } else {
            let sp = spec_successor(m);
            if sp.1 > 4095 {
                ExecOutcome::Fault(Error::AddressOutOfBounds)
            } else {
                ExecOutcome::Jumped(
                    VmModel {
                        regs: m.regs.update(31, w),
                        stack: m.stack.push((addr_word(sp.0, sp.1)) as u32),
                        ..m
                    },
                )
            }
        },
    }
}

/// The effect of `Alloc`: reserve `size` cells of the output grid —
/// materialising it, zero-filled and shaped like the program grid, if absent
/// — starting at the next free raster index, and store the base address.
/// Faults when no free cell remains or the reservation would pass the
/// output's capacity.
pub open spec fn spec_alloc(m: VmModel, size_op: Register, dst: Register) -> ExecOutcome {
    match spec_read_operand(m, size_op) {
        Err(e) => ExecOutcome::Fault(e),
        Ok(size) => {
            let cap = m.program.width * m.program.height;
            if m.alloc_next == cap || m.alloc_next + size > cap {
                ExecOutcome::Fault(Error::AddressOutOfBounds)
            } else if !spec_write_ok(m, dst) {
                ExecOutcome::Fault(spec_write_err(m, dst))
            } else {
                let bx = m.alloc_next as int % m.program.width as int;
                let by = m.alloc_next as int / m.program.width as int;
                let out = match m.output {
                    Some(g) => g,
                    None => GridModel::zeroed(m.program.width, m.program.height),
                };
                let m2 = spec_write_operand(m, dst, (addr_word(bx, by)) as u32);
                ExecOutcome::Stepped(
                    VmModel {
                        output: Some(out),
                        alloc_next: (m.alloc_next + size) as nat,
                        ..m2
                    },
                )
            }
        },
    }
}

/// A grid with `len` cells copied from raster index `src` to raster index
/// `dst`, as if through a snapshot of the source range.
pub open spec fn grid_copy(g: GridModel, dst: int, src: int, len: int) -> GridModel {
    GridModel {
        cells: Seq::new(
            g.cells.len(),
            |i: int|
                if dst <= i < dst + len {
                    g.cells[src + (i - dst)]
                } else {
                    g.cells[i]
                },
        ),
        ..g
    }
}

/// The effect of `MemCopy`: the first two operands resolve to words read as
/// the destination and source addresses, the third to the count of
/// consecutive raster cells to copy within the program grid. Faults when
/// either base address or either range leaves the grid.
pub open spec fn spec_memcopy(m: VmModel, d: Register, s: Register, l: Register) -> ExecOutcome {
    match spec_read_operand(m, d) {
        Err(e) => ExecOutcome::Fault(e),
        Ok(wd) => match spec_read_operand(m, s) {
            Err(e) => ExecOutcome::Fault(e),
            Ok(ws) => match spec_read_operand(m, l) {
                Err(e) => ExecOutcome::Fault(e),
                Ok(len) => if !m.program.in_bounds(addr_x(wd), addr_y(wd))
                    || !m.program.in_bounds(addr_x(ws), addr_y(ws)) {
                    ExecOutcome::Fault(Error::AddressOutOfBounds)
                } else {
                    let di = m.program.index_of(addr_x(wd), addr_y(wd));
                    let si = m.program.index_of(addr_x(ws), addr_y(ws));
                    if di + len > m.program.cells.len() || si + len > m.program.cells.len() {
                        ExecOutcome::Fault(Error::AddressOutOfBounds)
                    } else {
                        ExecOutcome::Stepped(
                            VmModel { program: grid_copy(m.program, di, si, len as int), ..m },
                        )
                    }
                },
            },
        },
    }
}

/// The effect of one decoded instruction on the machine's state.
#[verifier::opaque]
pub open spec fn spec_exec(m: VmModel, instr: Instruction) -> ExecOutcome {
    match instr {
        Instruction::LoadLow(r, imm) => spec_load(m, r, imm, false),
        Instruction::LoadHigh(r, imm) => spec_load(m, r, imm, true),
        Instruction::Move(d, s) => match spec_read_operand(m, s) {
            Err(e) => ExecOutcome::Fault(e),
            Ok(v) => if !spec_write_ok(m, d) {
                ExecOutcome::Fault(spec_write_err(m, d))
            } else {
                ExecOutcome::Stepped(spec_write_operand(m, d, v))
            },
        },
        Instruction::Add(d, a, b) => spec_arith(m, d, a, b, AluKind::Add),
        Instruction::Subtract(d, a, b) => spec_arith(m, d, a, b, AluKind::Subtract),
        Instruction::Multiply(d, a, b) => spec_arith(m, d, a, b, AluKind::Multiply),
        Instruction::Divide(d, a, b) => spec_arith(m, d, a, b, AluKind::Divide),
        Instruction::Modulo(d, a, b) => spec_arith(m, d, a, b, AluKind::Modulo),
        Instruction::And(d, a, b) => spec_arith(m, d, a, b, AluKind::And),
        Instruction::Or(d, a, b) => spec_arith(m, d, a, b, AluKind::Or),
        Instruction::Equal(d, a, b) => spec_arith(m, d, a, b, AluKind::Equal),
        Instruction::NotEqual(d, a, b) => spec_arith(m, d, a, b, AluKind::NotEqual),
        Instruction::GreaterThan(d, a, b) => spec_arith(m, d, a, b, AluKind::GreaterThan),
        Instruction::LessThan(d, a, b) => spec_arith(m, d, a, b, AluKind::LessThan),
        Instruction::GreaterThanEqual(d, a, b) => spec_arith(m, d, a, b, AluKind::GreaterThanEqual),
        Instruction::LessThanEqual(d, a, b) => spec_arith(m, d, a, b, AluKind::LessThanEqual),
        Instruction::Alloc(s, d) => spec_alloc(m, s, d),
        Instruction::MemCopy(d, s, l) => spec_memcopy(m, d, s, l),
        Instruction::CurrAddress(d) => if !spec_write_ok(m, d) {
            ExecOutcome::Fault(spec_write_err(m, d))
        } else {
            ExecOutcome::Stepped(spec_write_operand(m, d, m.ip()))
        },
        Instruction::Jump(t) => spec_jump(m, t, false),
        Instruction::JumpIf(c, t) => match spec_read_operand(m, c) {
            Err(e) => ExecOutcome::Fault(e),
            Ok(v) => if v != 0 {
                spec_jump(m, t, false)
            } else {
                ExecOutcome::Stepped(m)
            },
        },
        Instruction::Call(t) => spec_jump(m, t, true),
        Instruction::CallIf(c, t) => match spec_read_operand(m, c) {
            Err(e) => ExecOutcome::Fault(e),
            Ok(v) => if v != 0 {
                spec_jump(m, t, true)
            } else {
                ExecOutcome::Stepped(m)
            },
        },
        Instruction::Return => if m.stack.len() == 0 {
            ExecOutcome::Fault(Error::StackUnderflow)
        } else {
            ExecOutcome::Jumped(
                VmModel { regs: m.regs.update(31, m.stack.last()), stack: m.stack.drop_last(), ..m },
            )
        },
        Instruction::Push(r) => match spec_read_operand(m, r) {
            Err(e) => ExecOutcome::Fault(e),
            Ok(v) => ExecOutcome::Stepped(VmModel { stack: m.stack.push(v), ..m }),
        },
        Instruction::Pop(r) => if m.stack.len() == 0 {
            ExecOutcome::Fault(Error::StackUnderflow)
        } else if !spec_write_ok(m, r) {
            ExecOutcome::Fault(spec_write_err(m, r))
        } else {
            ExecOutcome::Stepped(
                VmModel { stack: m.stack.drop_last(), ..spec_write_operand(m, r, m.stack.last()) },
            )
        },
        Instruction::Halt => ExecOutcome::Stopped(m),
    }
}

/// The pointer advance after a fall-through instruction: the raster
/// successor of whatever coordinate register 31 now holds. When the
/// successor row cannot be expressed as an address — only possible at the
/// last cell of a 4096-row grid — the machine halts, exactly as the fetch
/// at that coordinate would have.
pub open spec fn spec_advance(m: VmModel) -> StepOutcome {
    let sp = spec_successor(m);
    if sp.1 <= 4095 {
        StepOutcome::Next(VmModel { regs: m.regs.update(31, (addr_word(sp.0, sp.1)) as u32), ..m })
    } else {
        StepOutcome::Done(m)
    }
}

/// One whole machine cycle. A fetch outside the program grid halts the
/// machine without error: the designed end of a program without `Halt`.
#[verifier::opaque]
pub open spec fn spec_step(m: VmModel) -> StepOutcome {
    let x = addr_x(m.ip());
    let y = addr_y(m.ip());
    if !m.program.in_bounds(x, y) {
        StepOutcome::Done(m)
    } else {
        match spec_exec(m, spec_decode(m.program.word_at(x, y))) {
            ExecOutcome::Fault(e) => StepOutcome::Fail(e),
            ExecOutcome::Stopped(m2) => StepOutcome::Done(m2),
            ExecOutcome::Jumped(m2) => StepOutcome::Next(m2),
            ExecOutcome::Stepped(m2) => spec_advance(m2),
        }
    }
}

/// The machine's state after `n` cycles from `m`; halting and failing
/// absorb.
pub open spec fn spec_run(m: VmModel, n: nat) -> StepOutcome
    decreases n,
{
    if n == 0 {
        StepOutcome::Next(m)
    } else {
        match spec_step(m) {
            StepOutcome::Next(m2) => spec_run(m2, (n - 1) as nat),
            StepOutcome::Done(m2) => StepOutcome::Done(m2),
            StepOutcome::Fail(e) => StepOutcome::Fail(e),
        }
    }
}

/// Extending a run by one cycle: after `n` cycles reaching `m`, the outcome
/// of `n + 1` cycles is the outcome of one more step from `m`.
pub proof fn lemma_spec_run_extend(m0: VmModel, n: nat, m: VmModel)
    requires
        spec_run(m0, n) == StepOutcome::Next(m),
    ensures
        spec_run(m0, n + 1) == spec_step(m),
    decreases n,
{
    if n == 0 {
        reveal_with_fuel(spec_run, 2);
        assert(m0 == m);
        match spec_step(m) {
            StepOutcome::Next(m2) => {
                assert(spec_run(m0, 1) == StepOutcome::Next(m2));
            },
            StepOutcome::Done(m2) => {
                assert(spec_run(m0, 1) == StepOutcome::Done(m2));
            },
            StepOutcome::Fail(e) => {
                assert(spec_run(m0, 1) == StepOutcome::Fail(e));
            },
        }
    } else {
        match spec_step(m0) {
            StepOutcome::Next(m1) => {
                lemma_spec_run_extend(m1, (n - 1) as nat, m);
            },
            StepOutcome::Done(_) => {},
            StepOutcome::Fail(_) => {},
        }
    }
}


/// Whether the machine is still running after a cycle.
#[derive(Clone, Copy, Debug, PartialEq, Eq, Structural)]
pub enum Status {
    Running,
    Halted,
}

/// How an instruction left control flow: fall through to the raster
/// advance, already redirected, or stopped.
#[derive(Clone, Copy, Debug, PartialEq, Eq, Structural)]
pub enum Control {
    Advance,
    Redirect,
    Stop,
}

/// The model an optional grid presents.
pub open spec fn grid_opt_view(g: Option<RasterMemory>) -> Option<GridModel> {
    match g {
        Some(m) => Some(m@),
        None => None,
    }
}

/// Whether either caller-supplied grid exceeds 4096 cells a side.
pub open spec fn inputs_oversized(p: GridModel, i: Option<GridModel>) -> bool {
    ||| !p.within_limits()
    ||| match i {
        Some(g) => !g.within_limits(),
        None => false,
    }
}

/// One running machine: the three grids, the register file, the
/// call/return stack and the output allocation cursor.
pub struct Vm {
    /// The program grid: read-write, and the instruction stream.
    pub program: RasterMemory,
    /// The optional input grid.
    pub input: Option<RasterMemory>,
    /// The output grid, absent until `Alloc` materialises it.
    pub output: Option<RasterMemory>,
    /// The register file; register 31 is the instruction pointer.
    pub registers: RegisterFile,
    /// The call/return stack.
    pub stack: Vec<u32>,
    /// How many output cells have been reserved by `Alloc`.
    pub alloc_next: usize,
}

impl View for Vm {
    type V = VmModel;

    open spec fn view(&self) -> VmModel {
        VmModel {
            program: self.program@,
            input: grid_opt_view(self.input),
            output: grid_opt_view(self.output),
            regs: self.registers@,
            stack: self.stack@,
            alloc_next: self.alloc_next as nat,
        }
    }
}

impl Vm {
    /// A well-formed machine matches its model's invariant.
    pub open spec fn wf(self) -> bool {
        self@.wf()
    }

    /// A machine ready to run: the caller's grids, zeroed registers (so the
    /// instruction pointer starts at `(0, 0)`), an empty stack, and no
    /// output grid. Rejects a program or input grid over 4096 cells a side
    /// before anything executes.
    pub fn new(program: RasterMemory, input: Option<RasterMemory>) -> (r: Result<Vm, Error>)
        requires
            program.wf(),
            match input {
                Some(g) => g.wf(),
                None => true,
            },
        ensures
            match r {
                Ok(vm) => {
                    &&& !inputs_oversized(program@, grid_opt_view(input))
                    &&& vm.wf()
                    &&& vm@ == init_model(program@, grid_opt_view(input))
                },
                Err(e) => {
                    &&& e == Error::OversizedImage
                    &&& inputs_oversized(program@, grid_opt_view(input))
                },
            },
    {
        if program.width() > 4096 || program.height() > 4096 {
            return Err(Error::OversizedImage);
        }
        match &input {
            Some(g) => if g.width() > 4096 || g.height() > 4096 {
                return Err(Error::OversizedImage);
            },
            None => (),
        }
        let vm = Vm {
            program,
            input,
            output: None,
            registers: RegisterFile::new(),
            stack: Vec::new(),
            alloc_next: 0,
        };
        proof {
            assert(vm@ =~= init_model(program@, grid_opt_view(input)));
            assert(vm@.wf());
        }
        Ok(vm)
    }

    /// Resolves an operand for reading.
    fn read_operand(&self, op: Register) -> (r: Result<u32, Error>)
        requires
            self.wf(),
        ensures
            r == spec_read_operand(self@, op),
            r is Ok ==> word_wf(r->Ok_0),
    {
        if op.value >= 32 {
            return Err(Error::InvalidRegister);
        }
        let w = match self.registers.read(op.value) {
            Ok(w) => w,
            Err(e) => return Err(e),
        };
        if !op.deref {
            Ok(w)
        } else {
            let (x, y) = crate::word::to_address(w);
            self.program.get(x, y)
        }
    }

    /// Checks that an operand names a writable location, without writing.
    fn check_write(&self, op: Register) -> (r: Result<(), Error>)
        requires
            self.wf(),
        ensures
            r is Ok <==> spec_write_ok(self@, op),
            r is Err ==> r->Err_0 == spec_write_err(self@, op),
    {
        if op.value >= 32 {
            return Err(Error::InvalidRegister);
        }
        if op.deref {
            let w = match self.registers.read(op.value) {
                Ok(w) => w,
                Err(e) => return Err(e),
            };
            let (x, y) = crate::word::to_address(w);
            if x < self.program.width() && y < self.program.height() {
                Ok(())
            } else {
                Err(Error::AddressOutOfBounds)
            }
        } else {
            Ok(())
        }
    }

    /// Stores a word through an operand already known writable.
    fn write_operand(&mut self, op: Register, w: u32)
        requires
            old(self).wf(),
            word_wf(w),
            spec_write_ok(old(self)@, op),
        ensures
            final(self).wf(),
            final(self)@ == spec_write_operand(old(self)@, op, w),
    {
        if !op.deref {
            let _ = self.registers.write(op.value, w);
            proof {
                assert(self@ =~= spec_write_operand(old(self)@, op, w));
            }
        } else {
            let a = match self.registers.read(op.value) {
                Ok(a) => a,
                Err(_) => return,
            };
            let (x, y) = crate::word::to_address(a);
            let _ = self.program.set(x, y, w);
            proof {
                assert(self@ =~= spec_write_operand(old(self)@, op, w));
            }
        }
    }

    /// One arithmetic or comparison instruction.
    fn exec_arith(&mut self, d: Register, a: Register, b: Register, k: AluKind) -> (r: Result<
        (),
        Error,
    >)
        requires
            old(self).wf(),
        ensures
            final(self).wf(),
            match spec_arith(old(self)@, d, a, b, k) {
                ExecOutcome::Stepped(m) => r == Ok::<(), Error>(()) && final(self)@ == m,
                ExecOutcome::Fault(e) => r == Err::<(), Error>(e) && final(self)@ == old(self)@,
                _ => false,
            },
    {
        let va = match self.read_operand(a) {
            Ok(v) => v,
            Err(e) => return Err(e),
        };
        let vb = match self.read_operand(b) {
            Ok(v) => v,
            Err(e) => return Err(e),
        };
        if (k == AluKind::Divide || k == AluKind::Modulo) && vb == 0 {
            return Err(Error::ArithmeticFault);
        }
        match self.check_write(d) {
            Ok(()) => (),
            Err(e) => return Err(e),
        }
        let v = alu(k, va, vb);
        self.write_operand(d, v);
        Ok(())
    }

    /// One `LoadLow` or `LoadHigh` instruction: a read-modify-write of the
    /// operand's location.
    fn exec_load(&mut self, r: Register, imm: u16, high: bool) -> (res: Result<(), Error>)
        requires
            old(self).wf(),
        ensures
            final(self).wf(),
            match spec_load(old(self)@, r, imm, high) {
                ExecOutcome::Stepped(m) => res == Ok::<(), Error>(()) && final(self)@ == m,
                ExecOutcome::Fault(e) => res == Err::<(), Error>(e) && final(self)@ == old(self)@,
                _ => false,
            },
    {
        let w = match self.read_operand(r) {
            Ok(w) => w,
            Err(e) => return Err(e),
        };
        let v: u32 = if high {
            (imm as u32 % 4096) * 4096 + w % 4096
        } else {
            (w / 4096) * 4096 + imm as u32 % 4096
        };
        proof {
            assert(spec_write_ok(self@, r));
        }
        self.write_operand(r, v);
        Ok(())
    }

    /// One `Move` instruction.
    fn exec_move(&mut self, d: Register, s: Register) -> (r: Result<(), Error>)
        requires
            old(self).wf(),
        ensures
            final(self).wf(),
            match spec_exec(old(self)@, Instruction::Move(d, s)) {
                ExecOutcome::Stepped(m) => r == Ok::<(), Error>(()) && final(self)@ == m,
                ExecOutcome::Fault(e) => r == Err::<(), Error>(e) && final(self)@ == old(self)@,
                _ => false,
            },
    {
        proof {
            reveal(spec_exec);
        }
        let v = match self.read_operand(s) {
            Ok(v) => v,
            Err(e) => return Err(e),
        };
        match self.check_write(d) {
            Ok(()) => (),
            Err(e) => return Err(e),
        }
        self.write_operand(d, v);
        Ok(())
    }

    /// One `Jump` or `Call` (or a taken conditional variant): check the
    /// target, and for a call push the pre-jump successor address.
    fn exec_jump(&mut self, t: Register, and_link: bool) -> (r: Result<(), Error>)
        requires
            old(self).wf(),
        ensures
            final(self).wf(),
            match spec_jump(old(self)@, t, and_link) {
                ExecOutcome::Jumped(m) => r == Ok::<(), Error>(()) && final(self)@ == m,
                ExecOutcome::Fault(e) => r == Err::<(), Error>(e) && final(self)@ == old(self)@,
                _ => false,
            },
    {
        let w = match self.read_operand(t) {
            Ok(w) => w,
            Err(e) => return Err(e),
        };
        let (x, y) = crate::word::to_address(w);
        if !(x < self.program.width() && y < self.program.height()) {
            return Err(Error::AddressOutOfBounds);
        }
        if and_link {
            let (ix, iy) = self.registers.read_ip();
            proof {
                assert(self@.program.within_limits());
            }
            let (sx, sy): (u32, u32) = if ix + 1 < self.program.width() {
                (ix + 1, iy)
            } else {
                (0, iy + 1)
            };
            if sy > 4095 {
                return Err(Error::AddressOutOfBounds);
            }
            let succ = crate::word::from_address(sx, sy);
            self.stack.push(succ);
            let _ = self.registers.write(31, w);
            proof {
                assert(self@ =~= (VmModel {
                    regs: old(self)@.regs.update(31, w),
                    stack: old(self)@.stack.push(succ),
                    ..old(self)@
                }));
            }
        } else {
            let _ = self.registers.write(31, w);
            proof {
                assert(self@ =~= (VmModel { regs: old(self)@.regs.update(31, w), ..old(self)@ }));
            }
        }
        Ok(())
    }

    /// One `Alloc` instruction: reserve cells of the output grid,
    /// materialising it if absent, and store the base address.
    fn exec_alloc(&mut self, size_op: Register, dst: Register) -> (r: Result<(), Error>)
        requires
            old(self).wf(),
        ensures
            final(self).wf(),
            match spec_alloc(old(self)@, size_op, dst) {
                ExecOutcome::Stepped(m) => r == Ok::<(), Error>(()) && final(self)@ == m,
                ExecOutcome::Fault(e) => r == Err::<(), Error>(e) && final(self)@ == old(self)@,
                _ => false,
            },
    {
        let size = match self.read_operand(size_op) {
            Ok(v) => v,
            Err(e) => return Err(e),
        };
        let w = self.program.width();
        let h = self.program.height();
        proof {
            assert(w <= 4096 && h <= 4096);
            assert(w as int * h as int <= 4096 * 4096) by (nonlinear_arith)
                requires
                    w <= 4096,
                    h <= 4096,
            ;
        }
        let cap: usize = w as usize * h as usize;
        if self.alloc_next == cap || size as usize > cap - self.alloc_next {
            return Err(Error::AddressOutOfBounds);
        }
        match self.check_write(dst) {
            Ok(()) => (),
            Err(e) => return Err(e),
        }
        if self.output.is_none() {
            self.output = Some(RasterMemory::zeroed(w, h));
        }
        proof {
            assert(w >= 1) by (nonlinear_arith)
                requires
                    (self.alloc_next as int) < w as int * h as int,
                    self.alloc_next >= 0,
            ;
            assert((self.alloc_next as int / w as int) < h as int) by (nonlinear_arith)
                requires
                    w >= 1,
                    (self.alloc_next as int) < w as int * h as int,
            ;
        }
        let bx = (self.alloc_next % w as usize) as u32;
        let by = (self.alloc_next / w as usize) as u32;
        let base = crate::word::from_address(bx, by);
        self.write_operand(dst, base);
        self.alloc_next = self.alloc_next + size as usize;
        proof {
            match spec_alloc(old(self)@, size_op, dst) {
                ExecOutcome::Stepped(m) => {
                    assert(self@ =~= m);
                },
                _ => (),
            }
        }
        Ok(())
    }

    /// One `MemCopy` instruction: copy consecutive raster cells within the
    /// program grid, as if through a snapshot of the source range.
    #[verifier::loop_isolation(false)]
    fn exec_memcopy(&mut self, d: Register, s: Register, l: Register) -> (r: Result<(), Error>)
        requires
            old(self).wf(),
        ensures
            final(self).wf(),
            match spec_memcopy(old(self)@, d, s, l) {
                ExecOutcome::Stepped(m) => r == Ok::<(), Error>(()) && final(self)@ == m,
                ExecOutcome::Fault(e) => r == Err::<(), Error>(e) && final(self)@ == old(self)@,
                _ => false,
            },
    {
        let wd = match self.read_operand(d) {
            Ok(v) => v,
            Err(e) => return Err(e),
        };
        let ws = match self.read_operand(s) {
            Ok(v) => v,
            Err(e) => return Err(e),
        };
        let wl = match self.read_operand(l) {
            Ok(v) => v,
            Err(e) => return Err(e),
        };
        let (dx, dy) = crate::word::to_address(wd);
        let (sx, sy) = crate::word::to_address(ws);
        let w = self.program.width();
        let h = self.program.height();
        if !(dx < w && dy < h) || !(sx < w && sy < h) {
            return Err(Error::AddressOutOfBounds);
        }
        proof {
            self.program@.lemma_index_of(dx as int, dy as int);
            self.program@.lemma_index_of(sx as int, sy as int);
            assert(w as int * h as int <= 4096 * 4096) by (nonlinear_arith)
                requires
                    w <= 4096,
                    h <= 4096,
            ;
            assert(self@.program.cells.len() == w as int * h as int);
        }
        let cap: usize = w as usize * h as usize;
        let di: usize = dy as usize * w as usize + dx as usize;
        let si: usize = sy as usize * w as usize + sx as usize;
        let len: usize = wl as usize;
        if len > cap - di || len > cap - si {
            return Err(Error::AddressOutOfBounds);
        }
        // Snapshot the source range first, so overlapping ranges behave as
        // if copied atomically.
        let mut temp: Vec<u32> = Vec::new();
        let mut i: usize = 0;
        while i < len
            invariant
                self == old(self),
                self.wf(),
                i <= len,
                si + len <= self@.program.cells.len(),
                di + len <= self@.program.cells.len(),
                temp@.len() == i,
                forall|j: int| 0 <= j < i ==> #[trigger] temp@[j] == self@.program.cells[si + j],
            decreases len - i,
        {
            let v = self.program.word_at_index(si + i);
            temp.push(v);
            i += 1;
        }
        let mut i: usize = 0;
        while i < len
            invariant
                i <= len,
                si + len <= old(self)@.program.cells.len(),
                di + len <= old(self)@.program.cells.len(),
                temp@.len() == len,
                forall|j: int| 0 <= j < len ==> #[trigger] temp@[j] == old(self)@.program.cells[si + j],
                self@.program.cells.len() == old(self)@.program.cells.len(),
                self@.program.width == old(self)@.program.width,
                self@.program.height == old(self)@.program.height,
                self@.input == old(self)@.input,
                self@.output == old(self)@.output,
                self@.regs == old(self)@.regs,
                self@.stack == old(self)@.stack,
                self@.alloc_next == old(self)@.alloc_next,
                self.wf(),
                forall|j: int|
                    di <= j < di + i ==> #[trigger] self@.program.cells[j] == old(self)@.program.cells[si + (j - di)],
                forall|j: int|
                    0 <= j < self@.program.cells.len() && !(di <= j < di + i)
                        ==> #[trigger] self@.program.cells[j] == old(self)@.program.cells[j],
            decreases len - i,
        {
            let v = temp[i];
            self.program.set_index(di + i, v);
            i += 1;
        }
        proof {
            assert(self@.program =~= grid_copy(old(self)@.program, di as int, si as int, len as int));
            assert(self@ =~= (VmModel {
                program: grid_copy(old(self)@.program, di as int, si as int, len as int),
                ..old(self)@
            }));
        }
        Ok(())
    }

    /// Applies one decoded instruction: the execute stage. On any fault the
    /// machine is left exactly as it was.
    #[verifier::rlimit(100)]
    pub fn execute_instruction(&mut self, instr: Instruction) -> (r: Result<Control, Error>)
        requires
            old(self).wf(),
        ensures
            final(self).wf(),
            match spec_exec(old(self)@, instr) {
                ExecOutcome::Stepped(m) => r == Ok::<Control, Error>(Control::Advance) && final(self)@ == m,
                ExecOutcome::Jumped(m) => r == Ok::<Control, Error>(Control::Redirect) && final(self)@ == m,
                ExecOutcome::Stopped(m) => r == Ok::<Control, Error>(Control::Stop) && final(self)@
                    == m,
                ExecOutcome::Fault(e) => r == Err::<Control, Error>(e) && final(self)@ == old(self)@,
            },
    {
        proof {
            reveal(spec_exec);
        }
        match instr {
            Instruction::LoadLow(r, imm) => match self.exec_load(r, imm, false) {
                Ok(()) => Ok(Control::Advance),
                Err(e) => Err(e),
            },
            Instruction::LoadHigh(r, imm) => match self.exec_load(r, imm, true) {
                Ok(()) => Ok(Control::Advance),
                Err(e) => Err(e),
            },
            Instruction::Move(d, s) => match self.exec_move(d, s) {
                Ok(()) => Ok(Control::Advance),
                Err(e) => Err(e),
            },
            Instruction::Add(d, a, b) => match self.exec_arith(d, a, b, AluKind::Add) {
                Ok(()) => Ok(Control::Advance),
                Err(e) => Err(e),
            },
            Instruction::Subtract(d, a, b) => match self.exec_arith(d, a, b, AluKind::Subtract) {
                Ok(()) => Ok(Control::Advance),
                Err(e) => Err(e),
            },
            Instruction::Multiply(d, a, b) => match self.exec_arith(d, a, b, AluKind::Multiply) {
                Ok(()) => Ok(Control::Advance),
                Err(e) => Err(e),
            },
            Instruction::Divide(d, a, b) => match self.exec_arith(d, a, b, AluKind::Divide) {
                Ok(()) => Ok(Control::Advance),
                Err(e) => Err(e),
            },
            Instruction::Modulo(d, a, b) => match self.exec_arith(d, a, b, AluKind::Modulo) {
                Ok(()) => Ok(Control::Advance),
                Err(e) => Err(e),
            },
            Instruction::And(d, a, b) => match self.exec_arith(d, a, b, AluKind::And) {
                Ok(()) => Ok(Control::Advance),
                Err(e) => Err(e),
            },
            Instruction::Or(d, a, b) => match self.exec_arith(d, a, b, AluKind::Or) {
                Ok(()) => Ok(Control::Advance),
                Err(e) => Err(e),
            },
            Instruction::Equal(d, a, b) => match self.exec_arith(d, a, b, AluKind::Equal) {
                Ok(()) => Ok(Control::Advance),
                Err(e) => Err(e),
            },
            Instruction::NotEqual(d, a, b) => match self.exec_arith(d, a, b, AluKind::NotEqual) {
                Ok(()) => Ok(Control::Advance),
                Err(e) => Err(e),
            },
            Instruction::GreaterThan(d, a, b) => match self.exec_arith(
                d,
                a,
                b,
                AluKind::GreaterThan,
            ) {
                Ok(()) => Ok(Control::Advance),
                Err(e) => Err(e),
            },
            Instruction::LessThan(d, a, b) => match self.exec_arith(d, a, b, AluKind::LessThan) {
                Ok(()) => Ok(Control::Advance),
                Err(e) => Err(e),
            },
            Instruction::GreaterThanEqual(d, a, b) => match self.exec_arith(
                d,
                a,
                b,
                AluKind::GreaterThanEqual,
            ) {
                Ok(()) => Ok(Control::Advance),
                Err(e) => Err(e),
            },
            Instruction::LessThanEqual(d, a, b) => match self.exec_arith(
                d,
                a,
                b,
                AluKind::LessThanEqual,
            ) {
                Ok(()) => Ok(Control::Advance),
                Err(e) => Err(e),
            },
            Instruction::Alloc(s, d) => match self.exec_alloc(s, d) {
                Ok(()) => Ok(Control::Advance),
                Err(e) => Err(e),
            },
            Instruction::MemCopy(d, s, l) => match self.exec_memcopy(d, s, l) {
                Ok(()) => Ok(Control::Advance),
                Err(e) => Err(e),
            },
            Instruction::CurrAddress(d) => {
                match self.check_write(d) {
                    Ok(()) => (),
                    Err(e) => return Err(e),
                }
                let ip = match self.registers.read(31) {
                    Ok(w) => w,
                    Err(e) => return Err(e),
                };
                self.write_operand(d, ip);
                Ok(Control::Advance)
            },
            Instruction::Jump(t) => match self.exec_jump(t, false) {
                Ok(()) => Ok(Control::Redirect),
                Err(e) => Err(e),
            },
            Instruction::JumpIf(c, t) => {
                let v = match self.read_operand(c) {
                    Ok(v) => v,
                    Err(e) => return Err(e),
                };
                if v != 0 {
                    match self.exec_jump(t, false) {
                        Ok(()) => Ok(Control::Redirect),
                        Err(e) => Err(e),
                    }
                } else {
                    Ok(Control::Advance)
                }
            },
            Instruction::Call(t) => match self.exec_jump(t, true) {
                Ok(()) => Ok(Control::Redirect),
                Err(e) => Err(e),
            },
            Instruction::CallIf(c, t) => {
                let v = match self.read_operand(c) {
                    Ok(v) => v,
                    Err(e) => return Err(e),
                };
                if v != 0 {
                    match self.exec_jump(t, true) {
                        Ok(()) => Ok(Control::Redirect),
                        Err(e) => Err(e),
                    }
                } else {
                    Ok(Control::Advance)
                }
            },
            Instruction::Return => {
                if self.stack.len() == 0 {
                    return Err(Error::StackUnderflow);
                }
                let w = match self.stack.pop() {
                    Some(w) => w,
                    None => return Err(Error::StackUnderflow),
                };
                let _ = self.registers.write(31, w);
                proof {
                    assert(self@ =~= (VmModel {
                        regs: old(self)@.regs.update(31, old(self)@.stack.last()),
                        stack: old(self)@.stack.drop_last(),
                        ..old(self)@
                    }));
                }
                Ok(Control::Redirect)
            },
            Instruction::Push(r) => {
                let v = match self.read_operand(r) {
                    Ok(v) => v,
                    Err(e) => return Err(e),
                };
                self.stack.push(v);
                proof {
                    assert(self@ =~= (VmModel { stack: old(self)@.stack.push(v), ..old(self)@ }));
                }
                Ok(Control::Advance)
            },
            Instruction::Pop(r) => {
                if self.stack.len() == 0 {
                    return Err(Error::StackUnderflow);
                }
                match self.check_write(r) {
                    Ok(()) => (),
                    Err(e) => return Err(e),
                }
                let v = match self.stack.pop() {
                    Some(w) => w,
                    None => return Err(Error::StackUnderflow),
                };
                self.write_operand(r, v);
                proof {
                    assert(self@ =~= (VmModel {
                        stack: old(self)@.stack.drop_last(),
                        ..spec_write_operand(old(self)@, r, old(self)@.stack.last())
                    }));
                }
                Ok(Control::Advance)
            },
            Instruction::Halt => Ok(Control::Stop),
        }
    }

    /// Advances the instruction pointer to the raster successor of the
    /// coordinate it holds, halting if the successor row cannot be
    /// expressed as an address.
    fn advance(&mut self) -> (r: Status)
        requires
            old(self).wf(),
        ensures
            final(self).wf(),
            match spec_advance(old(self)@) {
                StepOutcome::Next(m) => r == Status::Running && final(self)@ == m,
                StepOutcome::Done(m) => r == Status::Halted && final(self)@ == m,
                StepOutcome::Fail(_) => false,
            },
    {
        let (ix, iy) = self.registers.read_ip();
        let (sx, sy): (u32, u32) = if ix + 1 < self.program.width() {
            (ix + 1, iy)
        } else {
            (0, iy + 1)
        };
        if sy <= 4095 {
            self.registers.write_ip(sx, sy);
            proof {
                assert(self@ =~= (VmModel {
                    regs: old(self)@.regs.update(
                        31,
                        (addr_word(spec_successor(old(self)@).0, spec_successor(old(self)@).1))
                            as u32,
                    ),
                    ..old(self)@
                }));
            }
            Status::Running
        } else {
            Status::Halted
        }
    }

    /// One whole machine cycle: fetch the word under the instruction
    /// pointer (halting cleanly if it has left the program grid), decode,
    /// execute, and advance in raster order unless control was redirected.
    /// On any fault the machine is left exactly as it was.
    pub fn step(&mut self) -> (r: Result<Status, Error>)
        requires
            old(self).wf(),
        ensures
            final(self).wf(),
            match spec_step(old(self)@) {
                StepOutcome::Next(m) => r == Ok::<Status, Error>(Status::Running) && final(self)@
                    == m,
                StepOutcome::Done(m) => r == Ok::<Status, Error>(Status::Halted) && final(self)@
                    == m,
                StepOutcome::Fail(e) => r == Err::<Status, Error>(e) && final(self)@ == old(self)@,
            },
    {
        proof {
            reveal(spec_step);
        }
        let (x, y) = self.registers.read_ip();
        let w = match self.program.get_checked(x, y) {
            Some(w) => w,
            None => return Ok(Status::Halted),
        };
        let instr = crate::instruction::decode_word(w);
        match self.execute_instruction(instr) {
            Ok(Control::Advance) => Ok(self.advance()),
            Ok(Control::Redirect) => Ok(Status::Running),
            Ok(Control::Stop) => Ok(Status::Halted),
            Err(e) => Err(e),
        }
    }
}

/// The scalar result of one binary operation, truncated to 24 bits;
/// comparisons yield 1 or 0. Callers rule division and modulo by zero out
/// beforehand.
pub fn alu(k: AluKind, a: u32, b: u32) -> (r: u32)
    requires
        word_wf(a),
        word_wf(b),
        !alu_fault(k, b),
    ensures
        r == spec_alu(k, a, b),
        word_wf(r),
{
    proof {
        lemma_alu_wf(k, a, b);
    }
    match k {
        AluKind::Add => (a + b) % 0x1000000,
        AluKind::Subtract => if a >= b {
            a - b
        } else {
            a + 0x1000000 - b
        },
        AluKind::Multiply => {
            proof {
                assert((a as int * b as int) < 0x1000000000000) by (nonlinear_arith)
                    requires
                        a < 0x1000000,
                        b < 0x1000000,
                ;
            }
            ((a as u64 * b as u64) % 0x1000000) as u32
        },
        AluKind::Divide => a / b,
        AluKind::Modulo => a % b,
        AluKind::And => a & b,
        AluKind::Or => a | b,
        AluKind::Equal => if a == b {
            1
        } else {
            0
        },
        AluKind::NotEqual => if a != b {
            1
        } else {
            0
        },
        AluKind::GreaterThan => if a > b {
            1
        } else {
            0
        },
        AluKind::LessThan => if a < b {
            1
        } else {
            0
        },
        AluKind::GreaterThanEqual => if a >= b {
            1
        } else {
            0
        },
        AluKind::LessThanEqual => if a <= b {
            1
        } else {
            0
        },
    }
}

/// Runs a program: builds a machine over the caller's grids — rejecting
/// oversized ones before anything executes — and cycles it until it halts,
/// faults, or exhausts the caller's step budget. On success the caller
/// receives the (possibly mutated) program grid and the output grid, if any
/// instruction materialised one; on failure, only the error. The result is
/// exactly a halting prefix of the spec-level run. The instruction set
/// admits unbounded loops, so every run carries a step bound; a patient
/// caller passes `u64::MAX`.
#[verifier::loop_isolation(false)]
pub fn run_program(program: RasterMemory, input: Option<RasterMemory>, max_steps: u64) -> (r:
    Result<(RasterMemory, Option<RasterMemory>), Error>)
    requires
        program.wf(),
        match input {
            Some(g) => g.wf(),
            None => true,
        },
    ensures
        inputs_oversized(program@, grid_opt_view(input)) ==> r == Err::<
            (RasterMemory, Option<RasterMemory>),
            Error,
        >(Error::OversizedImage),
        !inputs_oversized(program@, grid_opt_view(input)) ==> match r {
            Ok((p, out)) => {
                &&& p.wf()
                &&& p@.within_limits()
                &&& match out {
                    Some(o) => o.wf() && o@.within_limits(),
                    None => true,
                }
                &&& exists|n: nat|
                    {
                        &&& n <= max_steps
                        &&& #[trigger] spec_run(init_model(program@, grid_opt_view(input)), n)
                            is Done
                        &&& p@ == spec_run(
                            init_model(program@, grid_opt_view(input)),
                            n,
                        )->Done_0.program
                        &&& grid_opt_view(out) == spec_run(
                            init_model(program@, grid_opt_view(input)),
                            n,
                        )->Done_0.output
                    }
            },
            Err(e) => {
                ||| {
                    &&& e == Error::StepLimitExceeded
                    &&& spec_run(init_model(program@, grid_opt_view(input)), max_steps as nat)
                        is Next
                }
                ||| exists|n: nat|
                    n <= max_steps && #[trigger] spec_run(
                        init_model(program@, grid_opt_view(input)),
                        n,
                    ) == StepOutcome::Fail(e)
            },
        },
{
    let ghost init = init_model(program@, grid_opt_view(input));
    let mut vm = match Vm::new(program, input) {
        Ok(vm) => vm,
        Err(e) => return Err(e),
    };
    let mut steps: u64 = 0;
    proof {
        assert(spec_run(init, 0) == StepOutcome::Next(vm@));
    }
    while steps < max_steps
        invariant
            vm.wf(),
            steps <= max_steps,
            spec_run(init, steps as nat) == StepOutcome::Next(vm@),
        decreases max_steps - steps,
    {
        let ghost pre = vm@;
        let res = vm.step();
        proof {
            lemma_spec_run_extend(init, steps as nat, pre);
        }
        steps = steps + 1;
        match res {
            Ok(Status::Running) => (),
            Ok(Status::Halted) => {
                return Ok((vm.program, vm.output));
            },
            Err(e) => {
                return Err(e);
            },
        }
    }
    Err(Error::StepLimitExceeded)
}


/// A register-to-register move (no dereference on either operand) copies
/// the source word into the destination register exactly, and repeating it
/// changes nothing more: executing the same move on the resulting state
/// yields that state again.
pub proof fn lemma_move_direct_copy(m: VmModel, dst: usize, src: usize)
    requires
        m.wf(),
        dst < 32,
        src < 32,
    ensures
        ({
            let mv = Instruction::Move(
                Register { deref: false, value: dst },
                Register { deref: false, value: src },
            );
            let m2 = VmModel { regs: m.regs.update(dst as int, m.regs[src as int]), ..m };
            &&& spec_exec(m, mv) == ExecOutcome::Stepped(m2)
            &&& m2.regs[dst as int] == m.regs[src as int]
            &&& spec_exec(m2, mv) == ExecOutcome::Stepped(m2)
        }),
{
    reveal(spec_exec);
    let m2 = VmModel { regs: m.regs.update(dst as int, m.regs[src as int]), ..m };
    assert(m2.regs.update(dst as int, m2.regs[src as int]) =~= m2.regs);
    assert((VmModel { regs: m2.regs.update(dst as int, m2.regs[src as int]), ..m2 }) =~= m2);
}

/// `Add(r, a, b)` on direct register operands, executed as one whole
/// machine cycle, leaves `(value(a) + value(b)) mod 2^24` in register `r`,
/// and never faults. `r` is not 31: that register is the instruction
/// pointer, which the cycle's own advance rewrites.
pub proof fn lemma_add_semantics(m: VmModel, r: usize, a: usize, b: usize)
    requires
        m.wf(),
        r < 31,
        a < 32,
        b < 32,
        m.program.in_bounds(addr_x(m.ip()), addr_y(m.ip())),
        spec_decode(m.program.word_at(addr_x(m.ip()), addr_y(m.ip()))) == Instruction::Add(
            Register { deref: false, value: r },
            Register { deref: false, value: a },
            Register { deref: false, value: b },
        ),
    ensures
        match spec_step(m) {
            StepOutcome::Next(m2) => m2.regs[r as int] == (m.regs[a as int] + m.regs[b as int])
                % 0x1000000,
            StepOutcome::Done(m2) => m2.regs[r as int] == (m.regs[a as int] + m.regs[b as int])
                % 0x1000000,
            StepOutcome::Fail(_) => false,
        },
{
    reveal(spec_step);
    reveal(spec_exec);
}

/// `Divide` and `Modulo` with a zero second operand always fault with
/// `ArithmeticFault`, whatever the destination operand. Together with the
/// engine's step contract — a faulting cycle leaves the machine exactly as
/// it was — the destination keeps its prior word.
pub proof fn lemma_divide_by_zero_faults(m: VmModel, d: Register, a: Register, b: Register)
    requires
        m.wf(),
        spec_read_operand(m, a) is Ok,
        spec_read_operand(m, b) == Ok::<u32, Error>(0u32),
    ensures
        spec_exec(m, Instruction::Divide(d, a, b)) == ExecOutcome::Fault(Error::ArithmeticFault),
        spec_exec(m, Instruction::Modulo(d, a, b)) == ExecOutcome::Fault(Error::ArithmeticFault),
{
    reveal(spec_exec);
}

/// `Return` against an empty call/return stack faults with
/// `StackUnderflow`.
pub proof fn lemma_return_underflow(m: VmModel)
    requires
        m.stack.len() == 0,
    ensures
        spec_exec(m, Instruction::Return) == ExecOutcome::Fault(Error::StackUnderflow),
{
    reveal(spec_exec);
}

/// A `Call` pushes the address of the word position right after it, and an
/// immediate `Return` at the call's target pops that address back into the
/// instruction pointer: control resumes exactly at the word following the
/// original call, with the stack and the program grid as they were.
pub proof fn lemma_call_then_return(m: VmModel, t: Register)
    requires
        m.wf(),
        m.program.in_bounds(addr_x(m.ip()), addr_y(m.ip())),
        spec_decode(m.program.word_at(addr_x(m.ip()), addr_y(m.ip()))) == Instruction::Call(t),
        spec_read_operand(m, t) is Ok,
        m.program.in_bounds(
            addr_x(spec_read_operand(m, t)->Ok_0),
            addr_y(spec_read_operand(m, t)->Ok_0),
        ),
        spec_successor(m).1 <= 4095,
        spec_decode(
            m.program.word_at(
                addr_x(spec_read_operand(m, t)->Ok_0),
                addr_y(spec_read_operand(m, t)->Ok_0),
            ),
        ) == Instruction::Return,
    ensures
        match spec_step(m) {
            StepOutcome::Next(m1) => match spec_step(m1) {
                StepOutcome::Next(m2) => {
                    &&& addr_x(m2.ip()) == spec_successor(m).0
                    &&& addr_y(m2.ip()) == spec_successor(m).1
                    &&& m2.stack == m.stack
                    &&& m2.program == m.program
                },
                _ => false,
            },
            _ => false,
        },
{
    reveal(spec_step);
    reveal(spec_exec);
    let sp = spec_successor(m);
    crate::word::lemma_address_round_trip(sp.0, sp.1);
    let succw = (addr_word(sp.0, sp.1)) as u32;
    assert(m.stack.push(succw).drop_last() =~= m.stack);
}

/// The instruction pointer advances in strict raster order: one column
/// right while columns remain, else to column 0 of the next row; a next row
/// that cannot be expressed as an address halts the machine.
pub proof fn lemma_advance_raster_order(m: VmModel)
    requires
        m.wf(),
    ensures
        addr_x(m.ip()) + 1 < m.program.width ==> spec_advance(m) == StepOutcome::Next(
            VmModel {
                regs: m.regs.update(
                    31,
                    (addr_word(addr_x(m.ip()) + 1, addr_y(m.ip()))) as u32,
                ),
                ..m
            },
        ),
        addr_x(m.ip()) + 1 >= m.program.width && addr_y(m.ip()) + 1 <= 4095 ==> spec_advance(m)
            == StepOutcome::Next(
            VmModel {
                regs: m.regs.update(31, (addr_word(0, addr_y(m.ip()) + 1)) as u32),
                ..m
            },
        ),
        addr_x(m.ip()) + 1 >= m.program.width && addr_y(m.ip()) + 1 > 4095 ==> spec_advance(m)
            == StepOutcome::Done(m),
{
}

/// A fetch past the program grid halts the machine without error, leaving
/// the state untouched: the designed end of a program that runs off the
/// raster.
pub proof fn lemma_fetch_past_end_halts(m: VmModel)
    requires
        !m.program.in_bounds(addr_x(m.ip()), addr_y(m.ip())),
    ensures
        spec_step(m) == StepOutcome::Done(m),
{
    reveal(spec_step);
}

/// Whether an error is one a running machine can itself raise.
pub open spec fn is_machine_fault(e: Error) -> bool {
    ||| e == Error::InvalidRegister
    ||| e == Error::AddressOutOfBounds
    ||| e == Error::StackUnderflow
    ||| e == Error::ArithmeticFault
}

/// Operand resolution fails only with the machine's own fault kinds.
proof fn lemma_read_operand_fault(m: VmModel, op: Register)
    ensures
        match spec_read_operand(m, op) {
            Err(e) => is_machine_fault(e),
            Ok(_) => true,
        },
        is_machine_fault(spec_write_err(m, op)),
{
}

/// Applying one instruction faults only with the machine's own fault kinds.
proof fn lemma_exec_faults_are_machine_faults(m: VmModel, instr: Instruction)
    ensures
        match spec_exec(m, instr) {
            ExecOutcome::Fault(e) => is_machine_fault(e),
            _ => true,
        },
{
    reveal(spec_exec);
    match instr {
        Instruction::LoadLow(r, _) => lemma_read_operand_fault(m, r),
        Instruction::LoadHigh(r, _) => lemma_read_operand_fault(m, r),
        Instruction::Move(d, a) => {
            lemma_read_operand_fault(m, d);
            lemma_read_operand_fault(m, a);
        },
        Instruction::Add(d, a, b) | Instruction::Subtract(d, a, b) | Instruction::Multiply(
            d,
            a,
            b,
        ) | Instruction::Divide(d, a, b) | Instruction::Modulo(d, a, b) | Instruction::And(
            d,
            a,
            b,
        ) | Instruction::Or(d, a, b) | Instruction::Equal(d, a, b) | Instruction::NotEqual(
            d,
            a,
            b,
        ) | Instruction::GreaterThan(d, a, b) | Instruction::LessThan(
            d,
            a,
            b,
        ) | Instruction::GreaterThanEqual(d, a, b) | Instruction::LessThanEqual(d, a, b) => {
            lemma_read_operand_fault(m, d);
            lemma_read_operand_fault(m, a);
            lemma_read_operand_fault(m, b);
        },
        Instruction::Alloc(sz, d) => {
            lemma_read_operand_fault(m, sz);
            lemma_read_operand_fault(m, d);
        },
        Instruction::MemCopy(d, sr, l) => {
            lemma_read_operand_fault(m, d);
            lemma_read_operand_fault(m, sr);
            lemma_read_operand_fault(m, l);
        },
        Instruction::CurrAddress(d) => lemma_read_operand_fault(m, d),
        Instruction::Jump(t) | Instruction::Call(t) => lemma_read_operand_fault(m, t),
        Instruction::JumpIf(c, t) | Instruction::CallIf(c, t) => {
            lemma_read_operand_fault(m, c);
            lemma_read_operand_fault(m, t);
        },
        Instruction::Return => (),
        Instruction::Push(r) | Instruction::Pop(r) => lemma_read_operand_fault(m, r),
        Instruction::Halt => (),
    }
}

/// A cycle can only fail with the machine's own fault kinds: an invalid
/// register, an address outside the program grid, an empty-stack pop, or a
/// division by zero. The pre-run rejection of oversized grids, the image
/// boundary's rejection of undecodable bytes, and the caller's step budget
/// never surface from a running machine.
pub proof fn lemma_step_faults_are_machine_faults(m: VmModel)
    ensures
        match spec_step(m) {
            StepOutcome::Fail(e) => is_machine_fault(e),
            _ => true,
        },
{
    reveal(spec_step);
    let x = addr_x(m.ip());
    let y = addr_y(m.ip());
    if m.program.in_bounds(x, y) {
        lemma_exec_faults_are_machine_faults(m, spec_decode(m.program.word_at(x, y)));
    }
}

/// A whole run can only fail with the machine's own fault kinds, however
/// many cycles it takes.
pub proof fn lemma_run_faults_are_machine_faults(m: VmModel, n: nat)
    ensures
        match spec_run(m, n) {
            StepOutcome::Fail(e) => is_machine_fault(e),
            _ => true,
        },
    decreases n,
{
    if n > 0 {
        lemma_step_faults_are_machine_faults(m);
        match spec_step(m) {
            StepOutcome::Next(m2) => lemma_run_faults_are_machine_faults(m2, (n - 1) as nat),
            _ => (),
        }
    }
}

/// A machine starts with every register zeroed, so its instruction pointer
/// names `(0, 0)`.
pub proof fn lemma_init_ip(p: GridModel, i: Option<GridModel>)
    ensures
        addr_x(init_model(p, i).ip()) == 0,
        addr_y(init_model(p, i).ip()) == 0,
{
}

} // verus!
