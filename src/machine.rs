//! Machine state and the fetch-decode-execute step.

use vstd::prelude::*;
use crate::input::Input;
use crate::word::{
    add_words, and_words, mod_words, mult_words, not_word, or_words,
    add_spec, and_spec, eq_spec, gt_spec, is_register, mod_spec, mult_spec, not_spec, or_spec,
    register_index, valid_operand, value_of, LAST_REGISTER, REGISTER_BASE, REGISTER_COUNT,
};

verus! {

/// Number of memory cells: one per literal address.
pub const MEMORY_SIZE: usize = 32768;

/// Number of operand words each opcode takes.
pub open spec fn arity(op: u16) -> nat {
    if op == 0 || op == 18 || op == 21 {
        0
    } else if op == 2 || op == 3 || op == 6 || op == 17 || op == 19 || op == 20 {
        1
    } else if op == 1 || op == 7 || op == 8 || op == 14 || op == 15 || op == 16 {
        2
    } else {
        3
    }
}

/// Highest defined opcode.
pub const LAST_OPCODE: u16 = 21;

/// Why the machine cannot go on. `pc` is the address of the offending
/// instruction's opcode.
#[derive(Clone, Copy, Debug, PartialEq, Eq, Structural)]
pub enum Fault {
    /// The instruction does not fit in memory.
    PastEnd { pc: usize },
    InvalidOpcode { pc: usize, op: u16 },
    /// A value operand above the last register address.
    InvalidOperand { pc: usize, value: u16 },
    /// A destination that is not a register.
    InvalidDestination { pc: usize, addr: u16 },
    /// `pop` with nothing on the stack.
    EmptyStack { pc: usize },
    /// `mod` with a zero divisor.
    DivisionByZero { pc: usize },
    /// A memory read or write beyond the last cell.
    AddressOutOfRange { pc: usize, addr: u16 },
}

/// What one step did.
#[derive(Clone, Copy, Debug, PartialEq, Eq, Structural)]
pub enum Outcome {
    /// The instruction completed; execution continues.
    Running,
    /// The instruction completed and emitted this character code.
    Output(u8),
    /// `halt`, or `ret` with an empty stack. The state is left as it was.
    Halted,
    /// `in` found the queue empty: the state is left as it was, so the same
    /// instruction runs again once a line has been fed.
    AwaitingInput,
    /// A fatal machine error. The state is left as it was.
    Fatal(Fault),
}

/// The machine as mathematics: what every contract below speaks of.
pub struct MachineView {
    pub regs: Seq<u16>,
    pub mem: Seq<u16>,
    pub stack: Seq<u16>,
    pub pc: int,
    pub input: Seq<u16>,
    pub interrupt: bool,
}

pub open spec fn with_pc(m: MachineView, pc: int) -> MachineView {
    MachineView { pc: pc, ..m }
}

pub open spec fn with_reg(m: MachineView, dst: u16, v: u16) -> MachineView {
    MachineView { regs: m.regs.update(register_index(dst), v), ..m }
}

/// Writes `v` to destination `dst`, or fails when `dst` is no register.
pub open spec fn assign(m: MachineView, next: MachineView, dst: u16, v: u16) -> (MachineView, Outcome) {
    if !is_register(dst) {
        (m, Outcome::Fatal(Fault::InvalidDestination { pc: m.pc as usize, addr: dst }))
    } else {
        (with_reg(next, dst, v), Outcome::Running)
    }
}

pub open spec fn bad_operand(m: MachineView, x: u16) -> (MachineView, Outcome) {
    (m, Outcome::Fatal(Fault::InvalidOperand { pc: m.pc as usize, value: x }))
}

/// Result of the two-operand arithmetic and comparison opcodes.
pub open spec fn binary_spec(op: u16, x: u16, y: u16) -> u16 {
    if op == 4 {
        eq_spec(x, y)
    } else if op == 5 {
        gt_spec(x, y)
    } else if op == 9 {
        add_spec(x, y)
    } else if op == 10 {
        mult_spec(x, y)
    } else if op == 11 {
        mod_spec(x, y)
    } else if op == 12 {
        and_spec(x, y)
    } else {
        or_spec(x, y)
    }
}

pub open spec fn is_binary(op: u16) -> bool {
    op == 4 || op == 5 || (9 <= op && op <= 13)
}

/// One step of the machine: the state after it and what it did.
pub open spec fn step_result(m: MachineView) -> (MachineView, Outcome) {
    let pc = m.pc;
    if !(0 <= pc < m.mem.len()) {
        (m, Outcome::Fatal(Fault::PastEnd { pc: pc as usize }))
    } else if m.mem[pc] > LAST_OPCODE {
        (m, Outcome::Fatal(Fault::InvalidOpcode { pc: pc as usize, op: m.mem[pc] }))
    } else if pc + 1 + arity(m.mem[pc]) > m.mem.len() {
        (m, Outcome::Fatal(Fault::PastEnd { pc: pc as usize }))
    } else {
        let op = m.mem[pc];
        let a = m.mem[pc + 1];
        let b = m.mem[pc + 2];
        let c = m.mem[pc + 3];
        let next = with_pc(m, pc + 1 + arity(op));
        if op == 0 {
            (m, Outcome::Halted)
        } else if op == 1 || op == 14 {
            if !valid_operand(b) {
                bad_operand(m, b)
            } else {
                let v = value_of(m.regs, b);
                assign(m, next, a, if op == 1 { v } else { not_spec(v) })
            }
        } else if op == 2 {
            if !valid_operand(a) {
                bad_operand(m, a)
            } else {
                (MachineView { stack: m.stack.push(value_of(m.regs, a)), ..next }, Outcome::Running)
            }
        } else if op == 3 {
            if m.stack.len() == 0 {
                (m, Outcome::Fatal(Fault::EmptyStack { pc: pc as usize }))
            } else {
                assign(
                    m,
                    MachineView { stack: m.stack.drop_last(), ..next },
                    a,
                    m.stack.last(),
                )
            }
        } else if is_binary(op) {
            if !valid_operand(b) {
                bad_operand(m, b)
            } else if !valid_operand(c) {
                bad_operand(m, c)
            } else if op == 11 && value_of(m.regs, c) == 0 {
                (m, Outcome::Fatal(Fault::DivisionByZero { pc: pc as usize }))
            } else {
                assign(m, next, a, binary_spec(op, value_of(m.regs, b), value_of(m.regs, c)))
            }
        } else if op == 6 {
            if !valid_operand(a) {
                bad_operand(m, a)
            } else {
                (with_pc(m, value_of(m.regs, a) as int), Outcome::Running)
            }
        } else if op == 7 || op == 8 {
            if !valid_operand(a) {
                bad_operand(m, a)
            } else if !valid_operand(b) {
                bad_operand(m, b)
            } else if (value_of(m.regs, a) != 0) == (op == 7) {
                (with_pc(m, value_of(m.regs, b) as int), Outcome::Running)
            } else {
                (next, Outcome::Running)
            }
        } else if op == 15 {
            if !valid_operand(b) {
                bad_operand(m, b)
            } else if value_of(m.regs, b) >= m.mem.len() {
                (m, Outcome::Fatal(Fault::AddressOutOfRange { pc: pc as usize, addr: value_of(m.regs, b) }))
            } else {
                assign(m, next, a, m.mem[value_of(m.regs, b) as int])
            }
        } else if op == 16 {
            if !valid_operand(a) {
                bad_operand(m, a)
            } else if !valid_operand(b) {
                bad_operand(m, b)
            } else if value_of(m.regs, a) >= m.mem.len() {
                (m, Outcome::Fatal(Fault::AddressOutOfRange { pc: pc as usize, addr: value_of(m.regs, a) }))
            } else {
                (
                    MachineView { mem: m.mem.update(value_of(m.regs, a) as int, value_of(m.regs, b)), ..next },
                    Outcome::Running,
                )
            }
        } else if op == 17 {
            if !valid_operand(a) {
                bad_operand(m, a)
            } else {
                (
                    MachineView { stack: m.stack.push((pc + 2) as u16), pc: value_of(m.regs, a) as int, ..m },
                    Outcome::Running,
                )
            }
        } else if op == 18 {
            if m.stack.len() == 0 {
                (m, Outcome::Halted)
            } else {
                (
                    MachineView { stack: m.stack.drop_last(), pc: m.stack.last() as int, ..m },
                    Outcome::Running,
                )
            }
        } else if op == 19 {
            if !valid_operand(a) {
                bad_operand(m, a)
            } else {
                (next, Outcome::Output(value_of(m.regs, a) as u8))
            }
        } else if op == 20 {
            if m.input.len() == 0 {
                (m, Outcome::AwaitingInput)
            } else {
                assign(m, MachineView { input: m.input.drop_first(), ..next }, a, m.input[0])
            }
        } else {
            (next, Outcome::Running)
        }
    }
}

/// The machine: registers, memory, stack, program counter and input queue.
pub struct Synacor {
    pub regs: Vec<u16>,
    pub mem: Vec<u16>,
    pub stack: Vec<u16>,
    pub pc: usize,
    pub input: Input,
}

impl View for Synacor {
    type V = MachineView;

    open spec fn view(&self) -> MachineView {
        MachineView {
            regs: self.regs@,
            mem: self.mem@,
            stack: self.stack@,
            pc: self.pc as int,
            input: self.input@,
            interrupt: self.input.interrupt,
        }
    }
}

impl Synacor {
    /// Eight registers and a memory of one cell per literal address.
    pub open spec fn wf(&self) -> bool {
        self.regs@.len() == REGISTER_COUNT && self.mem@.len() == MEMORY_SIZE
    }

    /// A machine with `program` loaded from address 0, the rest of memory
    /// zero, all registers zero, an empty stack and `pc` at 0.
    pub fn new(program: Vec<u16>, input: Input) -> (r: Synacor)
        requires
            program@.len() <= MEMORY_SIZE,
        ensures
            r.wf(),
            r.regs@ == Seq::new(REGISTER_COUNT as nat, |i: int| 0u16),
            r.mem@ == program@ + Seq::new((MEMORY_SIZE - program@.len()) as nat, |i: int| 0u16),
            r.stack@ == Seq::<u16>::empty(),
            r.pc == 0,
            r.input == input,
    {
        let mut mem: Vec<u16> = Vec::new();
        let n = program.len();
        let mut i: usize = 0;
        while i < n
            invariant
                i <= n,
                n == program@.len(),
                mem@ == program@.subrange(0, i as int),
            decreases n - i,
        {
            mem.push(program[i]);
            i = i + 1;
        }
        while i < MEMORY_SIZE
            invariant
                n <= i <= MEMORY_SIZE,
                n == program@.len(),
                mem@ == program@ + Seq::new((i - n) as nat, |k: int| 0u16),
            decreases MEMORY_SIZE - i,
        {
            mem.push(0);
            i = i + 1;
            assert(mem@ =~= program@ + Seq::new((i - n) as nat, |k: int| 0u16));
        }
        let regs = vec![0u16; REGISTER_COUNT];
        assert(regs@ =~= Seq::new(REGISTER_COUNT as nat, |k: int| 0u16));
        Synacor { regs, mem, stack: Vec::new(), pc: 0, input }
    }

    /// The value an operand denotes, or `None` past the last register.
    pub fn get(&self, addr: u16) -> (r: Option<u16>)
        requires
            self.wf(),
        ensures
            r == (if valid_operand(addr) {
                Some(value_of(self.regs@, addr))
            } else {
                None::<u16>
            }),
    {
        if addr < REGISTER_BASE {
            Some(addr)
        } else if addr <= LAST_REGISTER {
            Some(self.regs[(addr - REGISTER_BASE) as usize])
        } else {
            None
        }
    }

    /// Writes `val` to the register `addr` names; returns false, and changes
    /// nothing, when `addr` is no register.
    pub fn set(&mut self, addr: u16, val: u16) -> (r: bool)
        requires
            old(self).wf(),
        ensures
            final(self).wf(),
            r == is_register(addr),
            r ==> final(self)@ == with_reg(old(self)@, addr, val),
            !r ==> final(self)@ == old(self)@,
    {
        if REGISTER_BASE <= addr && addr <= LAST_REGISTER {
            self.regs.set((addr - REGISTER_BASE) as usize, val);
            true
        } else {
            false
        }
    }

    /// The word at `pc`; `pc` moves past it.
    pub fn read(&mut self) -> (r: u16)
        requires
            old(self).wf(),
            old(self).pc < MEMORY_SIZE,
        ensures
            final(self).wf(),
            r == old(self).mem@[old(self).pc as int],
            final(self)@ == with_pc(old(self)@, old(self).pc + 1),
    {
        let r = self.mem[self.pc];
        self.pc = self.pc + 1;
        r
    }

    /// The value of the operand word at `pc`, or `None` when it is past the
    /// last register; `pc` moves past it either way.
    pub fn read_arg(&mut self) -> (r: Option<u16>)
        requires
            old(self).wf(),
            old(self).pc < MEMORY_SIZE,
        ensures
            final(self).wf(),
            r == (if valid_operand(old(self).mem@[old(self).pc as int]) {
                Some(value_of(old(self).regs@, old(self).mem@[old(self).pc as int]))
            } else {
                None::<u16>
            }),
            final(self)@ == with_pc(old(self)@, old(self).pc + 1),
    {
        let raw = self.read();
        self.get(raw)
    }
}


/// Number of operand words `op` takes.
pub fn operand_count(op: u16) -> (r: usize)
    ensures
        r == arity(op),
        r <= 3,
{
    if op == 0 || op == 18 || op == 21 {
        0
    } else if op == 2 || op == 3 || op == 6 || op == 17 || op == 19 || op == 20 {
        1
    } else if op == 1 || op == 7 || op == 8 || op == 14 || op == 15 || op == 16 {
        2
    } else {
        3
    }
}

/// The two-operand arithmetic and comparison opcodes.
pub fn binary_op(op: u16, x: u16, y: u16) -> (r: u16)
    requires
        is_binary(op),
        op == 11 ==> y != 0,
    ensures
        r == binary_spec(op, x, y),
{
    if op == 4 {
        if x == y { 1 } else { 0 }
    } else if op == 5 {
        if x > y { 1 } else { 0 }
    } else if op == 9 {
        add_words(x, y)
    } else if op == 10 {
        mult_words(x, y)
    } else if op == 11 {
        mod_words(x, y)
    } else if op == 12 {
        and_words(x, y)
    } else {
        or_words(x, y)
    }
}

/// The opcode at `pc` is `op`, it is defined, and its operands fit in memory.
pub open spec fn decodes(m: MachineView, op: u16) -> bool {
    &&& 0 <= m.pc < m.mem.len()
    &&& m.mem[m.pc] == op
    &&& op <= LAST_OPCODE
    &&& m.pc + 1 + arity(op) <= m.mem.len()
}

impl Synacor {
    /// Puts `pc` back to `start` and reports `f`.
    fn fail(&mut self, start: usize, f: Fault) -> (r: Outcome)
        requires
            old(self).wf(),
        ensures
            final(self).wf(),
            final(self)@ == with_pc(old(self)@, start as int),
            r == Outcome::Fatal(f),
    {
        self.pc = start;
        Outcome::Fatal(f)
    }

    /// Writes `v` to `dst`, or puts `pc` back to `start` when `dst` is no register.
    fn assign_to(&mut self, start: usize, dst: u16, v: u16) -> (r: Outcome)
        requires
            old(self).wf(),
        ensures
            final(self).wf(),
            (final(self)@, r) == assign(with_pc(old(self)@, start as int), old(self)@, dst, v),
    {
        if self.set(dst, v) {
            Outcome::Running
        } else {
            self.fail(start, Fault::InvalidDestination { pc: start, addr: dst })
        }
    }

    /// `set`, `not`, the two-operand opcodes and `rmem`: a raw destination
    /// followed by one or two values.
    fn exec_assigning(&mut self, op: u16) -> (r: Outcome)
        requires
            old(self).wf(),
            decodes(old(self)@, op),
            op == 1 || op == 14 || op == 15 || is_binary(op),
        ensures
            final(self).wf(),
            (final(self)@, r) == step_result(old(self)@),
    {
        let start = self.pc;
        self.pc = start + 1;
        let dst = self.read();
        let b_raw = self.mem[self.pc];
        let x = match self.read_arg() {
            Some(x) => x,
            None => {
                return self.fail(start, Fault::InvalidOperand { pc: start, value: b_raw });
            },
        };
        if op == 1 {
            self.assign_to(start, dst, x)
        } else if op == 14 {
            self.assign_to(start, dst, not_word(x))
        } else if op == 15 {
            if x as usize >= MEMORY_SIZE {
                return self.fail(start, Fault::AddressOutOfRange { pc: start, addr: x });
            }
            let v = self.mem[x as usize];
            self.assign_to(start, dst, v)
        } else {
            let c_raw = self.mem[self.pc];
            let y = match self.read_arg() {
                Some(y) => y,
                None => {
                    return self.fail(start, Fault::InvalidOperand { pc: start, value: c_raw });
                },
            };
            if op == 11 && y == 0 {
                return self.fail(start, Fault::DivisionByZero { pc: start });
            }
            let v = binary_op(op, x, y);
            self.assign_to(start, dst, v)
        }
    }

    /// `jmp`, `jt` and `jf`.
    fn exec_jump(&mut self, op: u16) -> (r: Outcome)
        requires
            old(self).wf(),
            decodes(old(self)@, op),
            6 <= op <= 8,
        ensures
            final(self).wf(),
            (final(self)@, r) == step_result(old(self)@),
    {
        let start = self.pc;
        self.pc = start + 1;
        let a_raw = self.mem[self.pc];
        let x = match self.read_arg() {
            Some(x) => x,
            None => {
                return self.fail(start, Fault::InvalidOperand { pc: start, value: a_raw });
            },
        };
        if op == 6 {
            self.pc = x as usize;
            return Outcome::Running;
        }
        let b_raw = self.mem[self.pc];
        let target = match self.read_arg() {
            Some(t) => t,
            None => {
                return self.fail(start, Fault::InvalidOperand { pc: start, value: b_raw });
            },
        };
        if (x != 0) == (op == 7) {
            self.pc = target as usize;
        }
        Outcome::Running
    }

    /// `push`, `pop`, `call` and `ret`: the opcodes that use the stack.
    fn exec_stack(&mut self, op: u16) -> (r: Outcome)
        requires
            old(self).wf(),
            decodes(old(self)@, op),
            op == 2 || op == 3 || op == 17 || op == 18,
        ensures
            final(self).wf(),
            (final(self)@, r) == step_result(old(self)@),
    {
        let start = self.pc;
        if op == 18 {
            return match self.stack.pop() {
                Some(top) => {
                    self.pc = top as usize;
                    Outcome::Running
                },
                None => Outcome::Halted,
            };
        }
        if op == 3 {
            if self.stack.len() == 0 {
                return Outcome::Fatal(Fault::EmptyStack { pc: start });
            }
            self.pc = start + 1;
            let dst = self.read();
            if !(REGISTER_BASE <= dst && dst <= LAST_REGISTER) {
                return self.fail(start, Fault::InvalidDestination { pc: start, addr: dst });
            }
            let top = self.stack.pop().unwrap();
            return self.assign_to(start, dst, top);
        }
        self.pc = start + 1;
        let a_raw = self.mem[self.pc];
        let x = match self.read_arg() {
            Some(x) => x,
            None => {
                return self.fail(start, Fault::InvalidOperand { pc: start, value: a_raw });
            },
        };
        if op == 2 {
            self.stack.push(x);
        } else {
            self.stack.push(self.pc as u16);
            self.pc = x as usize;
        }
        Outcome::Running
    }

    /// `wmem`, `out`, `in`.
    fn exec_io(&mut self, op: u16) -> (r: Outcome)
        requires
            old(self).wf(),
            decodes(old(self)@, op),
            op == 16 || op == 19 || op == 20,
        ensures
            final(self).wf(),
            (final(self)@, r) == step_result(old(self)@),
    {
        let start = self.pc;
        if op == 20 {
            let dst = self.mem[start + 1];
            if self.input.buffer.len() == 0 {
                return Outcome::AwaitingInput;
            }
            if !(REGISTER_BASE <= dst && dst <= LAST_REGISTER) {
                return Outcome::Fatal(Fault::InvalidDestination { pc: start, addr: dst });
            }
            self.pc = start + 2;
            let v = self.input.next().unwrap();
            return self.assign_to(start, dst, v);
        }
        self.pc = start + 1;
        let a_raw = self.mem[self.pc];
        let x = match self.read_arg() {
            Some(x) => x,
            None => {
                return self.fail(start, Fault::InvalidOperand { pc: start, value: a_raw });
            },
        };
        if op == 19 {
            return Outcome::Output(x as u8);
        }
        let b_raw = self.mem[self.pc];
        let y = match self.read_arg() {
            Some(y) => y,
            None => {
                return self.fail(start, Fault::InvalidOperand { pc: start, value: b_raw });
            },
        };
        if x as usize >= MEMORY_SIZE {
            return self.fail(start, Fault::AddressOutOfRange { pc: start, addr: x });
        }
        self.mem.set(x as usize, y);
        Outcome::Running
    }

    /// Executes the instruction at `pc`. On `Halted`, `AwaitingInput` and
    /// `Fatal` the state is left as it was.
    pub fn step(&mut self) -> (r: Outcome)
        requires
            old(self).wf(),
        ensures
            final(self).wf(),
            (final(self)@, r) == step_result(old(self)@),
    {
        let start = self.pc;
        if start >= MEMORY_SIZE {
            return Outcome::Fatal(Fault::PastEnd { pc: start });
        }
        let op = self.mem[start];
        if op > LAST_OPCODE {
            return Outcome::Fatal(Fault::InvalidOpcode { pc: start, op });
        }
        if start + 1 + operand_count(op) > MEMORY_SIZE {
            return Outcome::Fatal(Fault::PastEnd { pc: start });
        }
        if op == 0 {
            Outcome::Halted
        } else if op == 1 || op == 14 || op == 15 || op == 4 || op == 5 || (9 <= op && op <= 13) {
            self.exec_assigning(op)
        } else if 6 <= op && op <= 8 {
            self.exec_jump(op)
        } else if op == 2 || op == 3 || op == 17 || op == 18 {
            self.exec_stack(op)
        } else if op == 16 || op == 19 || op == 20 {
            self.exec_io(op)
        } else {
            self.pc = start + 1;
            Outcome::Running
        }
    }
}


/// Runs up to `fuel` steps from `m`: the state reached, the characters
/// emitted on the way, and the outcome of the last step (`Running` when the
/// fuel ran out first).
pub open spec fn run_result(m: MachineView, fuel: nat) -> (MachineView, Seq<u8>, Outcome)
    decreases fuel,
{
    if fuel == 0 {
        (m, Seq::empty(), Outcome::Running)
    } else {
        let (next, o) = step_result(m);
        match o {
            Outcome::Running => run_result(next, (fuel - 1) as nat),
            Outcome::Output(c) => {
                let (last, out, r) = run_result(next, (fuel - 1) as nat);
                (last, seq![c] + out, r)
            },
            _ => (next, Seq::empty(), o),
        }
    }
}

/// The little-endian words of a program image.
pub open spec fn image_words(bytes: Seq<u8>) -> Seq<u16> {
    Seq::new(bytes.len() / 2, |i: int| (bytes[2 * i] + 256 * bytes[2 * i + 1]) as u16)
}

/// Reads a program image as little-endian 16-bit words; `None` when the image
/// holds an odd number of bytes.
pub fn words_from_bytes(bytes: &[u8]) -> (r: Option<Vec<u16>>)
    ensures
        bytes@.len() % 2 == 1 <==> r is None,
        r matches Some(w) ==> w@ == image_words(bytes@),
{
    if bytes.len() % 2 == 1 {
        return None;
    }
    let len = bytes.len();
    let n = len / 2;
    let mut words: Vec<u16> = Vec::new();
    let mut i: usize = 0;
    while i < n
        invariant
            i <= n,
            2 * n == len,
            len == bytes@.len(),
            words@ == image_words(bytes@).subrange(0, i as int),
        decreases n - i,
    {
        assert(2 * i + 1 < bytes@.len());
        let lo = bytes[2 * i] as u16;
        let hi = bytes[2 * i + 1] as u16;
        let w = lo + 256 * hi;
        words.push(w);
        i = i + 1;
        assert(words@ =~= image_words(bytes@).subrange(0, i as int));
    }
    assert(words@ =~= image_words(bytes@));
    Some(words)
}

impl Synacor {
    /// Steps until an instruction halts, waits for input or fails, or until
    /// `fuel` steps have run; returns the last outcome and the characters
    /// emitted on the way.
    pub fn run(&mut self, fuel: usize) -> (r: (Outcome, Vec<u8>))
        requires
            old(self).wf(),
        ensures
            final(self).wf(),
            final(self)@ == run_result(old(self)@, fuel as nat).0,
            r.1@ == run_result(old(self)@, fuel as nat).1,
            r.0 == run_result(old(self)@, fuel as nat).2,
    {
        let mut out: Vec<u8> = Vec::new();
        let mut left: usize = fuel;
        let ghost whole = run_result(self@, fuel as nat);
        while left > 0
            invariant
                self.wf(),
                whole == run_result(old(self)@, fuel as nat),
                whole.0 == run_result(self@, left as nat).0,
                whole.1 == out@ + run_result(self@, left as nat).1,
                whole.2 == run_result(self@, left as nat).2,
            decreases left,
        {
            let ghost before = self@;
            let o = self.step();
            match o {
                Outcome::Running => {
                    left = left - 1;
                },
                Outcome::Output(c) => {
                    let ghost rest = run_result(self@, (left - 1) as nat).1;
                    assert(out@ + (seq![c] + rest) =~= out@.push(c) + rest);
                    out.push(c);
                    left = left - 1;
                },
                _ => {
                    assert(run_result(before, left as nat) == (self@, Seq::<u8>::empty(), o));
                    assert(out@ + Seq::<u8>::empty() =~= out@);
                    assert(whole == (self@, out@, o));
                    return (o, out);
                },
            }
        }
        assert(out@ + Seq::<u8>::empty() =~= out@);
        (Outcome::Running, out)
    }
}

impl Synacor {
    /// Ends an inspector session: clears the interrupt flag and nothing else.
    pub fn clear_interrupt(&mut self)
        ensures
            final(self)@ == (MachineView { interrupt: false, ..old(self)@ }),
            final(self).wf() == old(self).wf(),
    {
        self.input.interrupt = false;
    }
}

} // verus!
