//! Properties of the instruction set that follow from the step function.

use vstd::prelude::*;
use crate::machine::{MEMORY_SIZE, binary_spec, decodes, step_result, MachineView, Outcome, Fault};
use crate::word::{
    add_spec, and_spec, is_register, mod_spec, mult_spec, not_spec, or_spec, register_index,
    valid_operand, value_of,
};

verus! {

/// On words, `add` and `mult` are addition and multiplication modulo 32768,
/// `mod` is the remainder, `and`/`or` are the plain bitwise operations, and
/// `not` is the fifteen-bit complement.
pub proof fn lemma_word_arithmetic(a: u16, b: u16)
    requires
        a < 32768,
        b < 32768,
    ensures
        add_spec(a, b) == (a + b) % 32768,
        mult_spec(a, b) == (a * b) % 32768,
        b != 0 ==> mod_spec(a, b) == a % b,
        and_spec(a, b) == a & b,
        or_spec(a, b) == a | b,
        not_spec(a) == 32767 - a,
        not_spec(a) == a ^ 0x7FFF,
{
    assert(a & b < 32768) by (bit_vector)
        requires
            a < 32768,
            b < 32768,
    ;
    assert(a | b < 32768) by (bit_vector)
        requires
            a < 32768,
            b < 32768,
    ;
    assert(a ^ 0x7FFF == 32767 - a) by (bit_vector)
        requires
            a < 32768,
    ;
}

/// A two-operand instruction with valid operands and a register destination
/// writes the operation's result to that register and moves to the next
/// instruction.
pub proof fn lemma_binary_step(m: MachineView, op: u16)
    requires
        decodes(m, op),
        op == 4 || op == 5 || (9 <= op && op <= 13),
        is_register(m.mem[m.pc + 1]),
        valid_operand(m.mem[m.pc + 2]),
        valid_operand(m.mem[m.pc + 3]),
        op == 11 ==> value_of(m.regs, m.mem[m.pc + 3]) != 0,
    ensures
        step_result(m).1 == Outcome::Running,
        step_result(m).0.regs == m.regs.update(
            register_index(m.mem[m.pc + 1]),
            binary_spec(op, value_of(m.regs, m.mem[m.pc + 2]), value_of(m.regs, m.mem[m.pc + 3])),
        ),
        step_result(m).0.pc == m.pc + 4,
        step_result(m).0.mem == m.mem,
        step_result(m).0.stack == m.stack,
{
}

/// `eq` and `gt` only ever produce 0 or 1.
pub proof fn lemma_comparisons_are_boolean(x: u16, y: u16)
    ensures
        binary_spec(4, x, y) == 0 || binary_spec(4, x, y) == 1,
        binary_spec(5, x, y) == 0 || binary_spec(5, x, y) == 1,
        binary_spec(4, x, y) == 1 <==> x == y,
        binary_spec(5, x, y) == 1 <==> x > y,
{
}

/// `jt` jumps exactly when its tested value is nonzero and `jf` exactly when
/// it is zero; otherwise both fall through to the next instruction.
pub proof fn lemma_conditional_jumps(m: MachineView, op: u16)
    requires
        decodes(m, op),
        op == 7 || op == 8,
        valid_operand(m.mem[m.pc + 1]),
        valid_operand(m.mem[m.pc + 2]),
    ensures
        step_result(m).1 == Outcome::Running,
        ({
            let tested = value_of(m.regs, m.mem[m.pc + 1]);
            let taken = if op == 7 { tested != 0 } else { tested == 0 };
            step_result(m).0 == MachineView {
                pc: if taken { value_of(m.regs, m.mem[m.pc + 2]) as int } else { m.pc + 3 },
                ..m
            }
        }),
{
}

/// A `call` followed at its target by `ret` comes back to the word after
/// the call's operand, with the stack as it was.
pub proof fn lemma_call_then_ret(m: MachineView)
    requires
        m.mem.len() == MEMORY_SIZE,
        decodes(m, 17),
        valid_operand(m.mem[m.pc + 1]),
        decodes(step_result(m).0, 18),
    ensures
        step_result(m).1 == Outcome::Running,
        step_result(step_result(m).0).1 == Outcome::Running,
        step_result(step_result(m).0).0.pc == m.pc + 2,
        step_result(step_result(m).0).0.stack =~= m.stack,
        step_result(step_result(m).0).0.regs == m.regs,
        step_result(step_result(m).0).0.mem == m.mem,
{
}

/// `ret` on an empty stack halts and leaves the machine as it was; `pop` on
/// an empty stack is a fatal error.
pub proof fn lemma_empty_stack(m: MachineView)
    requires
        m.stack.len() == 0,
    ensures
        decodes(m, 18) ==> step_result(m) == (m, Outcome::Halted),
        decodes(m, 3) ==> step_result(m) == (m, Outcome::Fatal(Fault::EmptyStack { pc: m.pc as usize })),
{
}

} // verus!
