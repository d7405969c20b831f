//! The disassembler: decodes the instruction at an address into its opcode,
//! raw operands and length, so that a reader can walk from one instruction
//! boundary to the next.

use vstd::prelude::*;
use crate::machine::{arity, operand_count, Synacor, LAST_OPCODE, MEMORY_SIZE};
use crate::word::{valid_operand, value_of, LAST_REGISTER, REGISTER_BASE};

verus! {

/// Words an instruction occupies: the opcode and its operands. An undefined
/// opcode counts as one word so that a reader keeps moving.
pub open spec fn instruction_len(op: u16) -> nat {
    if op <= LAST_OPCODE {
        1 + arity(op)
    } else {
        1
    }
}

/// Where a reader stands after decoding `k` instructions from `from`.
pub open spec fn walk(mem: Seq<u16>, from: int, k: nat) -> int
    decreases k,
{
    if k == 0 {
        from
    } else {
        let prev = walk(mem, from, (k - 1) as nat);
        prev + instruction_len(mem[prev])
    }
}

/// A decoded instruction.
pub struct Instruction {
    /// Address of its opcode.
    pub address: usize,
    pub opcode: u16,
    /// Its raw operand words (those that lie in memory), unresolved.
    pub args: Vec<u16>,
    /// For `out`, the character code its operand resolves to.
    pub out_char: Option<u8>,
    /// Words it occupies.
    pub len: usize,
}

/// Mnemonic of an opcode; empty for an undefined one.
pub open spec fn mnemonic_spec(op: u16) -> Seq<char> {
    if op == 0 {
        "Halt"@
    } else if op == 1 {
        "Set"@
    } else if op == 2 {
        "Push"@
    } else if op == 3 {
        "Pop"@
    } else if op == 4 {
        "Eq"@
    } else if op == 5 {
        "Gt"@
    } else if op == 6 {
        "Jmp"@
    } else if op == 7 {
        "Jt"@
    } else if op == 8 {
        "Jf"@
    } else if op == 9 {
        "Add"@
    } else if op == 10 {
        "Mult"@
    } else if op == 11 {
        "Mod"@
    } else if op == 12 {
        "And"@
    } else if op == 13 {
        "Or"@
    } else if op == 14 {
        "Not"@
    } else if op == 15 {
        "Rmem"@
    } else if op == 16 {
        "Wmem"@
    } else if op == 17 {
        "Call"@
    } else if op == 18 {
        "Ret"@
    } else if op == 19 {
        "Out"@
    } else if op == 20 {
        "In"@
    } else if op == 21 {
        "Noop"@
    } else {
        ""@
    }
}

pub fn mnemonic(op: u16) -> (r: &'static str)
    ensures
        r@ == mnemonic_spec(op),
        r.is_ascii(),
{
    if op == 0 {
        proof {
            reveal_strlit("Halt");
        }
        "Halt"
    } else if op == 1 {
        proof {
            reveal_strlit("Set");
        }
        "Set"
    } else if op == 2 {
        proof {
            reveal_strlit("Push");
        }
        "Push"
    } else if op == 3 {
        proof {
            reveal_strlit("Pop");
        }
        "Pop"
    } else if op == 4 {
        proof {
            reveal_strlit("Eq");
        }
        "Eq"
    } else if op == 5 {
        proof {
            reveal_strlit("Gt");
        }
        "Gt"
    } else if op == 6 {
        proof {
            reveal_strlit("Jmp");
        }
        "Jmp"
    } else if op == 7 {
        proof {
            reveal_strlit("Jt");
        }
        "Jt"
    } else if op == 8 {
        proof {
            reveal_strlit("Jf");
        }
        "Jf"
    } else if op == 9 {
        proof {
            reveal_strlit("Add");
        }
        "Add"
    } else if op == 10 {
        proof {
            reveal_strlit("Mult");
        }
        "Mult"
    } else if op == 11 {
        proof {
            reveal_strlit("Mod");
        }
        "Mod"
    } else if op == 12 {
        proof {
            reveal_strlit("And");
        }
        "And"
    } else if op == 13 {
        proof {
            reveal_strlit("Or");
        }
        "Or"
    } else if op == 14 {
        proof {
            reveal_strlit("Not");
        }
        "Not"
    } else if op == 15 {
        proof {
            reveal_strlit("Rmem");
        }
        "Rmem"
    } else if op == 16 {
        proof {
            reveal_strlit("Wmem");
        }
        "Wmem"
    } else if op == 17 {
        proof {
            reveal_strlit("Call");
        }
        "Call"
    } else if op == 18 {
        proof {
            reveal_strlit("Ret");
        }
        "Ret"
    } else if op == 19 {
        proof {
            reveal_strlit("Out");
        }
        "Out"
    } else if op == 20 {
        proof {
            reveal_strlit("In");
        }
        "In"
    } else if op == 21 {
        proof {
            reveal_strlit("Noop");
        }
        "Noop"
    } else {
        proof {
            reveal_strlit("");
        }
        ""
    }
}

/// The instruction at `pc + offset`: its opcode, raw operands, length and,
/// for `out`, the resolved character.
pub fn print_instruction(synacor: &Synacor, offset: usize) -> (r: Instruction)
    requires
        synacor.wf(),
        synacor.pc + offset < MEMORY_SIZE,
    ensures
        ({
            let m = synacor@;
            let at = synacor.pc + offset;
            let op = m.mem[at];
            let end = if at + instruction_len(op) <= MEMORY_SIZE {
                at + instruction_len(op)
            } else {
                MEMORY_SIZE as int
            };
            &&& r.address == at
            &&& r.opcode == op
            &&& r.len == instruction_len(op)
            &&& r.args@ == m.mem.subrange(at + 1, end)
            &&& r.out_char == (if op == 19 && at + 1 < MEMORY_SIZE && valid_operand(m.mem[at + 1]) {
                Some(value_of(m.regs, m.mem[at + 1]) as u8)
            } else {
                None::<u8>
            })
        }),
{
    let at = synacor.pc + offset;
    let op = synacor.mem[at];
    let len: usize = if op <= LAST_OPCODE { 1 + operand_count(op) } else { 1 };
    let end: usize = if at + len <= MEMORY_SIZE { at + len } else { MEMORY_SIZE };
    let mut args: Vec<u16> = Vec::new();
    let mut i: usize = at + 1;
    while i < end
        invariant
            at + 1 <= i <= end || (i == at + 1 && end <= at + 1),
            end <= MEMORY_SIZE,
            synacor.wf(),
            args@ == synacor.mem@.subrange(at + 1, i as int),
        decreases end - i,
    {
        args.push(synacor.mem[i]);
        i = i + 1;
    }
    assert(args@ =~= synacor.mem@.subrange(at + 1, end as int));
    let mut out_char: Option<u8> = None;
    if op == 19 && at + 1 < MEMORY_SIZE {
        let raw = synacor.mem[at + 1];
        match synacor.get(raw) {
            Some(v) => {
                out_char = Some(v as u8);
            },
            None => {},
        }
    }
    Instruction { address: at, opcode: op, args, out_char, len }
}

/// Decodes up to `count` consecutive instructions from `pc`, each starting
/// where the previous one ends; stops early at the end of memory.
pub fn print_instructions(synacor: &Synacor, count: usize) -> (r: Vec<Instruction>)
    requires
        synacor.wf(),
    ensures
        r@.len() <= count,
        r@.len() < count ==> walk(synacor.mem@, synacor.pc as int, r@.len()) >= MEMORY_SIZE,
        forall|k: int| 0 <= k < r@.len() ==> {
            &&& r@[k].address == walk(synacor.mem@, synacor.pc as int, k as nat)
            &&& r@[k].address < MEMORY_SIZE
            &&& r@[k].len == instruction_len(synacor.mem@[r@[k].address as int])
        },
{
    let mut r: Vec<Instruction> = Vec::new();
    let mut offset: usize = 0;
    if synacor.pc >= MEMORY_SIZE {
        return r;
    }
    while r.len() < count
        invariant
            synacor.wf(),
            synacor.pc < MEMORY_SIZE,
            r@.len() <= count,
            synacor.pc + offset < MEMORY_SIZE + 4,
            synacor.pc + offset == walk(synacor.mem@, synacor.pc as int, r@.len()),
            forall|k: int| 0 <= k < r@.len() ==> {
                &&& r@[k].address == walk(synacor.mem@, synacor.pc as int, k as nat)
            &&& r@[k].address < MEMORY_SIZE
                &&& r@[k].len == instruction_len(synacor.mem@[r@[k].address as int])
            },
        decreases count - r@.len(),
    {
        if synacor.pc + offset >= MEMORY_SIZE {
            return r;
        }
        let ins = print_instruction(synacor, offset);
        offset = offset + ins.len;
        r.push(ins);
    }
    r
}

/// Summing decoded lengths from the first instruction of a program laid out
/// end to end in memory lands on each instruction's first word in turn:
/// no instruction is skipped and none is entered in its middle.
pub proof fn lemma_walk_visits_each_boundary(mem: Seq<u16>, prog: Seq<Seq<u16>>, k: nat)
    requires
        laid_out(mem, prog),
        k <= prog.len(),
    ensures
        walk(mem, 0, k) == starts(prog, k),
    decreases k,
{
    if k > 0 {
        lemma_walk_visits_each_boundary(mem, prog, (k - 1) as nat);
        let j = (k - 1) as int;
        let at = starts(prog, j as nat);
        lemma_starts_grow(prog, j as nat, prog.len());
        lemma_starts_grow(prog, 0, j as nat);
        assert(well_formed(prog[j]));
        assert(mem.subrange(at, at + prog[j].len()) == prog[j]);
        assert(mem.subrange(at, at + prog[j].len())[0] == mem[at]);
    }
}

proof fn lemma_starts_grow(prog: Seq<Seq<u16>>, i: nat, j: nat)
    requires
        i <= j <= prog.len(),
    ensures
        starts(prog, i) <= starts(prog, j),
        j > i ==> starts(prog, i) + prog[i as int].len() <= starts(prog, j),
    decreases j - i,
{
    if j > i {
        lemma_starts_grow(prog, i, (j - 1) as nat);
    }
}

/// Where instruction `k` of `prog` begins when the instructions are laid end to end.
pub open spec fn starts(prog: Seq<Seq<u16>>, k: nat) -> int
    decreases k,
{
    if k == 0 {
        0
    } else {
        starts(prog, (k - 1) as nat) + prog[k - 1].len()
    }
}

/// A well-formed instruction: a defined opcode followed by its operands.
pub open spec fn well_formed(ins: Seq<u16>) -> bool {
    ins.len() >= 1 && ins[0] <= LAST_OPCODE && ins.len() == 1 + arity(ins[0])
}

/// `mem` holds the instructions of `prog`, one after another, from address 0.
pub open spec fn laid_out(mem: Seq<u16>, prog: Seq<Seq<u16>>) -> bool {
    &&& starts(prog, prog.len()) <= mem.len()
    &&& forall|k: int|
        0 <= k < prog.len() ==> #[trigger] well_formed(prog[k]) && mem.subrange(
            starts(prog, k as nat),
            starts(prog, k as nat) + prog[k].len(),
        ) == prog[k]
}

/// The bytes of an ASCII text.
pub open spec fn ascii_bytes(s: Seq<char>) -> Seq<u8> {
    Seq::new(s.len(), |i: int| s[i] as u8)
}

/// Decimal digits of `n`, most significant first, in ASCII.
pub open spec fn decimal(n: nat) -> Seq<u8>
    decreases n,
{
    if n < 10 {
        seq![(48 + n) as u8]
    } else {
        decimal(n / 10).push((48 + n % 10) as u8)
    }
}

/// UTF-8 encoding of the character whose code point is `c`.
pub open spec fn char_utf8(c: u8) -> Seq<u8> {
    if c < 128 {
        seq![c]
    } else {
        seq![(0xC0 + c / 64) as u8, (0x80 + c % 64) as u8]
    }
}

/// Each operand as a space and its decimal value.
pub open spec fn args_text(args: Seq<u16>) -> Seq<u8>
    decreases args.len(),
{
    if args.len() == 0 {
        Seq::empty()
    } else {
        args_text(args.drop_last()) + seq![32u8] + decimal(args.last() as nat)
    }
}

/// The line a disassembly shows for an instruction: its address, a colon,
/// the mnemonic and the raw operands; for `out`, the character it prints in
/// quotes instead; for an undefined opcode, nothing after the colon.
pub open spec fn instruction_text(address: nat, opcode: u16, args: Seq<u16>, out_char: Option<u8>) -> Seq<u8> {
    let head = decimal(address) + seq![58u8, 32u8] + ascii_bytes(mnemonic_spec(opcode));
    if opcode == 19 {
        match out_char {
            Some(c) => head + seq![32u8, 34u8] + char_utf8(c) + seq![34u8],
            None => head,
        }
    } else if opcode <= LAST_OPCODE {
        head + args_text(args)
    } else {
        head
    }
}

/// Appends the decimal digits of `n`.
fn push_decimal(out: &mut Vec<u8>, n: usize)
    ensures
        final(out)@ == old(out)@ + decimal(n as nat),
    decreases n,
{
    if n >= 10 {
        push_decimal(out, n / 10);
    }
    out.push((48 + n % 10) as u8);
    proof {
        if n < 10 {
            assert(old(out)@ + decimal(n as nat) =~= old(out)@.push((48 + n % 10) as u8));
        } else {
            assert(old(out)@ + decimal(n as nat) =~= (old(out)@ + decimal((n / 10) as nat)).push((48 + n % 10) as u8));
        }
    }
}

fn append(out: &mut Vec<u8>, tail: &[u8])
    ensures
        final(out)@ == old(out)@ + tail@,
{
    let mut i: usize = 0;
    while i < tail.len()
        invariant
            i <= tail@.len(),
            out@ == old(out)@ + tail@.subrange(0, i as int),
        decreases tail@.len() - i,
    {
        out.push(tail[i]);
        i = i + 1;
        assert(out@ =~= old(out)@ + tail@.subrange(0, i as int));
    }
    assert(tail@.subrange(0, i as int) =~= tail@);
}

/// The text line of a decoded instruction, as UTF-8.
pub fn render_instruction(ins: &Instruction) -> (r: Vec<u8>)
    ensures
        r@ == instruction_text(ins.address as nat, ins.opcode, ins.args@, ins.out_char),
{
    let mut r: Vec<u8> = Vec::new();
    push_decimal(&mut r, ins.address);
    r.push(58);
    r.push(32);
    let name = mnemonic(ins.opcode);
    proof {
        vstd::string::is_ascii_spec_bytes(name);
    }
    append(&mut r, name.as_bytes());
    let ghost head = r@;
    assert(head =~= decimal(ins.address as nat) + seq![58u8, 32u8] + ascii_bytes(mnemonic_spec(ins.opcode)));
    if ins.opcode == 19 {
        if let Some(c) = ins.out_char {
            r.push(32);
            r.push(34);
            if c < 128 {
                r.push(c);
            } else {
                r.push(0xC0 + c / 64);
                r.push(0x80 + c % 64);
            }
            r.push(34);
            assert(r@ =~= head + seq![32u8, 34u8] + char_utf8(c) + seq![34u8]);
        }
    } else if ins.opcode <= LAST_OPCODE {
        let mut i: usize = 0;
        while i < ins.args.len()
            invariant
                i <= ins.args@.len(),
                r@ == head + args_text(ins.args@.subrange(0, i as int)),
            decreases ins.args@.len() - i,
        {
            let ghost before = r@;
            r.push(32);
            push_decimal(&mut r, ins.args[i] as usize);
            let ghost taken = ins.args@.subrange(0, i + 1);
            assert(taken.drop_last() =~= ins.args@.subrange(0, i as int));
            i = i + 1;
            assert(r@ =~= head + args_text(ins.args@.subrange(0, i as int)));
        }
        assert(ins.args@.subrange(0, i as int) =~= ins.args@);
    }
    r
}

} // verus!
