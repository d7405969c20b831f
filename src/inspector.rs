//! The inspector's commands: parsing a command line, and carrying a command
//! out on the machine.

use vstd::prelude::*;
use crate::disasm::{print_instructions, walk, Instruction};
use crate::input::{range_equals, trim_range, trimmed};
use crate::machine::{Synacor, MEMORY_SIZE};
use crate::word::REGISTER_COUNT;

verus! {

#[derive(Clone, Copy, Debug, PartialEq, Eq, Structural)]
pub enum Command {
    /// Report all registers.
    Regs,
    /// Overwrite a register.
    SetReg(usize, u16),
    /// Overwrite a memory cell.
    SetMem(usize, u16),
    /// Report a memory cell.
    GetMem(usize),
    /// Disassemble this many instructions from `pc`.
    Print(usize),
    /// Leave the inspector.
    Exit,
}

#[derive(Clone, Copy, Debug, PartialEq, Eq, Structural)]
pub enum CommandError {
    /// The command word is none of the known ones.
    Unknown,
    /// The command needs more arguments than the line holds.
    MissingArgument,
    /// An argument is not a decimal number of the right size.
    BadNumber,
}

/// Index of the first space at or after `from`, or the length of `s`.
pub open spec fn next_space(s: Seq<u8>, from: int) -> int
    decreases s.len() - from,
{
    if from < 0 || from >= s.len() {
        s.len() as int
    } else if s[from] == 32 {
        from
    } else {
        next_space(s, from + 1)
    }
}

/// Where the `k`-th space-separated piece of `s` starts; past the end of `s`
/// when there are fewer pieces.
pub open spec fn piece_start(s: Seq<u8>, k: nat) -> int
    decreases k,
{
    if k == 0 {
        0
    } else {
        next_space(s, piece_start(s, (k - 1) as nat)) + 1
    }
}

pub open spec fn has_piece(s: Seq<u8>, k: nat) -> bool {
    piece_start(s, k) <= s.len()
}

/// The `k`-th piece of `s` split at single spaces, trimmed.
pub open spec fn piece(s: Seq<u8>, k: nat) -> Seq<u8> {
    trimmed(s.subrange(piece_start(s, k), next_space(s, piece_start(s, k))))
}

pub open spec fn is_digit(b: u8) -> bool {
    48 <= b <= 57
}

pub open spec fn all_digits(s: Seq<u8>) -> bool {
    s.len() > 0 && forall|i: int| 0 <= i < s.len() ==> is_digit(#[trigger] s[i])
}

pub open spec fn digits_value(s: Seq<u8>) -> nat
    decreases s.len(),
{
    if s.len() == 0 {
        0
    } else {
        digits_value(s.subrange(0, s.len() - 1)) * 10 + (s[s.len() - 1] - 48) as nat
    }
}

/// The number argument `k` of `s` holds, if it is a decimal of at most `max`.
pub open spec fn number_arg(s: Seq<u8>, k: nat, max: nat) -> Result<nat, CommandError> {
    if !has_piece(s, k) {
        Err(CommandError::MissingArgument)
    } else if all_digits(piece(s, k)) && digits_value(piece(s, k)) <= max {
        Ok(digits_value(piece(s, k)))
    } else {
        Err(CommandError::BadNumber)
    }
}

/// What a command line means.
pub open spec fn command_spec(s: Seq<u8>) -> Result<Command, CommandError> {
    let cmd = piece(s, 0);
    if cmd == seq![101u8, 120, 105, 116] {
        Ok(Command::Exit)
    } else if cmd == seq![114u8, 101, 103, 115] {
        Ok(Command::Regs)
    } else if cmd == seq![115u8, 101, 116, 114, 101, 103] || cmd == seq![115u8, 101, 116, 109, 101, 109] {
        match number_arg(s, 1, usize::MAX as nat) {
            Err(e) => Err(e),
            Ok(i) => match number_arg(s, 2, u16::MAX as nat) {
                Err(e) => Err(e),
                Ok(v) => if cmd[5] == 103 {
                    Ok(Command::SetReg(i as usize, v as u16))
                } else {
                    Ok(Command::SetMem(i as usize, v as u16))
                },
            },
        }
    } else if cmd == seq![103u8, 101, 116, 109, 101, 109] {
        match number_arg(s, 1, usize::MAX as nat) {
            Err(e) => Err(e),
            Ok(i) => Ok(Command::GetMem(i as usize)),
        }
    } else if cmd == seq![112u8, 114, 105, 110, 116] {
        match number_arg(s, 1, usize::MAX as nat) {
            Err(e) => Err(e),
            Ok(i) => Ok(Command::Print(i as usize)),
        }
    } else {
        Err(CommandError::Unknown)
    }
}


proof fn lemma_past_end_stays(s: Seq<u8>, j: nat, k: nat)
    requires
        j <= k,
        piece_start(s, j) > s.len(),
    ensures
        piece_start(s, k) > s.len(),
    decreases k - j,
{
    if k > j {
        lemma_past_end_stays(s, j, (k - 1) as nat);
    }
}

proof fn lemma_prefix_value_grows(t: Seq<u8>, i: nat)
    requires
        i <= t.len(),
    ensures
        digits_value(t.subrange(0, i as int)) <= digits_value(t),
    decreases t.len() - i,
{
    if i < t.len() {
        lemma_prefix_value_grows(t, i + 1);
        let longer = t.subrange(0, i + 1 as int);
        assert(longer.subrange(0, longer.len() - 1) =~= t.subrange(0, i as int));
    } else {
        assert(t.subrange(0, i as int) =~= t);
    }
}

/// Index of the first space at or after `from`, or the length of `s`.
fn find_space(s: &[u8], from: usize) -> (r: usize)
    requires
        from <= s@.len(),
    ensures
        r == next_space(s@, from as int),
        from <= r <= s@.len(),
{
    let mut i = from;
    while i < s.len() && s[i] != 32
        invariant
            from <= i <= s@.len(),
            next_space(s@, from as int) == next_space(s@, i as int),
        decreases s@.len() - i,
    {
        i = i + 1;
    }
    i
}

/// Bounds of the `k`-th space-separated piece of `s`, untrimmed.
fn piece_bounds(s: &[u8], k: usize) -> (r: Option<(usize, usize)>)
    ensures
        r is None <==> !has_piece(s@, k as nat),
        r matches Some((a, b)) ==> a == piece_start(s@, k as nat) && b == next_space(s@, a as int)
            && a <= b <= s@.len(),
{
    let mut start: usize = 0;
    let mut j: usize = 0;
    while j < k
        invariant
            j <= k,
            start == piece_start(s@, j as nat),
            start <= s@.len(),
        decreases k - j,
    {
        let e = find_space(s, start);
        if e == s.len() {
            proof {
                lemma_past_end_stays(s@, (j + 1) as nat, k as nat);
            }
            return None;
        }
        start = e + 1;
        j = j + 1;
    }
    let e = find_space(s, start);
    Some((start, e))
}

/// The decimal number `s[a..b]` spells, if it is at most `max`.
fn parse_number(s: &[u8], a: usize, b: usize, max: usize) -> (r: Option<usize>)
    requires
        a <= b <= s@.len(),
    ensures
        ({
            let t = s@.subrange(a as int, b as int);
            r == (if all_digits(t) && digits_value(t) <= max {
                Some(digits_value(t) as usize)
            } else {
                None::<usize>
            })
        }),
{
    let ghost t = s@.subrange(a as int, b as int);
    if a == b {
        return None;
    }
    let mut acc: usize = 0;
    let mut i: usize = a;
    assert(t.subrange(0, 0) =~= Seq::<u8>::empty());
    while i < b
        invariant
            a <= i <= b <= s@.len(),
            t == s@.subrange(a as int, b as int),
            acc <= max,
            acc == digits_value(t.subrange(0, i - a)),
            forall|j: int| 0 <= j < i - a ==> is_digit(#[trigger] t[j]),
        decreases b - i,
    {
        let c = s[i];
        if c < 48 || c > 57 {
            assert(!is_digit(t[i - a]));
            return None;
        }
        let d = (c - 48) as usize;
        let ghost longer = t.subrange(0, i - a + 1);
        assert(longer.subrange(0, longer.len() - 1) =~= t.subrange(0, i - a));
        assert(digits_value(longer) == acc * 10 + d);
        if d > max || acc > (max - d) / 10 {
            proof {
                assert(acc * 10 + d > max) by (nonlinear_arith)
                    requires
                        d > max || acc > (max - d) / 10,
                        d <= 9,
                ;
                if all_digits(t) {
                    lemma_prefix_value_grows(t, (i - a + 1) as nat);
                }
            }
            return None;
        }
        assert(acc * 10 + d <= max) by (nonlinear_arith)
            requires
                d <= max,
                acc <= (max - d) / 10,
        ;
        acc = acc * 10 + d;
        i = i + 1;
    }
    assert(t.subrange(0, t.len() as int) =~= t);
    Some(acc)
}

/// The number argument `k` of a command line, at most `max`.
fn number_arg_exec(s: &[u8], k: usize, max: usize) -> (r: Result<usize, CommandError>)
    ensures
        r matches Ok(v) ==> number_arg(s@, k as nat, max as nat) == Ok::<nat, CommandError>(v as nat),
        r matches Err(e) ==> number_arg(s@, k as nat, max as nat) == Err::<nat, CommandError>(e),
{
    match piece_bounds(s, k) {
        None => Err(CommandError::MissingArgument),
        Some((a, b)) => {
            let (x, y) = trim_range(s, a, b);
            match parse_number(s, x, y, max) {
                Some(v) => Ok(v),
                None => Err(CommandError::BadNumber),
            }
        },
    }
}

/// Parses one inspector command line: a command word, then its arguments,
/// separated by single spaces.
pub fn parse_command(line: &[u8]) -> (r: Result<Command, CommandError>)
    ensures
        r == command_spec(line@),
{
    let (a, b) = match piece_bounds(line, 0) {
        Some(p) => p,
        None => {
            return Err(CommandError::Unknown);
        },
    };
    let (x, y) = trim_range(line, a, b);
    let exit: Vec<u8> = vec![101u8, 120, 105, 116];
    let regs: Vec<u8> = vec![114u8, 101, 103, 115];
    let setreg: Vec<u8> = vec![115u8, 101, 116, 114, 101, 103];
    let setmem: Vec<u8> = vec![115u8, 101, 116, 109, 101, 109];
    let getmem: Vec<u8> = vec![103u8, 101, 116, 109, 101, 109];
    let print: Vec<u8> = vec![112u8, 114, 105, 110, 116];
    proof {
        assert(exit@ =~= seq![101u8, 120, 105, 116]);
        assert(regs@ =~= seq![114u8, 101, 103, 115]);
        assert(setreg@ =~= seq![115u8, 101, 116, 114, 101, 103]);
        assert(setmem@ =~= seq![115u8, 101, 116, 109, 101, 109]);
        assert(getmem@ =~= seq![103u8, 101, 116, 109, 101, 109]);
        assert(print@ =~= seq![112u8, 114, 105, 110, 116]);
    }
    let is_setreg = range_equals(line, x, y, setreg.as_slice());
    if range_equals(line, x, y, exit.as_slice()) {
        Ok(Command::Exit)
    } else if range_equals(line, x, y, regs.as_slice()) {
        Ok(Command::Regs)
    } else if is_setreg || range_equals(line, x, y, setmem.as_slice()) {
        let i = number_arg_exec(line, 1, usize::MAX)?;
        let v = number_arg_exec(line, 2, 65535)?;
        if is_setreg {
            Ok(Command::SetReg(i, v as u16))
        } else {
            Ok(Command::SetMem(i, v as u16))
        }
    } else if range_equals(line, x, y, getmem.as_slice()) {
        let i = number_arg_exec(line, 1, usize::MAX)?;
        Ok(Command::GetMem(i))
    } else if range_equals(line, x, y, print.as_slice()) {
        let i = number_arg_exec(line, 1, usize::MAX)?;
        Ok(Command::Print(i))
    } else {
        Err(CommandError::Unknown)
    }
}


/// What carrying out a command produced.
pub enum Response {
    /// The register file.
    Regs(Vec<u16>),
    /// A memory cell and its value.
    Memory { addr: usize, value: u16 },
    /// Decoded instructions from `pc`, in order.
    Listing(Vec<Instruction>),
    /// A register or memory cell was overwritten.
    Done,
    /// The register index or memory address does not exist; nothing changed.
    OutOfRange,
    /// Leave the inspector.
    Exit,
}

impl Synacor {
    /// Carries out one inspector command on the machine.
    pub fn inspect(&mut self, cmd: Command) -> (r: Response)
        requires
            old(self).wf(),
        ensures
            final(self).wf(),
            final(self).pc == old(self).pc,
            final(self).stack@ == old(self).stack@,
            final(self).input == old(self).input,
            match cmd {
                Command::SetReg(i, v) => if i < REGISTER_COUNT {
                    r is Done && final(self).regs@ == old(self).regs@.update(i as int, v)
                        && final(self).mem@ == old(self).mem@
                } else {
                    r is OutOfRange && final(self)@ == old(self)@
                },
                Command::SetMem(a, v) => if a < MEMORY_SIZE {
                    r is Done && final(self).mem@ == old(self).mem@.update(a as int, v)
                        && final(self).regs@ == old(self).regs@
                } else {
                    r is OutOfRange && final(self)@ == old(self)@
                },
                Command::GetMem(a) => final(self)@ == old(self)@ && if a < MEMORY_SIZE {
                    r == (Response::Memory { addr: a, value: old(self).mem@[a as int] })
                } else {
                    r is OutOfRange
                },
                Command::Regs => final(self)@ == old(self)@ && (r matches Response::Regs(v) && v@
                    == old(self).regs@),
                Command::Print(n) => final(self)@ == old(self)@ && (r matches Response::Listing(l)
                    && l@.len() <= n && (l@.len() < n ==> walk(old(self).mem@, old(self).pc as int, l@.len())
                    >= MEMORY_SIZE) && forall|k: int|
                    0 <= k < l@.len() ==> #[trigger] l@[k].address == walk(
                        old(self).mem@,
                        old(self).pc as int,
                        k as nat,
                    )),
                Command::Exit => r is Exit && final(self)@ == old(self)@,
            },
    {
        match cmd {
            Command::Regs => Response::Regs(self.regs.clone()),
            Command::SetReg(i, v) => {
                if i < REGISTER_COUNT {
                    self.regs.set(i, v);
                    Response::Done
                } else {
                    Response::OutOfRange
                }
            },
            Command::SetMem(a, v) => {
                if a < MEMORY_SIZE {
                    self.mem.set(a, v);
                    Response::Done
                } else {
                    Response::OutOfRange
                }
            },
            Command::GetMem(a) => {
                if a < MEMORY_SIZE {
                    Response::Memory { addr: a, value: self.mem[a] }
                } else {
                    Response::OutOfRange
                }
            },
            Command::Print(n) => Response::Listing(print_instructions(self, n)),
            Command::Exit => Response::Exit,
        }
    }
}

} // verus!
