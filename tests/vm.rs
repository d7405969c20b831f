use synacor::disasm::{mnemonic, print_instruction, print_instructions, render_instruction};
use synacor::input::Input;
use synacor::machine::{words_from_bytes, Fault, Outcome, Synacor, MEMORY_SIZE};

const R0: u16 = 32768;
const R1: u16 = 32769;

fn machine(program: &[u16]) -> Synacor {
    Synacor::new(program.to_vec(), Input::new())
}

fn bytes_of(words: &[u16]) -> Vec<u8> {
    let mut v = Vec::new();
    for w in words {
        v.push((*w & 0xff) as u8);
        v.push((*w >> 8) as u8);
    }
    v
}

#[test]
fn scenario_out_a_newline_halt() {
    let image = bytes_of(&[19, 65, 19, 10, 0]);
    let program = words_from_bytes(&image).unwrap();
    let mut m = Synacor::new(program, Input::new());
    let (outcome, out) = m.run(100);
    assert_eq!(outcome, Outcome::Halted);
    assert_eq!(out, b"A\n".to_vec());
}

#[test]
fn scenario_set_add_out_register() {
    let mut m = machine(&[1, R0, 4, 9, R0, R0, 1, 19, R0, 0]);
    let (outcome, out) = m.run(100);
    assert_eq!(outcome, Outcome::Halted);
    assert_eq!(out, vec![5u8]);
    assert_eq!(m.regs[0], 5);
}

#[test]
fn scenario_saved_session_consumed_in_order() {
    let mut input = Input::new();
    input.preload(b"foo\n");
    let program = vec![20, R0, 19, R0, 20, R0, 19, R0, 20, R0, 19, R0, 20, R0, 19, R0, 20, R1, 0];
    let mut m = Synacor::new(program, input);
    let (outcome, out) = m.run(100);
    assert_eq!(out, b"foo\n".to_vec());
    assert_eq!(outcome, Outcome::AwaitingInput);
    assert_eq!(m.pc, 16);
    m.input.feed_line(b"x\n");
    assert_eq!(m.step(), Outcome::Running);
    assert_eq!(m.regs[1], 'x' as u16);
}

#[test]
fn in_awaits_then_resumes_at_same_instruction() {
    let mut m = machine(&[21, 20, R0, 0]);
    assert_eq!(m.step(), Outcome::Running);
    assert_eq!(m.step(), Outcome::AwaitingInput);
    assert_eq!(m.pc, 1);
    m.input.feed_line(b"hi\r\n");
    assert_eq!(m.step(), Outcome::Running);
    assert_eq!(m.regs[0], 'h' as u16);
    assert_eq!(m.pc, 3);
    assert_eq!(m.input.buffer, vec!['i' as u16, 10]);
}

fn binary(op: u16, a: u16, b: u16) -> u16 {
    let mut m = machine(&[op, R0, a, b, 0]);
    assert_eq!(m.step(), Outcome::Running);
    assert_eq!(m.pc, 4);
    m.regs[0]
}

#[test]
fn arithmetic_is_modular() {
    assert_eq!(binary(9, 32767, 2), 1);
    assert_eq!(binary(9, 3, 4), 7);
    assert_eq!(binary(10, 200, 200), 7232);
    assert_eq!(binary(10, 32767, 32767), 1);
    assert_eq!(binary(11, 10, 3), 1);
    assert_eq!(binary(12, 0b1100, 0b1010), 0b1000);
    assert_eq!(binary(13, 0b1100, 0b1010), 0b1110);
}

#[test]
fn not_is_fifteen_bit_complement() {
    let mut m = machine(&[14, R0, 0, 14, R1, 32767, 0]);
    m.step();
    m.step();
    assert_eq!(m.regs[0], 32767);
    assert_eq!(m.regs[1], 0);
    let mut m = machine(&[14, R0, 21845, 0]);
    m.step();
    assert_eq!(m.regs[0], 10922);
}

#[test]
fn comparisons_give_zero_or_one() {
    assert_eq!(binary(4, 5, 5), 1);
    assert_eq!(binary(4, 5, 6), 0);
    assert_eq!(binary(5, 6, 5), 1);
    assert_eq!(binary(5, 5, 5), 0);
    assert_eq!(binary(5, 4, 5), 0);
}

#[test]
fn conditional_jumps() {
    let mut m = machine(&[7, 1, 100]);
    m.step();
    assert_eq!(m.pc, 100);
    let mut m = machine(&[7, 0, 100]);
    m.step();
    assert_eq!(m.pc, 3);
    let mut m = machine(&[8, 0, 100]);
    m.step();
    assert_eq!(m.pc, 100);
    let mut m = machine(&[8, 7, 100]);
    m.step();
    assert_eq!(m.pc, 3);
    let mut m = machine(&[6, R0]);
    m.regs[0] = 42;
    m.step();
    assert_eq!(m.pc, 42);
}

#[test]
fn call_then_ret_returns_after_operand() {
    let mut m = machine(&[21, 17, 10, 0, 0, 0, 0, 0, 0, 0, 18]);
    m.step();
    assert_eq!(m.step(), Outcome::Running);
    assert_eq!(m.pc, 10);
    assert_eq!(m.stack, vec![3]);
    assert_eq!(m.step(), Outcome::Running);
    assert_eq!(m.pc, 3);
    assert!(m.stack.is_empty());
}

#[test]
fn push_pop_and_memory() {
    let mut m = machine(&[2, 77, 3, R1, 16, 100, 9, 15, R0, 100, 0]);
    let (outcome, _) = m.run(10);
    assert_eq!(outcome, Outcome::Halted);
    assert_eq!(m.regs[1], 77);
    assert_eq!(m.mem[100], 9);
    assert_eq!(m.regs[0], 9);
}

#[test]
fn ret_on_empty_stack_halts() {
    let mut m = machine(&[18]);
    assert_eq!(m.step(), Outcome::Halted);
    assert_eq!(m.pc, 0);
}

#[test]
fn pop_on_empty_stack_is_fatal() {
    let mut m = machine(&[3, R0]);
    assert_eq!(m.step(), Outcome::Fatal(Fault::EmptyStack { pc: 0 }));
    assert_eq!(m.pc, 0);
}

#[test]
fn faults() {
    let mut m = machine(&[22]);
    assert_eq!(m.step(), Outcome::Fatal(Fault::InvalidOpcode { pc: 0, op: 22 }));
    let mut m = machine(&[1, R0, 32776]);
    assert_eq!(m.step(), Outcome::Fatal(Fault::InvalidOperand { pc: 0, value: 32776 }));
    assert_eq!(m.pc, 0);
    let mut m = machine(&[1, 5, 1]);
    assert_eq!(m.step(), Outcome::Fatal(Fault::InvalidDestination { pc: 0, addr: 5 }));
    let mut m = machine(&[11, R0, 5, 0]);
    assert_eq!(m.step(), Outcome::Fatal(Fault::DivisionByZero { pc: 0 }));
    let mut m = machine(&[16, R0, 1]);
    m.regs[0] = 40000;
    assert_eq!(m.step(), Outcome::Fatal(Fault::AddressOutOfRange { pc: 0, addr: 40000 }));
    let mut m = machine(&[6, 32767]);
    m.step();
    m.mem[32767] = 9;
    assert_eq!(m.step(), Outcome::Fatal(Fault::PastEnd { pc: 32767 }));
}

#[test]
fn image_words_are_little_endian() {
    assert_eq!(words_from_bytes(&[0x34, 0x12, 0xff, 0x7f]), Some(vec![0x1234, 0x7fff]));
    assert_eq!(words_from_bytes(&[1, 2, 3]), None);
    assert_eq!(words_from_bytes(&[]), Some(vec![]));
}

#[test]
fn new_zeroes_the_rest_of_memory() {
    let m = machine(&[7, 8]);
    assert_eq!(m.mem.len(), MEMORY_SIZE);
    assert_eq!(&m.mem[..3], &[7, 8, 0]);
    assert_eq!(m.regs, vec![0; 8]);
}

#[test]
fn disassembly_walks_instruction_boundaries() {
    let program = [1, R0, 4, 9, R0, R0, 1, 19, R0, 18, 0, 21];
    let m = machine(&program);
    let list = print_instructions(&m, 6);
    let starts: Vec<usize> = list.iter().map(|i| i.address).collect();
    assert_eq!(starts, vec![0, 3, 7, 9, 10, 11]);
    let lens: Vec<usize> = list.iter().map(|i| i.len).collect();
    assert_eq!(lens, vec![3, 4, 2, 1, 1, 1]);
    assert_eq!(list[1].args, vec![R0, R0, 1]);
    assert_eq!(mnemonic(list[1].opcode), "Add");
}

#[test]
fn disassembly_of_out_and_unknown() {
    let mut m = machine(&[19, R0, 99]);
    m.regs[0] = 'Z' as u16;
    let ins = print_instruction(&m, 0);
    assert_eq!(ins.out_char, Some(b'Z'));
    assert_eq!(ins.len, 2);
    let ins = print_instruction(&m, 2);
    assert_eq!(ins.len, 1);
    assert!(mnemonic(ins.opcode).is_empty());
    assert!(ins.args.is_empty());
}

#[test]
fn disassembly_stops_at_end_of_memory() {
    let mut m = machine(&[]);
    m.pc = MEMORY_SIZE - 2;
    let list = print_instructions(&m, 5);
    assert_eq!(list.len(), 2);
}

#[test]
fn debug_line_never_reaches_the_machine() {
    let mut m = machine(&[20, R0, 0]);
    assert_eq!(m.step(), Outcome::AwaitingInput);
    m.input.feed_line(b"debug\n");
    assert!(m.input.interrupt);
    assert_eq!(m.step(), Outcome::AwaitingInput);
    assert_eq!(m.pc, 0);
    m.clear_interrupt();
    assert!(!m.input.interrupt);
    m.input.feed_line(b"k\n");
    assert_eq!(m.step(), Outcome::Running);
    assert_eq!(m.regs[0], 'k' as u16);
}

#[test]
fn run_stops_when_fuel_runs_out() {
    let mut m = machine(&[6, 0]);
    let (outcome, out) = m.run(5);
    assert_eq!(outcome, Outcome::Running);
    assert!(out.is_empty());
    assert_eq!(m.pc, 0);
}

#[test]
fn rendered_disassembly_lines() {
    let mut m = machine(&[9, R0, R1, 12, 19, R0, 0, 99]);
    m.regs[0] = 'Q' as u16;
    fn text_of(m: &Synacor, at: usize) -> String {
        String::from_utf8(render_instruction(&print_instruction(m, at))).unwrap()
    }
    assert_eq!(text_of(&m, 0), "0: Add 32768 32769 12");
    assert_eq!(text_of(&m, 4), "4: Out \"Q\"");
    assert_eq!(text_of(&m, 6), "6: Halt");
    assert_eq!(text_of(&m, 7), "7: ");
    m.regs[0] = 0xE9;
    assert_eq!(text_of(&m, 4), "4: Out \"\u{e9}\"");
}
