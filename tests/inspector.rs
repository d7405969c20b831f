use synacor::input::Input;
use synacor::inspector::{parse_command, Command, CommandError, Response};
use synacor::machine::Synacor;

#[test]
fn parses_commands() {
    assert_eq!(parse_command(b"exit\n"), Ok(Command::Exit));
    assert_eq!(parse_command(b"regs"), Ok(Command::Regs));
    assert_eq!(parse_command(b"setreg 7 25734\n"), Ok(Command::SetReg(7, 25734)));
    assert_eq!(parse_command(b"setmem 100 3\r\n"), Ok(Command::SetMem(100, 3)));
    assert_eq!(parse_command(b"getmem 12\n"), Ok(Command::GetMem(12)));
    assert_eq!(parse_command(b"print 5\n"), Ok(Command::Print(5)));
}

#[test]
fn rejects_malformed_commands() {
    assert_eq!(parse_command(b"jump\n"), Err(CommandError::Unknown));
    assert_eq!(parse_command(b"Regs\n"), Err(CommandError::Unknown));
    assert_eq!(parse_command(b"getmem\n"), Err(CommandError::MissingArgument));
    assert_eq!(parse_command(b"setreg 1\n"), Err(CommandError::MissingArgument));
    assert_eq!(parse_command(b"setreg 1 70000\n"), Err(CommandError::BadNumber));
    assert_eq!(parse_command(b"print x\n"), Err(CommandError::BadNumber));
    assert_eq!(parse_command(b"print  3\n"), Err(CommandError::BadNumber));
}

#[test]
fn inspect_reads_and_writes_state() {
    let mut m = Synacor::new(vec![21, 21, 0], Input::new());
    assert!(matches!(m.inspect(Command::SetReg(2, 9)), Response::Done));
    assert_eq!(m.regs[2], 9);
    assert!(matches!(m.inspect(Command::SetReg(8, 9)), Response::OutOfRange));
    assert!(matches!(m.inspect(Command::SetMem(5, 4)), Response::Done));
    match m.inspect(Command::GetMem(5)) {
        Response::Memory { addr, value } => assert_eq!((addr, value), (5, 4)),
        _ => panic!("expected a memory cell"),
    }
    match m.inspect(Command::Regs) {
        Response::Regs(r) => assert_eq!(r, vec![0, 0, 9, 0, 0, 0, 0, 0]),
        _ => panic!("expected registers"),
    }
    match m.inspect(Command::Print(2)) {
        Response::Listing(l) => assert_eq!(l.len(), 2),
        _ => panic!("expected a listing"),
    }
    assert!(matches!(m.inspect(Command::GetMem(40000)), Response::OutOfRange));
    assert!(matches!(m.inspect(Command::Exit), Response::Exit));
}
