use synacor::input::{is_interrupt, Input};

#[test]
fn scenario_debug_line_sets_interrupt() {
    let mut q = Input::new();
    q.feed_line(b"debug\n");
    assert!(q.interrupt);
    assert_eq!(q.next(), None);
    assert!(q.buffer.is_empty());
}

#[test]
fn debug_is_trimmed_before_compare() {
    assert!(is_interrupt(b"  debug \r\n"));
    assert!(!is_interrupt(b"debugx\n"));
    assert!(!is_interrupt(b"de bug\n"));
    assert!(!is_interrupt(b"\n"));
}

#[test]
fn lines_are_queued_with_crlf_folded() {
    let mut q = Input::new();
    q.feed_line(b"go\r\n");
    assert!(!q.interrupt);
    assert_eq!(q.next(), Some('g' as u16));
    assert_eq!(q.next(), Some('o' as u16));
    assert_eq!(q.next(), Some(10));
    assert_eq!(q.next(), None);
}

#[test]
fn preload_keeps_order_and_flag() {
    let mut q = Input::new();
    q.interrupt = true;
    q.preload(b"ab\r\nc");
    assert!(q.interrupt);
    assert_eq!(q.buffer, vec![97, 98, 10, 99]);
}
