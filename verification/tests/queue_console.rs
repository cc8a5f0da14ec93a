//! The bounded byte queue between trap context and the poll loop, and the
//! console's verified pieces: keyword compare and command decision.

use aia_core::console::{
    console_irq, esc_action, runcmd, strequals, uart_init, Arrow, Command, LineAction,
    LineEditor, Uart,
};
use aia_core::ringbuffer::{RingBuffer, RING_BUFFER_SIZE};

#[test]
fn queue_fills_to_capacity_minus_one() {
    let mut rb = RingBuffer::new();
    assert_eq!(rb.max_size(), RING_BUFFER_SIZE);
    for i in 0..(RING_BUFFER_SIZE - 1) {
        assert!(rb.push(i as u8));
    }
    // One slot is kept free: the next push is rejected, nothing is
    // overwritten.
    assert!(!rb.push(0xAA));
    for i in 0..(RING_BUFFER_SIZE - 1) {
        assert_eq!(rb.pop(), Some(i as u8));
    }
    assert_eq!(rb.pop(), None);
}

#[test]
fn queue_is_first_in_first_out_across_wraparound() {
    let mut rb = RingBuffer::new();
    for round in 0..5u8 {
        for i in 0..20u8 {
            assert!(rb.push(round * 20 + i));
        }
        for i in 0..20u8 {
            assert_eq!(rb.pop(), Some(round * 20 + i));
        }
    }
    assert_eq!(rb.pop(), None);
}

#[test]
fn uart_hands_over_one_byte_per_interrupt() {
    let mut u = Uart::new();
    uart_init(&mut u);
    assert_eq!((u.lcr, u.fcr, u.icr), (3, 1, 1));
    assert_eq!(u.read_char(), None);
    u.receive(b'x');
    assert_eq!(u.read_char(), Some(b'x'));
    // Reading the buffer clears the ready bit.
    assert_eq!(u.read_char(), None);
}

#[test]
fn receive_interrupt_feeds_the_queue() {
    let mut u = Uart::new();
    let mut rb = RingBuffer::new();
    // No byte ready: nothing moves.
    assert!(!console_irq(&mut u, &mut rb));
    assert_eq!(rb.pop(), None);
    u.receive(b'h');
    assert!(console_irq(&mut u, &mut rb));
    u.receive(b'i');
    assert!(console_irq(&mut u, &mut rb));
    assert_eq!(rb.pop(), Some(b'h'));
    assert_eq!(rb.pop(), Some(b'i'));
    // A full queue drops the byte rather than overwrite.
    for i in 0..(RING_BUFFER_SIZE - 1) {
        rb.push(i as u8);
    }
    u.receive(b'z');
    assert!(!console_irq(&mut u, &mut rb));
}

#[test]
fn compare_stops_at_terminator() {
    assert!(strequals(b"quit", b"quit"));
    assert!(strequals(b"quit\0garbage", b"quit"));
    assert!(strequals(b"quitter", b"quit"));
    assert!(!strequals(b"qui", b"quit"));
    assert!(!strequals(b"quiz", b"quit"));
    assert!(strequals(b"\0anything", b"\0abc"));
}

#[test]
fn editor_builds_and_submits_a_line() {
    let mut ed = LineEditor::new();
    for b in *b"pages" {
        assert_eq!(ed.step(b), LineAction::Echo(b));
    }
    assert_eq!(ed.step(10), LineAction::Submit(Command::Pages));
    // The line starts over after a submit.
    assert_eq!(ed.step(13), LineAction::SubmitEmpty);
}

#[test]
fn editor_rubs_out_and_corrects() {
    let mut ed = LineEditor::new();
    for b in *b"quiz" {
        ed.step(b);
    }
    assert_eq!(ed.step(127), LineAction::Backspace);
    assert_eq!(ed.step(b't'), LineAction::Echo(b't'));
    assert_eq!(ed.step(13), LineAction::Submit(Command::Quit));
    // Rub-out at the start of the line does nothing.
    assert_eq!(ed.step(127), LineAction::Ignore);
}

#[test]
fn editor_handles_control_bytes_and_overflow() {
    let mut ed = LineEditor::new();
    assert_eq!(ed.step(0x1B), LineAction::Escape);
    assert_eq!(esc_action(0x5B, 0x41), Arrow::Up);
    assert_eq!(esc_action(0x5B, 0x44), Arrow::Left);
    assert_eq!(esc_action(0x5B, 0x7A), Arrow::Neither);
    assert_eq!(esc_action(0x40, 0x41), Arrow::Neither);
    assert_eq!(ed.step(7), LineAction::EchoCode(7));
    // The line keeps one slot for its terminator: byte 32 is dropped.
    for i in 0..31u8 {
        assert_eq!(ed.step(b'a' + (i % 26)), LineAction::Echo(b'a' + (i % 26)));
    }
    assert_eq!(ed.step(b'z'), LineAction::Ignore);
    assert_eq!(ed.step(10), LineAction::Submit(Command::Unknown));
}

#[test]
fn command_table_decides_in_order() {
    assert_eq!(runcmd(b"quit\0"), Command::Quit);
    assert_eq!(runcmd(b"pages\0"), Command::Pages);
    assert_eq!(runcmd(b"help\0"), Command::Help);
    assert_eq!(runcmd(b"pci\0"), Command::Pci);
    assert_eq!(runcmd(b"nvme\0"), Command::Nvme);
    assert_eq!(runcmd(b"reboot\0"), Command::Unknown);
    assert_eq!(runcmd(b"qui\0"), Command::Unknown);
}
