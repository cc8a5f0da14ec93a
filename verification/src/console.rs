//! The verified slice of the console: the buffer-against-keyword compare
//! and the command table's decision.  The left side is a typed buffer that
//! may carry a terminating zero; the right side is the keyword.  They match
//! when the buffer is at least as long as the keyword and agrees with it up
//! to the keyword's end or up to a zero byte in the buffer, whichever comes
//! first.

use vstd::prelude::*;

verus! {

/// The compare from position `i` on: agree byte for byte until the keyword
/// ends or a zero ends the buffer's word early.
pub open spec fn strequals_from(left: Seq<u8>, right: Seq<u8>, i: int) -> bool
    decreases right.len() - i when 0 <= i <= right.len()
{
    if i < 0 || i >= right.len() {
        true
    } else if left[i] != right[i] {
        false
    } else if left[i] == 0 {
        true
    } else {
        strequals_from(left, right, i + 1)
    }
}

/// The buffer matches the keyword.
pub open spec fn str_matches(left: Seq<u8>, right: Seq<u8>) -> bool {
    left.len() >= right.len() && strequals_from(left, right, 0)
}

/// Compare a typed buffer against a keyword.
pub fn strequals(left: &[u8], right: &[u8]) -> (r: bool)
    ensures
        r == str_matches(left@, right@),
{
    if left.len() < right.len() {
        return false;
    }
    let mut i: usize = 0;
    while i < right.len()
        invariant
            left@.len() >= right@.len(),
            0 <= i <= right@.len(),
            strequals_from(left@, right@, 0) == strequals_from(left@, right@, i as int),
        decreases right@.len() - i,
    {
        if left[i] != right[i] {
            return false;
        } else if left[i] == 0 {
            return true;
        }
        i = i + 1;
    }
    true
}

/// The keyword "quit" as bytes.
pub open spec fn quit_bytes() -> Seq<u8> {
    seq![113u8, 117u8, 105u8, 116u8]
}

fn quit_word() -> (v: Vec<u8>)
    ensures
        v@ == quit_bytes(),
{
    let mut v: Vec<u8> = Vec::new();
    v.push(113);
    v.push(117);
    v.push(105);
    v.push(116);
    proof {
        assert(v@ =~= quit_bytes());
    }
    v
}

/// The keyword "pages" as bytes.
pub open spec fn pages_bytes() -> Seq<u8> {
    seq![112u8, 97u8, 103u8, 101u8, 115u8]
}

fn pages_word() -> (v: Vec<u8>)
    ensures
        v@ == pages_bytes(),
{
    let mut v: Vec<u8> = Vec::new();
    v.push(112);
    v.push(97);
    v.push(103);
    v.push(101);
    v.push(115);
    proof {
        assert(v@ =~= pages_bytes());
    }
    v
}

/// The keyword "help" as bytes.
pub open spec fn help_bytes() -> Seq<u8> {
    seq![104u8, 101u8, 108u8, 112u8]
}

fn help_word() -> (v: Vec<u8>)
    ensures
        v@ == help_bytes(),
{
    let mut v: Vec<u8> = Vec::new();
    v.push(104);
    v.push(101);
    v.push(108);
    v.push(112);
    proof {
        assert(v@ =~= help_bytes());
    }
    v
}

/// The keyword "pci" as bytes.
pub open spec fn pci_bytes() -> Seq<u8> {
    seq![112u8, 99u8, 105u8]
}

fn pci_word() -> (v: Vec<u8>)
    ensures
        v@ == pci_bytes(),
{
    let mut v: Vec<u8> = Vec::new();
    v.push(112);
    v.push(99);
    v.push(105);
    proof {
        assert(v@ =~= pci_bytes());
    }
    v
}

/// The keyword "nvme" as bytes.
pub open spec fn nvme_bytes() -> Seq<u8> {
    seq![110u8, 118u8, 109u8, 101u8]
}

fn nvme_word() -> (v: Vec<u8>)
    ensures
        v@ == nvme_bytes(),
{
    let mut v: Vec<u8> = Vec::new();
    v.push(110);
    v.push(118);
    v.push(109);
    v.push(101);
    proof {
        assert(v@ =~= nvme_bytes());
    }
    v
}

/// What a typed line asks for.
#[derive(Clone, Copy, Debug, PartialEq, Eq, Structural)]
pub enum Command {
    Quit,
    Pages,
    Help,
    Pci,
    Nvme,
    Unknown,
}

/// The command table's rule, keywords tried in order.
pub open spec fn command_of(buf: Seq<u8>) -> Command {
    if str_matches(buf, quit_bytes()) {
        Command::Quit
    } else if str_matches(buf, pages_bytes()) {
        Command::Pages
    } else if str_matches(buf, help_bytes()) {
        Command::Help
    } else if str_matches(buf, pci_bytes()) {
        Command::Pci
    } else if str_matches(buf, nvme_bytes()) {
        Command::Nvme
    } else {
        Command::Unknown
    }
}

/// Decide which command a typed line names.
pub fn runcmd(buffer: &[u8]) -> (c: Command)
    ensures
        c == command_of(buffer@),
{
    if strequals(buffer, quit_word().as_slice()) {
        Command::Quit
    } else if strequals(buffer, pages_word().as_slice()) {
        Command::Pages
    } else if strequals(buffer, help_word().as_slice()) {
        Command::Help
    } else if strequals(buffer, pci_word().as_slice()) {
        Command::Pci
    } else if strequals(buffer, nvme_word().as_slice()) {
        Command::Nvme
    } else {
        Command::Unknown
    }
}

/// The serial port's registers as the core reads and writes them: the
/// receiver buffer with its ready bit in the line status register, and
/// the three setup registers.  The transmit side stays with the platform.
pub struct Uart {
    /// Line status: bit 0 set while the receiver buffer holds a byte.
    pub lsr: u8,
    /// Receiver buffer: the last byte the line delivered.
    pub rbr: u8,
    /// Line control: word size.
    pub lcr: u8,
    /// FIFO control.
    pub fcr: u8,
    /// Interrupt control: trigger on receive.
    pub icr: u8,
}

impl Uart {
    /// Reset state: nothing received, nothing configured.
    pub fn new() -> (u: Uart)
        ensures
            u.lsr == 0 && u.rbr == 0 && u.lcr == 0 && u.fcr == 0 && u.icr == 0,
    {
        Uart { lsr: 0, rbr: 0, lcr: 0, fcr: 0, icr: 0 }
    }

    /// A byte arrives on the line: it lands in the receiver buffer and
    /// raises the ready bit.
    pub fn receive(&mut self, byte: u8)
        ensures
            *final(self) == (Uart { lsr: (old(self).lsr | 1), rbr: byte, ..*old(self) }),
    {
        self.rbr = byte;
        self.lsr = self.lsr | 1;
    }

    /// Take the received byte if the ready bit says one is there; reading
    /// the buffer clears the bit.
    pub fn read_char(&mut self) -> (r: Option<u8>)
        ensures
            old(self).lsr & 1 == 1 ==> r == Some(old(self).rbr) && *final(self) == (Uart {
                lsr: (old(self).lsr & 0xFE),
                ..*old(self)
            }),
            old(self).lsr & 1 != 1 ==> r is None && *final(self) == *old(self),
    {
        if self.lsr & 1 == 1 {
            self.lsr = self.lsr & 0xFE;
            Some(self.rbr)
        } else {
            None
        }
    }
}

/// Configure the port: eight-bit words, FIFO on, a trigger per received
/// byte.
pub fn uart_init(u: &mut Uart)
    ensures
        *final(u) == (Uart { lcr: 3u8, fcr: 1u8, icr: 1u8, ..*old(u) }),
{
    u.lcr = 3;
    u.fcr = 1;
    u.icr = 1;
}

/// The receive interrupt's work: move the byte, if one is ready, from the
/// receiver buffer into the bounded queue.  A full queue drops the byte
/// and never overwrites; the buffer is consumed either way.
pub fn console_irq(u: &mut Uart, queue: &mut crate::ringbuffer::RingBuffer) -> (queued: bool)
    requires
        old(queue).wf(),
    ensures
        final(queue).wf(),
        old(u).lsr & 1 != 1 ==> !queued && *final(u) == *old(u) && *final(queue) == *old(queue),
        old(u).lsr & 1 == 1 ==> ({
            &&& *final(u) == (Uart { lsr: (old(u).lsr & 0xFE), ..*old(u) })
            &&& queued == (old(queue).view().len() < crate::ringbuffer::RING_BUFFER_SIZE - 1)
            &&& (queued ==> final(queue).view() == old(queue).view().push(old(u).rbr))
            &&& (!queued ==> *final(queue) == *old(queue))
        }),
{
    match u.read_char() {
        Some(c) => queue.push(c),
        None => false,
    }
}

/// Capacity of the line being edited, terminator slot included.
pub const LINE_SIZE: usize = 32;

/// What one keystroke asks the surrounding loop to do.  The editor owns
/// the line; printing, prompting and running the command stay outside.
#[derive(Clone, Copy, Debug, PartialEq, Eq, Structural)]
pub enum LineAction {
    /// Nothing happens (rub-out at the start of the line, or a full line).
    Ignore,
    /// The byte joined the line; echo it.
    Echo(u8),
    /// An unknown control byte; show its code instead of echoing it.
    EchoCode(u8),
    /// One byte left the line; rub it out on screen.
    Backspace,
    /// An escape introducer; feed the next two bytes to `esc_action`.
    Escape,
    /// The line ended with something typed: run this command, then prompt.
    Submit(Command),
    /// The line ended empty: just prompt again.
    SubmitEmpty,
}

/// What an escape sequence names.
#[derive(Clone, Copy, Debug, PartialEq, Eq, Structural)]
pub enum Arrow {
    Up,
    Down,
    Right,
    Left,
    Neither,
}

/// Decode the two bytes after an escape introducer.
pub fn esc_action(esc1: u8, esc2: u8) -> (a: Arrow)
    ensures
        a == (if esc1 == 0x5B {
            if esc2 == 0x41 {
                Arrow::Up
            } else if esc2 == 0x42 {
                Arrow::Down
            } else if esc2 == 0x43 {
                Arrow::Right
            } else if esc2 == 0x44 {
                Arrow::Left
            } else {
                Arrow::Neither
            }
        } else {
            Arrow::Neither
        }),
{
    if esc1 == 0x5B {
        if esc2 == 0x41 {
            Arrow::Up
        } else if esc2 == 0x42 {
            Arrow::Down
        } else if esc2 == 0x43 {
            Arrow::Right
        } else if esc2 == 0x44 {
            Arrow::Left
        } else {
            Arrow::Neither
        }
    } else {
        Arrow::Neither
    }
}

/// The state of the line being edited: the poll loop feeds it one byte per
/// keystroke and performs the action it decides.
pub struct LineEditor {
    buffer: Vec<u8>,
    typed: usize,
}

impl LineEditor {
    pub closed spec fn wf(self) -> bool {
        self.buffer.len() == LINE_SIZE && self.typed < LINE_SIZE
    }

    /// The bytes typed so far.
    pub closed spec fn line(self) -> Seq<u8> {
        self.buffer@.take(self.typed as int)
    }

    pub fn new() -> (ed: LineEditor)
        ensures
            ed.wf(),
            ed.line() == Seq::<u8>::empty(),
    {
        let ed = LineEditor { buffer: crate::bits::zero_words_u8(LINE_SIZE), typed: 0 };
        proof {
            assert(ed.line() =~= Seq::<u8>::empty());
        }
        ed
    }

    /// Feed one byte: line feed or carriage return ends the line and
    /// decides its command, rub-out shortens it, an escape introducer and
    /// unknown control bytes leave it alone, and a printable byte joins it
    /// while the line has room for it and its terminator.
    pub fn step(&mut self, c: u8) -> (a: LineAction)
        requires
            old(self).wf(),
        ensures
            final(self).wf(),
            (c == 10 || c == 13) ==> final(self).line() == Seq::<u8>::empty() && a == (if old(
                self,
            ).line().len() == 0 {
                LineAction::SubmitEmpty
            } else {
                LineAction::Submit(command_of(old(self).line().push(0)))
            }),
            c == 127 ==> (if old(self).line().len() > 0 {
                a == LineAction::Backspace && final(self).line() == old(self).line().drop_last()
            } else {
                a == LineAction::Ignore && final(self).line() == old(self).line()
            }),
            c == 0x1B ==> a == LineAction::Escape && final(self).line() == old(self).line(),
            (c != 10 && c != 13 && c != 127 && c != 0x1B && c < 20) ==> a == LineAction::EchoCode(c)
                && final(self).line() == old(self).line(),
            (c >= 20 && c != 127 && c != 0x1B) ==> (if old(self).line().len() + 1 < LINE_SIZE {
                a == LineAction::Echo(c) && final(self).line() == old(self).line().push(c)
            } else {
                a == LineAction::Ignore && final(self).line() == old(self).line()
            }),
    {
        if c == 10 || c == 13 {
            self.buffer[self.typed] = 0;
            let submitted = self.typed;
            self.typed = 0;
            proof {
                assert(self.line() =~= Seq::<u8>::empty());
            }
            if submitted > 0 {
                // Hand the terminated line to the command table.
                let mut line: Vec<u8> = Vec::new();
                let mut i: usize = 0;
                while i <= submitted
                    invariant
                        i <= submitted + 1,
                        submitted < LINE_SIZE,
                        self.buffer@.len() == LINE_SIZE,
                        line@ == self.buffer@.take(i as int),
                    decreases submitted + 1 - i,
                {
                    line.push(self.buffer[i]);
                    proof {
                        assert(line@ =~= self.buffer@.take(i + 1));
                    }
                    i = i + 1;
                }
                let cmd = runcmd(line.as_slice());
                proof {
                    assert(line@ =~= old(self).line().push(0));
                }
                LineAction::Submit(cmd)
            } else {
                LineAction::SubmitEmpty
            }
        } else if c == 127 {
            if self.typed > 0 {
                self.typed = self.typed - 1;
                proof {
                    assert(self.line() =~= old(self).line().drop_last());
                }
                LineAction::Backspace
            } else {
                LineAction::Ignore
            }
        } else if c == 0x1B {
            LineAction::Escape
        } else if c < 20 {
            LineAction::EchoCode(c)
        } else if self.typed + 1 < LINE_SIZE {
            self.buffer[self.typed] = c;
            self.typed = self.typed + 1;
            proof {
                assert(self.line() =~= old(self).line().push(c));
            }
            LineAction::Echo(c)
        } else {
            LineAction::Ignore
        }
    }
}

} // verus!
