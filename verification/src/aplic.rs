//! Domain-based interrupt-source router: two instances, a root domain and a
//! delegated child.  Each holds per-source trigger configuration, a target
//! table packing (hart, guest, message identifier) per source, set-by-number
//! enable/pending side channels, and a domain-wide configuration word (byte
//! order, wired or message-signaled delivery, enabled).  A source delegated
//! to a child carries the delegation marker in its configuration register;
//! its trigger mode is then owned by the child alone.

use crate::bits::{lemma_flip_bit, nth_bit};
use crate::imsic::{Imsic, PrivMode, IMSIC_S, NUM_IDS};
use vstd::prelude::*;

verus! {

// MMIO bases of the two domains and of the supervisor-level interrupt
// delivery control block, as the platform wires them.
pub const APLIC_M: usize = 0xc00_0000;

pub const APLIC_S: usize = 0xd00_0000;

pub const APLIC_S_IDC: usize = 0xd00_4000;

/// Sources 1..=1023 have a configuration and a target slot each, at index
/// `irq - 1`.
pub const NUM_SOURCES: usize = 1023;

/// How a wired source triggers; a source may instead carry the delegation
/// marker, which is none of these.
#[derive(Clone, Copy, Debug, PartialEq, Eq, Structural)]
pub enum SourceModes {
    Inactive,
    Detached,
    RisingEdge,
    FallingEdge,
    LevelHigh,
    LevelLow,
}

/// The register encoding of a trigger mode.
pub open spec fn mode_value(m: SourceModes) -> u32 {
    match m {
        SourceModes::Inactive => 0,
        SourceModes::Detached => 1,
        SourceModes::RisingEdge => 4,
        SourceModes::FallingEdge => 5,
        SourceModes::LevelHigh => 6,
        SourceModes::LevelLow => 7,
    }
}

/// Mathematical state of one domain.
pub ghost struct AplicView {
    pub domaincfg: u32,
    pub sourcecfg: Seq<u32>,
    pub mmsiaddrcfg: u32,
    pub mmsiaddrcfgh: u32,
    pub smsiaddrcfg: u32,
    pub smsiaddrcfgh: u32,
    pub ie: Seq<u32>,
    pub ip: Seq<u32>,
    pub target: Seq<u32>,
}

impl AplicView {
    pub open spec fn wf(self) -> bool {
        &&& self.sourcecfg.len() == NUM_SOURCES
        &&& self.target.len() == NUM_SOURCES
        &&& self.ie.len() == 32
        &&& self.ip.len() == 32
    }

    pub open spec fn domain_enabled(self) -> bool {
        nth_bit(self.domaincfg, 8)
    }

    pub open spec fn msi_mode(self) -> bool {
        nth_bit(self.domaincfg, 2)
    }

    pub open spec fn big_endian(self) -> bool {
        nth_bit(self.domaincfg, 0)
    }

    /// The raw configuration register of source `irq`.
    pub open spec fn source_cfg(self, irq: int) -> u32 {
        self.sourcecfg[irq - 1]
    }

    /// The source is delegated: bit 10 of its configuration register.
    pub open spec fn delegated(self, irq: int) -> bool {
        nth_bit(self.source_cfg(irq), 10)
    }

    /// The child index a delegated source names (the low ten bits).
    pub open spec fn delegate_child(self, irq: int) -> u32 {
        self.source_cfg(irq) & 0x3FF
    }

    /// The source carries an active trigger mode of its own (it is neither
    /// inactive, detached, nor delegated).
    pub open spec fn source_active(self, irq: int) -> bool {
        self.source_cfg(irq) == 4 || self.source_cfg(irq) == 5 || self.source_cfg(irq) == 6
            || self.source_cfg(irq) == 7
    }

    pub open spec fn src_enabled(self, irq: int) -> bool {
        0 <= irq < NUM_IDS && nth_bit(self.ie[irq / 32], (irq % 32) as u32)
    }

    pub open spec fn src_pending(self, irq: int) -> bool {
        0 <= irq < NUM_IDS && nth_bit(self.ip[irq / 32], (irq % 32) as u32)
    }

    pub open spec fn target_hart(self, irq: int) -> u32 {
        self.target[irq - 1] >> 18
    }

    pub open spec fn target_guest(self, irq: int) -> u32 {
        (self.target[irq - 1] >> 12) & 0x3F
    }

    /// The message identifier written to the target file when this source
    /// fires in message-signaled mode.
    pub open spec fn target_eiid(self, irq: int) -> u32 {
        self.target[irq - 1] & 0xFFF
    }

    pub open spec fn with_sourcecfg_val(self, irq: int, v: u32) -> AplicView {
        AplicView { sourcecfg: self.sourcecfg.update(irq - 1, v), ..self }
    }

    pub open spec fn with_target_val(self, irq: int, v: u32) -> AplicView {
        AplicView { target: self.target.update(irq - 1, v), ..self }
    }

    pub open spec fn with_ie_bit(self, irq: int, on: bool) -> AplicView {
        AplicView {
            ie: self.ie.update(
                irq / 32,
                if on {
                    self.ie[irq / 32] | (1u32 << (irq % 32) as u32)
                } else {
                    self.ie[irq / 32] & !(1u32 << (irq % 32) as u32)
                },
            ),
            ..self
        }
    }

    pub open spec fn with_ip_bit(self, irq: int, on: bool) -> AplicView {
        AplicView {
            ip: self.ip.update(
                irq / 32,
                if on {
                    self.ip[irq / 32] | (1u32 << (irq % 32) as u32)
                } else {
                    self.ip[irq / 32] & !(1u32 << (irq % 32) as u32)
                },
            ),
            ..self
        }
    }
}

/// One domain as register words; its mathematical state is `AplicView`.
pub struct Aplic {
    pub domaincfg: u32,
    pub sourcecfg: Vec<u32>,
    pub mmsiaddrcfg: u32,
    pub mmsiaddrcfgh: u32,
    pub smsiaddrcfg: u32,
    pub smsiaddrcfgh: u32,
    pub ie: Vec<u32>,
    pub ip: Vec<u32>,
    pub genmsi: u32,
    pub target: Vec<u32>,
}

impl View for Aplic {
    type V = AplicView;

    open spec fn view(&self) -> AplicView {
        AplicView {
            domaincfg: self.domaincfg,
            sourcecfg: self.sourcecfg@,
            mmsiaddrcfg: self.mmsiaddrcfg,
            mmsiaddrcfgh: self.mmsiaddrcfgh,
            smsiaddrcfg: self.smsiaddrcfg,
            smsiaddrcfgh: self.smsiaddrcfgh,
            ie: self.ie@,
            ip: self.ip@,
            target: self.target@,
        }
    }
}

impl Aplic {
    /// Reset state: every register zero — all sources inactive, nothing
    /// enabled or pending, domain disabled.
    pub fn new() -> (a: Aplic)
        ensures
            a@.wf(),
            a@.domaincfg == 0,
            forall|k: int| 0 <= k < NUM_SOURCES ==> a@.sourcecfg[k] == 0 && a@.target[k] == 0,
            forall|k: int| 0 <= k < 32 ==> a@.ie[k] == 0 && a@.ip[k] == 0,
    {
        Aplic {
            domaincfg: 0,
            sourcecfg: crate::bits::zero_words(NUM_SOURCES),
            mmsiaddrcfg: 0,
            mmsiaddrcfgh: 0,
            smsiaddrcfg: 0,
            smsiaddrcfgh: 0,
            ie: crate::bits::zero_words(32),
            ip: crate::bits::zero_words(32),
            genmsi: 0,
            target: crate::bits::zero_words(NUM_SOURCES),
        }
    }

    /// Set the domain's message target physical address: the page number of
    /// the address lands in the low configuration word, the high word is
    /// cleared.  The address must be page aligned.
    pub fn set_msiaddr(&mut self, mode: PrivMode, addr: usize)
        requires
            old(self)@.wf(),
        ensures
            final(self)@.wf(),
            mode == PrivMode::Machine ==> *final(self) == (Aplic {
                mmsiaddrcfg: ((addr >> 12) as u32),
                mmsiaddrcfgh: 0u32,
                ..*old(self)
            }),
            mode == PrivMode::Supervisor ==> *final(self) == (Aplic {
                smsiaddrcfg: ((addr >> 12) as u32),
                smsiaddrcfgh: 0u32,
                ..*old(self)
            }),
    {
        match mode {
            PrivMode::Machine => {
                self.mmsiaddrcfg = (addr >> 12) as u32;
                self.mmsiaddrcfgh = 0;
            },
            PrivMode::Supervisor => {
                self.smsiaddrcfg = (addr >> 12) as u32;
                self.smsiaddrcfgh = 0;
            },
        }
    }

    /// Route interrupts of source `irq` to the given hart and guest with the
    /// given message identifier, packed hart high, guest middle,
    /// identifier low.
    pub fn set_target(&mut self, irq: u32, hart: u32, guest: u32, eiid: u32)
        requires
            old(self)@.wf(),
            1 < irq < 1024,
            hart < 0x4000,
            guest < 0x40,
            eiid < 0x1000,
        ensures
            final(self)@.wf(),
            final(self)@ == old(self)@.with_target_val(
                irq as int,
                (hart << 18) | (guest << 12) | eiid,
            ),
            final(self)@.target_hart(irq as int) == hart,
            final(self)@.target_guest(irq as int) == guest,
            final(self)@.target_eiid(irq as int) == eiid,
    {
        let v = (hart << 18) | (guest << 12) | eiid;
        self.target[(irq - 1) as usize] = v;
        proof {
            lemma_target_fields(hart, guest, eiid);
        }
    }

    /// Give source `irq` a trigger mode of this domain's own.  Does not
    /// delegate.
    pub fn set_sourcecfg(&mut self, irq: u32, mode: SourceModes)
        requires
            old(self)@.wf(),
            1 < irq < 1024,
        ensures
            final(self)@.wf(),
            final(self)@ == old(self)@.with_sourcecfg_val(irq as int, mode_value(mode)),
            final(self)@.source_cfg(irq as int) == mode_value(mode),
            !final(self)@.delegated(irq as int),
    {
        let v: u32 = match mode {
            SourceModes::Inactive => 0,
            SourceModes::Detached => 1,
            SourceModes::RisingEdge => 4,
            SourceModes::FallingEdge => 5,
            SourceModes::LevelHigh => 6,
            SourceModes::LevelLow => 7,
        };
        self.sourcecfg[(irq - 1) as usize] = v;
        proof {
            lemma_mode_value_not_delegated(mode);
        }
    }

    /// Hand source `irq` to child domain `child`: its configuration register
    /// now carries the delegation marker, and this domain no longer owns a
    /// trigger mode for it.
    pub fn sourcecfg_delegate(&mut self, irq: u32, child: u32)
        requires
            old(self)@.wf(),
            1 < irq < 1024,
            child < 1024,
        ensures
            final(self)@.wf(),
            final(self)@ == old(self)@.with_sourcecfg_val(irq as int, (1u32 << 10) | child),
            final(self)@.delegated(irq as int),
            final(self)@.delegate_child(irq as int) == child,
    {
        let v = 1u32 << 10 | child;
        self.sourcecfg[(irq - 1) as usize] = v;
        proof {
            lemma_delegate_marker(child);
        }
    }

    /// Write the whole-domain configuration word: byte order in bit 0,
    /// message-signaled mode in bit 2, domain enable in bit 8.  Must precede
    /// enabling any source of the domain.
    pub fn set_domaincfg(&mut self, bigendian: bool, msimode: bool, enabled: bool)
        requires
            old(self)@.wf(),
        ensures
            final(self)@.wf(),
            *final(self) == (Aplic {
                domaincfg: (
                ((if enabled { 1u32 } else { 0u32 }) << 8) | ((if msimode { 1u32 } else { 0u32 })
                    << 2) | (if bigendian { 1u32 } else { 0u32 })),
                ..*old(self)
            }),
            final(self)@.domain_enabled() == enabled,
            final(self)@.msi_mode() == msimode,
            final(self)@.big_endian() == bigendian,
    {
        let enabled: u32 = if enabled { 1 } else { 0 };
        let msimode: u32 = if msimode { 1 } else { 0 };
        let bigendian: u32 = if bigendian { 1 } else { 0 };
        self.domaincfg = (enabled << 8) | (msimode << 2) | bigendian;
        proof {
            lemma_domaincfg_bits(enabled, msimode, bigendian);
        }
    }

    /// Set or clear the enable bit of source `irq` through the set-by-number
    /// side channel.
    pub fn set_ie(&mut self, irq: u32, enabled: bool)
        requires
            old(self)@.wf(),
            1 < irq < 1024,
        ensures
            final(self)@.wf(),
            final(self)@ == old(self)@.with_ie_bit(irq as int, enabled),
            forall|j: int| #[trigger] final(self)@.src_enabled(j) == (if j == irq {
                enabled
            } else {
                old(self)@.src_enabled(j)
            }),
            forall|j: int| #[trigger] final(self)@.src_pending(j) == old(self)@.src_pending(j),
    {
        let k = (irq / 32) as usize;
        let bit = irq % 32;
        let w = self.ie[k];
        if enabled {
            self.ie[k] = w | (1u32 << bit);
        } else {
            self.ie[k] = w & !(1u32 << bit);
        }
        proof {
            lemma_flip_bit(old(self)@.ie, self@.ie, irq as int, enabled);
        }
    }

    /// Set or clear the pending bit of source `irq` the same way.
    pub fn set_ip(&mut self, irq: u32, pending: bool)
        requires
            old(self)@.wf(),
            1 < irq < 1024,
        ensures
            final(self)@.wf(),
            final(self)@ == old(self)@.with_ip_bit(irq as int, pending),
            forall|j: int| #[trigger] final(self)@.src_pending(j) == (if j == irq {
                pending
            } else {
                old(self)@.src_pending(j)
            }),
            forall|j: int| #[trigger] final(self)@.src_enabled(j) == old(self)@.src_enabled(j),
    {
        let k = (irq / 32) as usize;
        let bit = irq % 32;
        let w = self.ip[k];
        if pending {
            self.ip[k] = w | (1u32 << bit);
        } else {
            self.ip[k] = w & !(1u32 << bit);
        }
        proof {
            lemma_flip_bit(old(self)@.ip, self@.ip, irq as int, pending);
        }
    }
}

/// MMIO base of a domain's register block.
pub fn aplic_addr(mode: PrivMode) -> (addr: usize)
    ensures
        mode == PrivMode::Machine ==> addr == APLIC_M,
        mode == PrivMode::Supervisor ==> addr == APLIC_S,
{
    match mode {
        PrivMode::Machine => APLIC_M,
        PrivMode::Supervisor => APLIC_S,
    }
}

/// MMIO address of a hart's interrupt-delivery-control block.
pub fn idc_addr(hart: usize) -> (addr: usize)
    requires
        hart < 1024,
    ensures
        addr == APLIC_S_IDC + hart * 0x20,
{
    APLIC_S_IDC + hart * 0x20
}

/// The wired UART receiver line.
pub const UART_IRQ: u32 = 10;

/// Boot-time setup of the two domains: both little-endian, message-signaled
/// and enabled; the root's supervisor-level message address points at the
/// supervisor file; the wired UART source is delegated from the root to
/// child 0, given its trigger mode and message target on the child, and
/// enabled there last — trigger mode must be owned and set before the
/// enable bit, so this order is load-bearing.
pub fn aplic_init(mplic: &mut Aplic, splic: &mut Aplic)
    requires
        old(mplic)@.wf(),
        old(splic)@.wf(),
    ensures
        final(mplic)@.wf(),
        final(splic)@.wf(),
        final(mplic)@.domain_enabled() && final(mplic)@.msi_mode() && !final(mplic)@.big_endian(),
        final(splic)@.domain_enabled() && final(splic)@.msi_mode() && !final(splic)@.big_endian(),
        final(mplic)@.smsiaddrcfg == (IMSIC_S >> 12) as u32,
        final(mplic)@.delegated(UART_IRQ as int),
        final(mplic)@.delegate_child(UART_IRQ as int) == 0,
        final(splic)@.source_cfg(UART_IRQ as int) == mode_value(SourceModes::LevelHigh),
        final(splic)@.source_active(UART_IRQ as int),
        final(splic)@.target_eiid(UART_IRQ as int) == UART_IRQ,
        final(splic)@.target_hart(UART_IRQ as int) == 0,
        final(splic)@.target_guest(UART_IRQ as int) == 0,
        final(splic)@.src_enabled(UART_IRQ as int),
        forall|j: int| j != UART_IRQ ==> #[trigger] final(splic)@.src_enabled(j) == old(
            splic,
        )@.src_enabled(j),
        forall|j: int| #[trigger] final(splic)@.src_pending(j) == old(splic)@.src_pending(j),
        final(mplic)@.ie == old(mplic)@.ie && final(mplic)@.ip == old(mplic)@.ip,
        final(mplic)@.mmsiaddrcfg == old(mplic)@.mmsiaddrcfg && final(mplic)@.smsiaddrcfgh == 0,
        final(mplic)@.sourcecfg == old(mplic)@.sourcecfg.update(
            UART_IRQ - 1,
            (1u32 << 10) | 0u32,
        ),
        final(splic)@.sourcecfg == old(splic)@.sourcecfg.update(UART_IRQ - 1, 6u32),
        final(splic)@.target == old(splic)@.target.update(
            UART_IRQ - 1,
            (0u32 << 18) | (0u32 << 12) | 10u32,
        ),
{
    // Enable both domains for message-signaled delivery.
    mplic.set_domaincfg(false, true, true);
    splic.set_domaincfg(false, true, true);

    // Messages of the delegated (supervisor) domain land in the
    // supervisor-level file.
    mplic.set_msiaddr(PrivMode::Supervisor, IMSIC_S);

    // The UART's wired line belongs to the child domain from here on.
    mplic.sourcecfg_delegate(UART_IRQ, 0);

    // The message identifier written on delivery; reading the claim
    // register later hands it back.
    splic.set_target(UART_IRQ, 0, 0, UART_IRQ);

    // Trigger on a high level, i.e. while the line is asserted.
    splic.set_sourcecfg(UART_IRQ, SourceModes::LevelHigh);

    // Enable last: the trigger mode must be in place first.
    splic.set_ie(UART_IRQ, true);
}

/// The conditions under which an asserted wired line reaches the
/// supervisor-level file as a message: the root delegates the source to
/// child 0, the child domain is enabled in message-signaled mode, the
/// child owns an active trigger mode for it, its enable bit is set, and
/// the configured message identifier is a real one.
pub open spec fn wired_delivery_ok(root: AplicView, child: AplicView, irq: int) -> bool {
    &&& root.delegated(irq)
    &&& root.delegate_child(irq) == 0
    &&& child.domain_enabled()
    &&& child.msi_mode()
    &&& child.source_active(irq)
    &&& child.src_enabled(irq)
    &&& 2 <= child.target_eiid(irq) < NUM_IDS
}

/// Hardware model of a wired source asserting its line: when the routing
/// conditions hold, the child domain writes its configured message
/// identifier to the supervisor-level file, raising that pending bit;
/// otherwise nothing moves.  Returns whether a message was sent.
pub fn deliver_wired(root: &Aplic, child: &Aplic, imsic: &mut Imsic, irq: u32) -> (sent: bool)
    requires
        root@.wf(),
        child@.wf(),
        old(imsic).wf(),
        1 < irq < 1024,
    ensures
        final(imsic).wf(),
        sent == wired_delivery_ok(root@, child@, irq as int),
        sent ==> final(imsic).s@ == old(imsic).s@.with_msi(child@.target_eiid(irq as int) as int),
        !sent ==> final(imsic).s@ == old(imsic).s@,
        final(imsic).m@ == old(imsic).m@,
{
    let idx = (irq - 1) as usize;
    let rootcfg = root.sourcecfg[idx];
    let childcfg = child.sourcecfg[idx];
    let eiid = child.target[idx] & 0xFFF;
    let delegated = (rootcfg >> 10) & 1 == 1;
    let child_is_zero = rootcfg & 0x3FF == 0;
    let dom_on = (child.domaincfg >> 8) & 1 == 1;
    let msi_on = (child.domaincfg >> 2) & 1 == 1;
    let active = childcfg == 4 || childcfg == 5 || childcfg == 6 || childcfg == 7;
    let en = (child.ie[(irq / 32) as usize] >> (irq % 32)) & 1 == 1;
    if delegated && child_is_zero && dom_on && msi_on && active && en && 2 <= eiid && (eiid as usize)
        < NUM_IDS {
        imsic.s.receive_msi(eiid);
        true
    } else {
        false
    }
}

/// Law (delegation ordering): once a parent delegates identifier `irq`,
/// its configuration register reads back the delegation-marker form — bit
/// 10 set, the child index in the low bits — which is no trigger-mode
/// value; the trigger mode the child sets afterwards lives in the child's
/// own register block and leaves the parent's marker in place.
pub proof fn lemma_delegation_sticks(parent: AplicView, irq: int, child_idx: u32, m: SourceModes)
    requires
        parent.wf(),
        1 < irq < 1024,
        child_idx < 1024,
    ensures
        ({
            let p = parent.with_sourcecfg_val(irq, (1u32 << 10) | child_idx);
            &&& p.delegated(irq)
            &&& p.delegate_child(irq) == child_idx
            &&& p.source_cfg(irq) != mode_value(m)
            &&& !p.source_active(irq) == (p.source_cfg(irq) != 4 && p.source_cfg(irq) != 5
                && p.source_cfg(irq) != 6 && p.source_cfg(irq) != 7)
        }),
{
    lemma_delegate_marker(child_idx);
    lemma_mode_value_not_delegated(m);
    let p = parent.with_sourcecfg_val(irq, (1u32 << 10) | child_idx);
    assert(p.source_cfg(irq) == (1u32 << 10) | child_idx);
}

/// Decoding the packed target word recovers its three fields.
pub proof fn lemma_target_fields(hart: u32, guest: u32, eiid: u32)
    by (bit_vector)
    requires
        hart < 0x4000,
        guest < 0x40,
        eiid < 0x1000,
    ensures
        ((hart << 18) | (guest << 12) | eiid) >> 18 == hart,
        (((hart << 18) | (guest << 12) | eiid) >> 12) & 0x3F == guest,
        ((hart << 18) | (guest << 12) | eiid) & 0xFFF == eiid,
{
}

/// The domain configuration word stores its three flags at bits 8, 2 and 0.
pub proof fn lemma_domaincfg_bits(e: u32, m: u32, b: u32)
    by (bit_vector)
    requires
        e <= 1,
        m <= 1,
        b <= 1,
    ensures
        nth_bit((e << 8) | (m << 2) | b, 8) == (e == 1),
        nth_bit((e << 8) | (m << 2) | b, 2) == (m == 1),
        nth_bit((e << 8) | (m << 2) | b, 0) == (b == 1),
{
}

/// The delegation marker has bit 10 set, names the child in its low ten
/// bits, and is no trigger-mode value.
pub proof fn lemma_delegate_marker(child: u32)
    by (bit_vector)
    requires
        child < 1024,
    ensures
        nth_bit((1u32 << 10) | child, 10),
        ((1u32 << 10) | child) & 0x3FF == child,
        ((1u32 << 10) | child) > 7,
{
}

/// A trigger-mode value never carries the delegation marker.
pub proof fn lemma_mode_value_not_delegated(m: SourceModes)
    ensures
        !nth_bit(mode_value(m), 10),
        mode_value(m) <= 7,
{
    assert(!nth_bit(0u32, 10) && !nth_bit(1u32, 10) && !nth_bit(4u32, 10) && !nth_bit(5u32, 10)
        && !nth_bit(6u32, 10) && !nth_bit(7u32, 10)) by (bit_vector);
}

} // verus!
