//! PCI configuration-space enumeration over a simulated ECAM: walk every
//! (bus, slot) pair in the bounded topology, size-probe and assign the
//! base-address registers of endpoints from a per-function bump cursor,
//! program bridge windows, walk each function's capability list, and point
//! every MSI-X table entry 0 at the machine-level message file.
//!
//! A simulated base-address register keeps the hardware's read-only shape:
//! `mask` holds the writable address bits (the all-ones probe reads back
//! `mask | low`), `low` the read-only type bits, `val` the last write.

use crate::imsic::IMSIC_M;
use vstd::prelude::*;

verus! {

pub const PCI_ECAM_BASE: usize = 0x3000_0000;

pub const PCI_BAR_BASE: usize = 0x4000_0000;

pub const COMMAND_REG_MEM_SPACE: u16 = 2;

pub const COMMAND_REG_BUS_MASTER: u16 = 4;

pub const MAX_PCI_DEVICES: usize = 4;

/// The enumeration walks buses 0 through 4 and 32 slots per bus.
pub const NUM_BUSES: usize = 5;

pub const SLOTS_PER_BUS: usize = 32;

pub const NUM_BARS: usize = 6;

/// A discovered device of interest: a storage controller and the address
/// its first window was assigned.
#[derive(Clone, Copy, Debug, PartialEq, Eq, Structural)]
pub enum PciDevice {
    Nvme(usize),
}

/// MMIO address of a function's configuration space in the memory-mapped
/// layout: bus in bits 20 and up, slot in bits 15 and up.
pub fn ecam_addr(bus: usize, slot: usize) -> (addr: usize)
    requires
        bus < 256,
        slot < 32,
    ensures
        addr == PCI_ECAM_BASE | (bus << 20) | (slot << 15),
{
    PCI_ECAM_BASE | (bus << 20) | (slot << 15)
}

/// One simulated base-address register.
#[derive(Clone, Copy, Debug, PartialEq, Eq, Structural)]
pub struct Bar {
    /// The writable address bits the hardware implements.
    pub mask: u32,
    /// The read-only low bits: memory/IO flag and the 32/64-bit type.
    pub low: u32,
    /// The last value written.
    pub val: u32,
}

/// The low type bits stay below the address bits, and the address bits
/// stay above the low decode nibble.
pub open spec fn bar_wf(b: Bar) -> bool {
    b.low < 16 && b.mask & 0xF == 0
}

/// What a read of the register returns: written bits where implemented,
/// the read-only low bits elsewhere.
pub open spec fn bar_read_spec(b: Bar) -> u32 {
    (b.val & b.mask) | b.low
}

pub open spec fn bar_with_val(b: Bar, v: u32) -> Bar {
    Bar { val: v, ..b }
}

/// Read a simulated register.
pub fn bar_read(b: Bar) -> (r: u32)
    ensures
        r == bar_read_spec(b),
{
    (b.val & b.mask) | b.low
}

/// How the walk treats a register, judged from its current read value.
pub ghost enum BarClass {
    /// Unimplemented (reads zero) or an I/O-space window: skipped.
    Skip,
    /// A 32-bit memory window: one slot.
    Mem32,
    /// A 64-bit memory window: this slot and the next.
    Mem64,
    /// Reserved type bits: the topology is unknown, enumeration aborts.
    Unknown,
}

pub open spec fn bar_class(v: u32) -> BarClass {
    if v == 0 || v & 1 == 1 {
        BarClass::Skip
    } else if v >> 1 & 3 == 0 {
        BarClass::Mem32
    } else if v >> 1 & 3 == 2 {
        BarClass::Mem64
    } else {
        BarClass::Unknown
    }
}

/// What the register reads back after the all-ones probe write.
pub open spec fn probe32_readback(b: Bar) -> u32 {
    bar_read_spec(bar_with_val(b, 0xFFFF_FFFFu32))
}

/// The window size the probe discovers: mask off the low decode nibble,
/// complement, add one.
pub open spec fn probe32_size(b: Bar) -> int {
    (!(probe32_readback(b) & !0xFu32)) + 1
}

/// The 64-bit readback after the all-ones probe of a register pair.
pub open spec fn probe64_readback(lo: Bar, hi: Bar) -> u64 {
    ((probe32_readback(hi) as u64) << 32) | (probe32_readback(lo) as u64)
}

pub open spec fn probe64_size(lo: Bar, hi: Bar) -> int {
    (!(probe64_readback(lo, hi) & !0xFu64)) + 1
}

/// Law: the probed size is decided by the read-only mask and type bits
/// alone, never by the register's current value, so probing is idempotent:
/// after any write — the all-ones probe itself, or an address assignment —
/// a repeated probe computes the same size.
pub proof fn lemma_probe_idempotent(b: Bar, v: u32)
    ensures
        probe32_size(bar_with_val(b, v)) == probe32_size(b),
        forall|hi: Bar, w: u32|
            probe64_size(bar_with_val(b, v), bar_with_val(hi, w)) == probe64_size(b, hi),
{
}

/// The walk never aborts and never divides by an unimplemented window:
/// no reserved type bits, every memory window implements at least one
/// address bit, and a 64-bit window never starts in the last slot.
pub open spec fn walk_ok(bars: Seq<Bar>, i: int) -> bool
    decreases NUM_BARS - i when 0 <= i <= NUM_BARS
{
    if i < 0 || i >= NUM_BARS {
        true
    } else {
        match bar_class(bar_read_spec(bars[i])) {
            BarClass::Skip => walk_ok(bars, i + 1),
            BarClass::Mem32 => (probe32_readback(bars[i]) & !0xFu32) != 0 && walk_ok(bars, i + 1),
            BarClass::Mem64 => i + 1 < NUM_BARS && (probe64_readback(bars[i], bars[i + 1])
                & !0xFu64) != 0 && walk_ok(bars, i + 2),
            BarClass::Unknown => false,
        }
    }
}

/// The whole walk from slot `i` with cursor `addr`: the registers with
/// their assigned addresses, and the final cursor.
pub open spec fn walk_assign(bars: Seq<Bar>, i: int, addr: int) -> (Seq<Bar>, int)
    decreases NUM_BARS - i when 0 <= i <= NUM_BARS
{
    if i < 0 || i >= NUM_BARS {
        (bars, addr)
    } else {
        match bar_class(bar_read_spec(bars[i])) {
            BarClass::Skip => walk_assign(bars, i + 1, addr),
            BarClass::Mem32 => walk_assign(
                bars.update(i, bar_with_val(bars[i], (addr % 0x1_0000_0000) as u32)),
                i + 1,
                addr + probe32_size(bars[i]),
            ),
            BarClass::Mem64 => if i + 1 < NUM_BARS {
                walk_assign(
                    bars.update(i, bar_with_val(bars[i], (addr % 0x1_0000_0000) as u32)).update(
                        i + 1,
                        bar_with_val(bars[i + 1], ((addr / 0x1_0000_0000) % 0x1_0000_0000) as u32),
                    ),
                    i + 2,
                    addr + probe64_size(bars[i], bars[i + 1]),
                )
            } else {
                (bars, addr)
            },
            BarClass::Unknown => (bars, addr),
        }
    }
}

/// The cursor never moves backwards.
pub proof fn lemma_walk_addr_grows(bars: Seq<Bar>, i: int, addr: int)
    requires
        0 <= i <= NUM_BARS,
    ensures
        walk_assign(bars, i, addr).1 >= addr,
    decreases NUM_BARS - i,
{
    if i < NUM_BARS {
        match bar_class(bar_read_spec(bars[i])) {
            BarClass::Skip => lemma_walk_addr_grows(bars, i + 1, addr),
            BarClass::Mem32 => lemma_walk_addr_grows(
                bars.update(i, bar_with_val(bars[i], (addr % 0x1_0000_0000) as u32)),
                i + 1,
                addr + probe32_size(bars[i]),
            ),
            BarClass::Mem64 => if i + 1 < NUM_BARS {
                lemma_walk_addr_grows(
                    bars.update(i, bar_with_val(bars[i], (addr % 0x1_0000_0000) as u32)).update(
                        i + 1,
                        bar_with_val(bars[i + 1], ((addr / 0x1_0000_0000) % 0x1_0000_0000) as u32),
                    ),
                    i + 2,
                    addr + probe64_size(bars[i], bars[i + 1]),
                )
            } else {
            },
            BarClass::Unknown => {},
        }
    }
}

/// The walk's verdict depends only on the slots it still has to visit.
pub proof fn lemma_walk_ok_frame(b1: Seq<Bar>, b2: Seq<Bar>, i: int)
    requires
        0 <= i <= NUM_BARS,
        b1.len() == NUM_BARS,
        b2.len() == NUM_BARS,
        forall|k: int| i <= k < NUM_BARS ==> b1[k] == b2[k],
    ensures
        walk_ok(b1, i) == walk_ok(b2, i),
    decreases NUM_BARS - i,
{
    if i < NUM_BARS {
        lemma_walk_ok_frame(b1, b2, i + 1);
        if i + 2 <= NUM_BARS {
            lemma_walk_ok_frame(b1, b2, i + 2);
        }
    }
}

pub const MSIX_CAP_ID: u8 = 0x11;

/// The storage-controller device identifier the registry looks for.
pub const NVME_DEVICE_ID: u16 = 0x0010;

/// The message identifier programmed into MSI-X table entry 0.
pub const MSIX_RESERVED_EIID: u32 = 31;

/// One record of a function's capability list, at byte offset `offset` of
/// its configuration space.  The message-control word and the two
/// location words carry meaning only when the identifier names MSI-X.
#[derive(Clone, Copy, Debug, PartialEq, Eq, Structural)]
pub struct CapEntry {
    pub offset: u8,
    pub cap_id: u8,
    pub next: u8,
    pub msgcontrol: u16,
    pub table: u32,
    pub pba: u32,
}

/// MSI-X table entry 0 of a function, living in its window memory.
#[derive(Clone, Copy, Debug, PartialEq, Eq, Structural)]
pub struct MsixTable {
    pub addr: u64,
    pub data: u32,
    pub control: u32,
}

/// No two records share an offset, so a list position is found by its
/// offset alone.
pub open spec fn caps_distinct(caps: Seq<CapEntry>) -> bool {
    forall|k1: int, k2: int|
        0 <= k1 < caps.len() && 0 <= k2 < caps.len() && k1 != k2 ==> caps[k1].offset
            != caps[k2].offset
}

/// The record at offset `c`.
pub open spec fn find_cap(caps: Seq<CapEntry>, c: u8) -> int {
    choose|k: int| 0 <= k < caps.len() && caps[k].offset == c
}

pub open spec fn cap_exists(caps: Seq<CapEntry>, c: u8) -> bool {
    exists|k: int| 0 <= k < caps.len() && caps[k].offset == c
}

/// The chain from offset `c` is well formed: each reached record exists,
/// its next link is zero or strictly beyond it (so the walk ends), and a
/// reached MSI-X record points its table and pending array at real
/// window slots.
pub open spec fn chain_ok(caps: Seq<CapEntry>, c: u8) -> bool
    decreases 256 - c,
{
    if c == 0 {
        true
    } else if !cap_exists(caps, c) {
        false
    } else {
        let e = caps[find_cap(caps, c)];
        &&& (e.cap_id == MSIX_CAP_ID ==> (e.table & 7) < 6 && (e.pba & 7) < 6)
        &&& (e.next == 0 || (e.next > c && chain_ok(caps, e.next)))
    }
}

/// The address a window register resolved to: its read value without the
/// low decode nibble.
pub open spec fn bar_addr_spec(bars: Seq<Bar>, which: int) -> u32 {
    bar_read_spec(bars[which]) & !0xFu32
}

/// Endpoint-specific simulated state: the six window registers, the
/// capability list, and the MSI-X state the walk programs.
pub struct Type0 {
    pub bars: Vec<Bar>,
    pub capes_pointer: u8,
    pub caps: Vec<CapEntry>,
    pub msix_table_addr: u64,
    pub msix_pba_addr: u64,
    pub msix_entry: MsixTable,
}

pub ghost struct Type0View {
    pub bars: Seq<Bar>,
    pub capes_pointer: u8,
    pub caps: Seq<CapEntry>,
    pub msix_table_addr: u64,
    pub msix_pba_addr: u64,
    pub msix_entry: MsixTable,
}

impl View for Type0 {
    type V = Type0View;

    open spec fn view(&self) -> Type0View {
        Type0View {
            bars: self.bars@,
            capes_pointer: self.capes_pointer,
            caps: self.caps@,
            msix_table_addr: self.msix_table_addr,
            msix_pba_addr: self.msix_pba_addr,
            msix_entry: self.msix_entry,
        }
    }
}

/// Bridge-specific simulated state: bus numbers and the memory window.
#[derive(Clone, Copy, Debug, PartialEq, Eq, Structural)]
pub struct Type1 {
    pub primary_bus_no: u8,
    pub secondary_bus_no: u8,
    pub subordinate_bus_no: u8,
    pub memory_base: u16,
    pub memory_limit: u16,
    pub prefetch_memory_base: u16,
    pub prefetch_memory_limit: u16,
}

/// The type-specific half of a function's configuration space, selected
/// by the header-type field.
pub enum HeaderBody {
    Endpoint(Type0),
    Bridge(Type1),
}

pub ghost enum BodyView {
    Endpoint(Type0View),
    Bridge(Type1),
}

impl View for HeaderBody {
    type V = BodyView;

    open spec fn view(&self) -> BodyView {
        match self {
            HeaderBody::Endpoint(t) => BodyView::Endpoint(t@),
            HeaderBody::Bridge(t) => BodyView::Bridge(*t),
        }
    }
}

/// One function's simulated configuration space.
pub struct Ecam {
    pub vendor_id: u16,
    pub device_id: u16,
    pub command_reg: u16,
    pub status_reg: u16,
    pub header_type: u8,
    pub body: HeaderBody,
}

pub ghost struct EcamView {
    pub vendor_id: u16,
    pub device_id: u16,
    pub command_reg: u16,
    pub status_reg: u16,
    pub header_type: u8,
    pub body: BodyView,
}

impl View for Ecam {
    type V = EcamView;

    open spec fn view(&self) -> EcamView {
        EcamView {
            vendor_id: self.vendor_id,
            device_id: self.device_id,
            command_reg: self.command_reg,
            status_reg: self.status_reg,
            header_type: self.header_type,
            body: self.body@,
        }
    }
}

/// What programming one MSI-X record does: set the enable bit in message
/// control (the table-size bits are read-only), resolve the table and
/// pending-array addresses through the already-assigned windows, and aim
/// table entry 0 at the machine-level message file with the reserved
/// message identifier, unmasked.
pub open spec fn msix_apply(t: Type0View, k: int) -> Type0View {
    let e = t.caps[k];
    let tabba = (bar_addr_spec(t.bars, (e.table & 7) as int) as int) + ((e.table & !7u32) as int);
    let pbaba = (bar_addr_spec(t.bars, (e.pba & 7) as int) as int) + ((e.pba & !7u32) as int);
    Type0View {
        caps: t.caps.update(
            k,
            CapEntry { msgcontrol: (e.msgcontrol & 0x07FF) | 0x8000, ..e },
        ),
        msix_table_addr: tabba as u64,
        msix_pba_addr: pbaba as u64,
        msix_entry: MsixTable { addr: IMSIC_M as u64, data: MSIX_RESERVED_EIID, control: 0 },
        ..t
    }
}

/// The capability walk from offset `c`: follow next links until zero,
/// programming every MSI-X record passed.
pub open spec fn caps_walk(t: Type0View, c: u8) -> Type0View
    decreases 256 - c,
{
    if c == 0 || !cap_exists(t.caps, c) {
        t
    } else {
        let k = find_cap(t.caps, c);
        let e = t.caps[k];
        let t1 = if e.cap_id == MSIX_CAP_ID {
            msix_apply(t, k)
        } else {
            t
        };
        if e.next > c {
            caps_walk(t1, e.next)
        } else {
            t1
        }
    }
}

/// The chain's shape ignores the message-control words, which are all the
/// walk changes.
pub proof fn lemma_chain_ok_frame(c1: Seq<CapEntry>, c2: Seq<CapEntry>, c: u8)
    requires
        caps_distinct(c1),
        c1.len() == c2.len(),
        forall|k: int|
            0 <= k < c1.len() ==> c1[k].offset == c2[k].offset && c1[k].next == c2[k].next
                && c1[k].cap_id == c2[k].cap_id && c1[k].table == c2[k].table && c1[k].pba
                == c2[k].pba,
        chain_ok(c1, c),
    ensures
        chain_ok(c2, c),
        c != 0 ==> cap_exists(c2, c) && find_cap(c2, c) == find_cap(c1, c),
    decreases 256 - c,
{
    if c != 0 {
        let k1 = find_cap(c1, c);
        assert(0 <= k1 < c1.len() && c1[k1].offset == c);
        assert(c2[k1].offset == c);
        assert(cap_exists(c2, c));
        let k2 = find_cap(c2, c);
        assert(0 <= k2 < c2.len() && c2[k2].offset == c);
        assert(c1[k2].offset == c);
        assert(k2 == k1);
        let e = c1[k1];
        if e.next > c {
            lemma_chain_ok_frame(c1, c2, e.next);
        }
    }
}

/// Does the function advertise a capability list?
pub open spec fn cap_present(e: EcamView) -> bool {
    (e.status_reg >> 4) & 1 == 1
}

/// Start of the window region a function's cursor runs through.
pub open spec fn bar_base(bus: u64, slot: u64) -> u64 {
    (PCI_BAR_BASE as u64) | (bus << 20) | (slot << 16)
}

/// A present function's simulated state lets enumeration run to the end:
/// the header type names the body's variant, windows are well-shaped, the
/// cursor cannot overflow, and an advertised capability list is a clean
/// chain.
pub open spec fn ecam_wf(e: EcamView, bus: u64, slot: u64) -> bool {
    e.vendor_id != 0xFFFF ==> match e.body {
        BodyView::Endpoint(t) => {
            &&& e.header_type == 0
            &&& t.bars.len() == NUM_BARS
            &&& (forall|k: int| 0 <= k < NUM_BARS ==> bar_wf(#[trigger] t.bars[k]))
            &&& walk_ok(t.bars, 0)
            &&& walk_assign(t.bars, 0, bar_base(bus, slot) as int).1 <= u64::MAX
            &&& caps_distinct(t.caps)
            &&& (cap_present(e) ==> chain_ok(t.caps, t.capes_pointer))
        },
        BodyView::Bridge(_) => e.header_type == 1,
    }
}

/// What endpoint setup does: clear the command register while probing,
/// size and assign every memory window from the function's cursor, enable
/// memory space and bus mastering, then walk the capability list.
pub open spec fn setup_type0_spec(e: EcamView, bus: u64, slot: u64) -> EcamView {
    match e.body {
        BodyView::Endpoint(t) => {
            let bars2 = walk_assign(t.bars, 0, bar_base(bus, slot) as int).0;
            let t2 = Type0View { bars: bars2, ..t };
            let t3 = if cap_present(e) {
                caps_walk(t2, t.capes_pointer)
            } else {
                t2
            };
            EcamView {
                command_reg: COMMAND_REG_BUS_MASTER | COMMAND_REG_MEM_SPACE,
                body: BodyView::Endpoint(t3),
                ..e
            }
        },
        BodyView::Bridge(_) => e,
    }
}

/// What bridge setup does: enable memory space and program the fixed
/// 1 MiB window keyed by the bridge's slot, which doubles as its
/// secondary bus number.
pub open spec fn setup_type1_spec(e: EcamView, bus: u64, slot: u64) -> EcamView {
    let addrst = (PCI_BAR_BASE as u64) | (slot << 20);
    let addred = ((addrst + 0xFFFFF) as u64);
    EcamView {
        command_reg: COMMAND_REG_MEM_SPACE,
        body: BodyView::Bridge(
            Type1 {
                primary_bus_no: bus as u8,
                secondary_bus_no: slot as u8,
                subordinate_bus_no: slot as u8,
                memory_base: (addrst >> 16) as u16,
                memory_limit: (addred >> 16) as u16,
                prefetch_memory_base: (addrst >> 16) as u16,
                prefetch_memory_limit: (addred >> 16) as u16,
            },
        ),
        ..e
    }
}

/// What visiting one (bus, slot) pair does: nothing for an absent
/// function, endpoint setup or bridge setup for a present one.
pub open spec fn setup_spec(e: EcamView, bus: u64, slot: u64) -> EcamView {
    if e.vendor_id == 0xFFFF {
        e
    } else if e.header_type == 0 {
        setup_type0_spec(e, bus, slot)
    } else {
        setup_type1_spec(e, bus, slot)
    }
}

/// The device a visited function contributes to the registry, judged on
/// its state after setup.
pub open spec fn discovered_device(e: EcamView) -> Option<PciDevice> {
    if e.vendor_id != 0xFFFF && e.header_type == 0 && e.device_id == NVME_DEVICE_ID {
        match e.body {
            BodyView::Endpoint(t) => Some(PciDevice::Nvme(bar_addr_spec(t.bars, 0) as usize)),
            BodyView::Bridge(_) => None,
        }
    } else {
        None
    }
}

/// Read a window's assigned address straight from the register, stripping
/// the low decode nibble.
pub fn get_bar_addr(t: &Type0, which: usize) -> (r: usize)
    requires
        t@.bars.len() == NUM_BARS,
        which < NUM_BARS,
    ensures
        r == bar_addr_spec(t@.bars, which as int) as usize,
{
    (bar_read(t.bars[which]) & !0xFu32) as usize
}

/// Index of the capability record at offset `c`.
fn find_cap_index(t: &Type0, c: u8) -> (k: usize)
    requires
        cap_exists(t@.caps, c),
        caps_distinct(t@.caps),
    ensures
        k < t@.caps.len(),
        t@.caps[k as int].offset == c,
        k as int == find_cap(t@.caps, c),
{
    let mut k: usize = 0;
    while k < t.caps.len()
        invariant
            k <= t@.caps.len(),
            cap_exists(t@.caps, c),
            caps_distinct(t@.caps),
            forall|j: int| 0 <= j < k ==> t@.caps[j].offset != c,
        decreases t@.caps.len() - k,
    {
        if t.caps[k].offset == c {
            proof {
                let kk = find_cap(t@.caps, c);
                assert(0 <= kk < t@.caps.len() && t@.caps[kk].offset == c);
            }
            return k;
        }
        k = k + 1;
    }
    proof {
        let kk = find_cap(t@.caps, c);
        assert(0 <= kk < t@.caps.len() && t@.caps[kk].offset == c);
        assert(false);
    }
    0
}

/// Program one MSI-X record: set the enable bit (table size is
/// read-only), resolve table and pending-array addresses through the
/// assigned windows, and aim table entry 0 at the machine-level message
/// file.  Returns the advertised table size.
fn setup_msix(t: &mut Type0, k: usize) -> (tabsize: u16)
    requires
        old(t)@.bars.len() == NUM_BARS,
        k < old(t)@.caps.len(),
        (old(t)@.caps[k as int].table & 7) < 6,
        (old(t)@.caps[k as int].pba & 7) < 6,
    ensures
        final(t)@ == msix_apply(old(t)@, k as int),
        tabsize == (old(t)@.caps[k as int].msgcontrol & 0x3FF) + 1,
{
    let e = t.caps[k];
    let table_offset = e.table & !7u32;
    let table_bir = (e.table & 7) as usize;
    let pba_offset = e.pba & !7u32;
    let pba_bir = (e.pba & 7) as usize;
    let tabba: u64 = (get_bar_addr(t, table_bir) as u64) + (table_offset as u64);
    let pbaba: u64 = (get_bar_addr(t, pba_bir) as u64) + (pba_offset as u64);

    // The write sets only the enable bit; the size bits are read-only in
    // hardware.
    t.caps[k] = CapEntry { msgcontrol: (e.msgcontrol & 0x07FF) | 0x8000, ..e };
    let mcv = t.caps[k].msgcontrol;
    proof {
        assert(mcv & 0x3FF < 0x400) by (bit_vector);
    }
    let tabsize = (mcv & 0x3FF) + 1;
    t.msix_table_addr = tabba;
    t.msix_pba_addr = pbaba;
    t.msix_entry = MsixTable { addr: IMSIC_M as u64, data: MSIX_RESERVED_EIID, control: 0 };
    proof {
        assert(t@.caps =~= old(t)@.caps.update(
            k as int,
            CapEntry { msgcontrol: (e.msgcontrol & 0x07FF) | 0x8000, ..e },
        ));
        let mc = e.msgcontrol;
        assert(((mc & 0x07FF) | 0x8000) & 0x3FF == mc & 0x3FF) by (bit_vector);
    }
    tabsize
}

/// Walk the capability list when the status register advertises one,
/// programming every MSI-X record found.
fn enum_caps(t: &mut Type0, status_reg: u16)
    requires
        old(t)@.bars.len() == NUM_BARS,
        caps_distinct(old(t)@.caps),
        (status_reg >> 4) & 1 == 1 ==> chain_ok(old(t)@.caps, old(t)@.capes_pointer),
    ensures
        (status_reg >> 4) & 1 == 1 ==> final(t)@ == caps_walk(old(t)@, old(t)@.capes_pointer),
        (status_reg >> 4) & 1 != 1 ==> *final(t) == *old(t),
{
    if (status_reg >> 4) & 1 != 1 {
        // No capabilities advertised.
        return ;
    }
    let ghost orig = t@;
    let mut c: u8 = t.capes_pointer;
    while c != 0
        invariant
            t@.bars == orig.bars,
            t@.bars.len() == NUM_BARS,
            t@.capes_pointer == orig.capes_pointer,
            t@.caps.len() == orig.caps.len(),
            forall|j: int|
                0 <= j < orig.caps.len() ==> t@.caps[j].offset == orig.caps[j].offset
                    && t@.caps[j].next == orig.caps[j].next && t@.caps[j].cap_id
                    == orig.caps[j].cap_id && t@.caps[j].table == orig.caps[j].table
                    && t@.caps[j].pba == orig.caps[j].pba,
            caps_distinct(t@.caps),
            chain_ok(t@.caps, c),
            caps_walk(t@, c) == caps_walk(orig, orig.capes_pointer),
        decreases (if c == 0 { 0int } else { 256 - c }),
    {
        let k = find_cap_index(t, c);
        let e = t.caps[k];
        let ghost t_before = t@;
        if e.cap_id == MSIX_CAP_ID {
            setup_msix(t, k);
        }
        proof {
            let t1 = if e.cap_id == MSIX_CAP_ID {
                msix_apply(t_before, k as int)
            } else {
                t_before
            };
            assert(t@ == t1);
            assert forall|j: int| 0 <= j < orig.caps.len() implies t@.caps[j].offset
                == orig.caps[j].offset && t@.caps[j].next == orig.caps[j].next && t@.caps[j].cap_id
                == orig.caps[j].cap_id && t@.caps[j].table == orig.caps[j].table && t@.caps[j].pba
                == orig.caps[j].pba by {}
            assert(caps_distinct(t@.caps));
            if e.next != 0 {
                assert(e.next > c);
                lemma_chain_ok_frame(t_before.caps, t@.caps, e.next);
            }
        }
        c = e.next;
    }
}

/// The capability walk touches only the capability records and the MSI-X
/// state; windows and the list head stay put.
pub proof fn lemma_caps_walk_frame(t: Type0View, c: u8)
    ensures
        caps_walk(t, c).bars == t.bars,
        caps_walk(t, c).capes_pointer == t.capes_pointer,
        caps_walk(t, c).caps.len() == t.caps.len(),
    decreases 256 - c,
{
    if c != 0 && cap_exists(t.caps, c) {
        let k = find_cap(t.caps, c);
        let e = t.caps[k];
        let t1 = if e.cap_id == MSIX_CAP_ID {
            msix_apply(t, k)
        } else {
            t
        };
        if e.next > c {
            lemma_caps_walk_frame(t1, e.next);
        }
    }
}

/// Endpoint setup: clear the command register, probe and assign every
/// window, enable memory space and bus mastering, walk the capability
/// list, and report the function for registration if it is a storage
/// controller.
pub fn pci_setup_type0(e: &mut Ecam, bus: usize, slot: usize) -> (dev: Option<PciDevice>)
    requires
        old(e)@.vendor_id != 0xFFFF,
        old(e)@.header_type == 0,
        ecam_wf(old(e)@, bus as u64, slot as u64),
    ensures
        final(e)@ == setup_type0_spec(old(e)@, bus as u64, slot as u64),
        dev == discovered_device(final(e)@),
{
    let mut baraddr: u64 = (PCI_BAR_BASE as u64) | ((bus as u64) << 20) | ((slot as u64) << 16);
    e.command_reg = 0;
    let status = e.status_reg;
    let device_id = e.device_id;
    let dev: Option<PciDevice>;
    match &mut e.body {
        HeaderBody::Endpoint(t) => {
            let ghost orig_bars = t@.bars;
            let ghost orig_addr = baraddr as int;
            let ghost target = walk_assign(orig_bars, 0, orig_addr);
            let mut i: usize = 0;
            while i < NUM_BARS
                invariant
                    t@.bars.len() == NUM_BARS,
                    forall|k: int| 0 <= k < NUM_BARS ==> bar_wf(#[trigger] t@.bars[k]),
                    0 <= i <= NUM_BARS,
                    walk_ok(t@.bars, i as int),
                    walk_assign(t@.bars, i as int, baraddr as int) == target,
                    target.1 <= u64::MAX,
                    t@.capes_pointer == old(e)@.body->Endpoint_0.capes_pointer,
                    t@.caps == old(e)@.body->Endpoint_0.caps,
                    t@.msix_table_addr == old(e)@.body->Endpoint_0.msix_table_addr,
                    t@.msix_pba_addr == old(e)@.body->Endpoint_0.msix_pba_addr,
                    t@.msix_entry == old(e)@.body->Endpoint_0.msix_entry,
                decreases NUM_BARS - i,
            {
                let ghost bars_at = t@.bars;
                let ghost addr_at = baraddr as int;
                let barval = bar_read(t.bars[i]);
                if barval == 0 || barval & 1 == 1 {
                    // Unimplemented, or an I/O window: skip the slot.
                    i = i + 1;
                } else {
                    let bartype = barval >> 1 & 3;
                    if bartype == 0 {
                        // A 32-bit window: probe with all ones, mask the
                        // decode nibble, complement, add one.
                        let b = t.bars[i];
                        t.bars[i] = Bar { val: 0xFFFF_FFFF, ..b };
                        let rb = bar_read(t.bars[i]);
                        let masked = rb & !0xFu32;
                        proof {
                            assert(bar_class(bar_read_spec(bars_at[i as int]))
                                == BarClass::Mem32);
                            assert(masked == (probe32_readback(bars_at[i as int]) & !0xFu32));
                            assert(masked != 0);
                            assert(!masked < 0xFFFF_FFFFu32) by (bit_vector)
                                requires
                                    masked != 0,
                            ;
                        }
                        let barsize = !masked + 1;
                        let b2 = t.bars[i];
                        t.bars[i] = Bar { val: #[verifier::truncate] (baraddr as u32), ..b2 };
                        proof {
                            assert(t@.bars =~= bars_at.update(
                                i as int,
                                bar_with_val(bars_at[i as int], (addr_at % 0x1_0000_0000) as u32),
                            )) by {
                                assert(baraddr as u32 == (baraddr % 0x1_0000_0000u64) as u32)
                                    by (bit_vector);
                            }
                            lemma_walk_addr_grows(t@.bars, i as int + 1, addr_at + barsize);
                            lemma_walk_ok_frame(bars_at, t@.bars, i as int + 1);
                        }
                        baraddr = baraddr + (barsize as u64);
                        i = i + 1;
                    } else if bartype == 2 {
                        // A 64-bit window: this slot and the next together.
                        proof {
                            assert(i + 1 < NUM_BARS);
                        }
                        let lo = t.bars[i];
                        let hi = t.bars[i + 1];
                        t.bars[i] = Bar { val: 0xFFFF_FFFF, ..lo };
                        t.bars[i + 1] = Bar { val: 0xFFFF_FFFF, ..hi };
                        let rb_lo = bar_read(t.bars[i]);
                        let rb_hi = bar_read(t.bars[i + 1]);
                        let rb64: u64 = ((rb_hi as u64) << 32) | (rb_lo as u64);
                        let masked64 = rb64 & !0xFu64;
                        proof {
                            assert(bar_class(bar_read_spec(bars_at[i as int]))
                                == BarClass::Mem64);
                            assert(rb64 == probe64_readback(
                                bars_at[i as int],
                                bars_at[i as int + 1],
                            ));
                            assert(masked64 != 0);
                            assert(!masked64 < 0xFFFF_FFFF_FFFF_FFFFu64) by (bit_vector)
                                requires
                                    masked64 != 0,
                            ;
                        }
                        let barsize64 = !masked64 + 1;
                        let lo2 = t.bars[i];
                        t.bars[i] = Bar { val: #[verifier::truncate] (baraddr as u32), ..lo2 };
                        let hi2 = t.bars[i + 1];
                        t.bars[i + 1] = Bar { val: #[verifier::truncate] ((baraddr >> 32) as u32), ..hi2 };
                        proof {
                            assert(t@.bars =~= bars_at.update(
                                i as int,
                                bar_with_val(bars_at[i as int], (addr_at % 0x1_0000_0000) as u32),
                            ).update(
                                i as int + 1,
                                bar_with_val(
                                    bars_at[i as int + 1],
                                    ((addr_at / 0x1_0000_0000) % 0x1_0000_0000) as u32,
                                ),
                            )) by {
                                assert(baraddr as u32 == (baraddr % 0x1_0000_0000u64) as u32)
                                    by (bit_vector);
                                assert((baraddr >> 32) as u32 == ((baraddr / 0x1_0000_0000u64)
                                    % 0x1_0000_0000u64) as u32) by (bit_vector);
                            }
                            lemma_walk_addr_grows(t@.bars, i as int + 2, addr_at + barsize64);
                            lemma_walk_ok_frame(bars_at, t@.bars, i as int + 2);
                        }
                        baraddr = baraddr + barsize64;
                        i = i + 2;
                    } else {
                        // Reserved type bits: ruled out by the topology
                        // assumption.
                        proof {
                            assert(false);
                        }
                        i = i + 1;
                    }
                }
            }
            enum_caps(t, status);
            proof {
                lemma_caps_walk_frame(
                    Type0View { bars: target.0, ..old(e)@.body->Endpoint_0 },
                    old(e)@.body->Endpoint_0.capes_pointer,
                );
            }
            let addr0 = get_bar_addr(t, 0);
            dev = if device_id == NVME_DEVICE_ID {
                Some(PciDevice::Nvme(addr0))
            } else {
                None
            };
        },
        HeaderBody::Bridge(_) => {
            proof {
                assert(false);
            }
            dev = None;
        },
    }
    e.command_reg = COMMAND_REG_BUS_MASTER | COMMAND_REG_MEM_SPACE;
    dev
}

/// Bridge setup: enable memory space and program the fixed 1 MiB window
/// keyed by the bridge's slot number, which becomes its secondary and
/// subordinate bus number.
pub fn pci_setup_type1(e: &mut Ecam, bus: usize, slot: usize)
    requires
        old(e)@.vendor_id != 0xFFFF,
        old(e)@.header_type == 1,
        ecam_wf(old(e)@, bus as u64, slot as u64),
        bus < NUM_BUSES,
        slot < SLOTS_PER_BUS,
    ensures
        final(e)@ == setup_type1_spec(old(e)@, bus as u64, slot as u64),
{
    let addrst: u64 = (PCI_BAR_BASE as u64) | ((slot as u64) << 20);
    proof {
        assert((0x4000_0000u64 | ((slot as u64) << 20)) < 0x8000_0000u64) by (bit_vector)
            requires
                slot < 32,
        ;
    }
    let addred: u64 = addrst + 0xFFFFF;
    e.command_reg = COMMAND_REG_MEM_SPACE;
    match &mut e.body {
        HeaderBody::Bridge(t) => {
            t.memory_base = (addrst >> 16) as u16;
            t.memory_limit = (addred >> 16) as u16;
            t.prefetch_memory_base = (addrst >> 16) as u16;
            t.prefetch_memory_limit = (addred >> 16) as u16;
            t.primary_bus_no = bus as u8;
            t.secondary_bus_no = slot as u8;
            t.subordinate_bus_no = slot as u8;
        },
        HeaderBody::Endpoint(_) => {
            proof {
                assert(false);
            }
        },
    }
}

/// Law (size probe): a 32-bit memory window consumes exactly one slot —
/// the walk assigns the cursor to that register alone, advances the
/// cursor by the probed size (masked readback, complemented, plus one)
/// and continues at the next slot; a 64-bit window consumes exactly the
/// two consecutive slots and advances by the size probed from the
/// combined readback.
pub proof fn lemma_probe_slots(bars: Seq<Bar>, i: int, addr: int)
    requires
        0 <= i < NUM_BARS,
        walk_ok(bars, i),
    ensures
        bar_class(bar_read_spec(bars[i])) == BarClass::Mem32 ==> walk_assign(bars, i, addr)
            == walk_assign(
            bars.update(i, bar_with_val(bars[i], (addr % 0x1_0000_0000) as u32)),
            i + 1,
            addr + probe32_size(bars[i]),
        ),
        bar_class(bar_read_spec(bars[i])) == BarClass::Mem64 ==> i + 1 < NUM_BARS && walk_assign(
            bars,
            i,
            addr,
        ) == walk_assign(
            bars.update(i, bar_with_val(bars[i], (addr % 0x1_0000_0000) as u32)).update(
                i + 1,
                bar_with_val(bars[i + 1], ((addr / 0x1_0000_0000) % 0x1_0000_0000) as u32),
            ),
            i + 2,
            addr + probe64_size(bars[i], bars[i + 1]),
        ),
{
}

/// Law (determinism): what enumeration leaves in a function's registers
/// is a function of that function's own initial state and its (bus, slot)
/// address alone — the cursor restarts from the same base for the same
/// pair, so two runs over equal simulated spaces assign identical
/// addresses.
pub proof fn lemma_enumeration_deterministic(e1: Ecam, e2: Ecam, bus: u64, slot: u64)
    requires
        e1@ == e2@,
    ensures
        setup_spec(e1@, bus, slot) == setup_spec(e2@, bus, slot),
        discovered_device(setup_spec(e1@, bus, slot)) == discovered_device(
            setup_spec(e2@, bus, slot),
        ),
{
}

/// The simulated configuration space: one function per (bus, slot) pair
/// of the bounded topology, at index `bus * 32 + slot`.
pub struct ConfigSpace {
    pub funcs: Vec<Ecam>,
}

/// Every function of the topology is present in the table and, when its
/// vendor answers, shaped so that enumeration runs to the end.
pub open spec fn cs_wf(funcs: Seq<Ecam>) -> bool {
    &&& funcs.len() == NUM_BUSES * SLOTS_PER_BUS
    &&& forall|k: int|
        0 <= k < NUM_BUSES * SLOTS_PER_BUS ==> ecam_wf(
            #[trigger] funcs[k]@,
            (k / 32) as u64,
            (k % 32) as u64,
        )
}

/// The fixed-capacity registry of discovered devices, and the one-shot
/// flag that keeps enumeration from running twice.
pub struct Pci {
    pub initialized: bool,
    pub devices: Vec<PciDevice>,
}

impl Pci {
    pub open spec fn wf(self) -> bool {
        self.devices@.len() <= MAX_PCI_DEVICES
    }

    pub fn new() -> (p: Pci)
        ensures
            p.wf(),
            !p.initialized,
            p.devices@ == Seq::<PciDevice>::empty(),
    {
        Pci { initialized: false, devices: Vec::new() }
    }
}

/// Record a discovered device.  When the registry is full the device is
/// reported lost (false) and enumeration goes on; nothing crashes.
pub fn pci_add_device(pci: &mut Pci, dev: PciDevice) -> (ok: bool)
    requires
        old(pci).wf(),
    ensures
        final(pci).wf(),
        ok == (old(pci).devices@.len() < MAX_PCI_DEVICES),
        ok ==> final(pci).devices@ == old(pci).devices@.push(dev) && final(pci).initialized == old(
            pci,
        ).initialized,
        !ok ==> *final(pci) == *old(pci),
{
    if pci.devices.len() < MAX_PCI_DEVICES {
        pci.devices.push(dev);
        true
    } else {
        false
    }
}

/// What recording one device does to the registry's contents.
pub open spec fn reg_add(s: Seq<PciDevice>, d: PciDevice) -> Seq<PciDevice> {
    if s.len() < MAX_PCI_DEVICES {
        s.push(d)
    } else {
        s
    }
}

pub open spec fn reg_fold(s0: Seq<PciDevice>, ds: Seq<PciDevice>) -> Seq<PciDevice>
    decreases ds.len(),
{
    if ds.len() == 0 {
        s0
    } else {
        reg_fold(reg_add(s0, ds[0]), ds.drop_first())
    }
}

/// The devices the functions at indices `lo..hi` contribute, in scan
/// order, judged on their post-setup state.
pub open spec fn discovered_between(funcs: Seq<Ecam>, lo: int, hi: int) -> Seq<PciDevice>
    decreases hi - lo,
{
    if lo >= hi {
        Seq::empty()
    } else {
        match discovered_device(funcs[lo]@) {
            Option::Some(d) => seq![d] + discovered_between(funcs, lo + 1, hi),
            Option::None => discovered_between(funcs, lo + 1, hi),
        }
    }
}

/// Scanning one function further appends at most its device.
pub proof fn lemma_discovered_snoc(funcs: Seq<Ecam>, lo: int, hi: int)
    requires
        lo <= hi,
    ensures
        discovered_between(funcs, lo, hi + 1) == (match discovered_device(funcs[hi]@) {
            Option::Some(d) => discovered_between(funcs, lo, hi).push(d),
            Option::None => discovered_between(funcs, lo, hi),
        }),
    decreases hi - lo,
{
    if lo >= hi {
        assert(discovered_between(funcs, hi + 1, hi + 1) == Seq::<PciDevice>::empty());
        assert(discovered_between(funcs, lo, hi) == Seq::<PciDevice>::empty());
        match discovered_device(funcs[hi]@) {
            Option::Some(d) => {
                assert(discovered_between(funcs, lo, hi + 1) =~= discovered_between(
                    funcs,
                    lo,
                    hi,
                ).push(d));
            },
            Option::None => {},
        }
    } else {
        lemma_discovered_snoc(funcs, lo + 1, hi);
        match discovered_device(funcs[hi]@) {
            Option::Some(d) => {
                assert(discovered_between(funcs, lo, hi + 1) =~= discovered_between(
                    funcs,
                    lo,
                    hi,
                ).push(d));
            },
            Option::None => {},
        }
    }
}

/// What a scan sees depends only on the scanned range.
pub proof fn lemma_discovered_frame(f1: Seq<Ecam>, f2: Seq<Ecam>, lo: int, hi: int)
    requires
        forall|k: int| lo <= k < hi ==> f1[k] == f2[k],
    ensures
        discovered_between(f1, lo, hi) == discovered_between(f2, lo, hi),
    decreases hi - lo,
{
    if lo < hi {
        lemma_discovered_frame(f1, f2, lo + 1, hi);
    }
}

/// Folding one more device is one registry step.
pub proof fn lemma_reg_fold_snoc(s0: Seq<PciDevice>, ds: Seq<PciDevice>, d: PciDevice)
    ensures
        reg_fold(s0, ds.push(d)) == reg_add(reg_fold(s0, ds), d),
    decreases ds.len(),
{
    if ds.len() == 0 {
        assert(ds.push(d).drop_first() =~= ds);
        assert(reg_fold(s0, ds.push(d)) == reg_fold(reg_add(s0, d), ds));
    } else {
        assert(ds.push(d).drop_first() =~= ds.drop_first().push(d));
        lemma_reg_fold_snoc(reg_add(s0, ds[0]), ds.drop_first(), d);
    }
}

/// Law: the registry keeps the first devices in scan order up to its
/// fixed capacity; whatever is reported past capacity is dropped, never
/// overwritten.
pub proof fn lemma_registry_capacity(s0: Seq<PciDevice>, ds: Seq<PciDevice>)
    requires
        s0.len() <= MAX_PCI_DEVICES,
    ensures
        reg_fold(s0, ds) == (if s0.len() + ds.len() <= MAX_PCI_DEVICES {
            s0 + ds
        } else {
            (s0 + ds).take(MAX_PCI_DEVICES as int)
        }),
    decreases ds.len(),
{
    if ds.len() == 0 {
        assert(s0 + ds =~= s0);
    } else {
        lemma_registry_capacity(reg_add(s0, ds[0]), ds.drop_first());
        if s0.len() < MAX_PCI_DEVICES {
            assert(s0.push(ds[0]) + ds.drop_first() =~= s0 + ds);
        } else {
            if ds.drop_first().len() == 0 {
                assert(s0 + ds.drop_first() =~= s0);
                assert((s0 + ds).take(MAX_PCI_DEVICES as int) =~= s0);
            } else {
                assert((s0 + ds.drop_first()).take(MAX_PCI_DEVICES as int) =~= (s0 + ds).take(
                    MAX_PCI_DEVICES as int,
                ));
            }
        }
    }
}

/// Visit one (bus, slot) pair: read the vendor, skip absent functions,
/// and dispatch on the header type.  Returns the device to register, if
/// the function is one of interest.
pub fn pci_setup(cfg: &mut ConfigSpace, bus: usize, slot: usize) -> (dev: Option<PciDevice>)
    requires
        old(cfg).funcs@.len() == NUM_BUSES * SLOTS_PER_BUS,
        bus < NUM_BUSES,
        slot < SLOTS_PER_BUS,
        ecam_wf(old(cfg).funcs@[bus * 32 + slot]@, bus as u64, slot as u64),
    ensures
        final(cfg).funcs@.len() == old(cfg).funcs@.len(),
        forall|k: int|
            0 <= k < NUM_BUSES * SLOTS_PER_BUS && k != bus * 32 + slot ==> final(cfg).funcs@[k]
                == old(cfg).funcs@[k],
        final(cfg).funcs@[bus * 32 + slot]@ == setup_spec(
            old(cfg).funcs@[bus * 32 + slot]@,
            bus as u64,
            slot as u64,
        ),
        dev == discovered_device(final(cfg).funcs@[bus * 32 + slot]@),
{
    let idx = bus * 32 + slot;
    let vendor = cfg.funcs[idx].vendor_id;
    let header = cfg.funcs[idx].header_type;
    if vendor == 0xffff {
        // Vendor all-ones: nothing answers at this address.
        proof {
            assert(final(cfg).funcs@ =~= old(cfg).funcs@);
        }
        None
    } else if header == 0 {
        pci_setup_type0(&mut cfg.funcs[idx], bus, slot)
    } else {
        pci_setup_type1(&mut cfg.funcs[idx], bus, slot);
        None
    }
}

/// Enumerate the whole topology once: walk every bus and slot (skipping
/// the root's own slot), set every present function up, and fill the
/// registry with the devices of interest in scan order.  A second call
/// finds the flag set and changes nothing.
pub fn pci_init(pci: &mut Pci, cfg: &mut ConfigSpace)
    requires
        old(pci).wf(),
        cs_wf(old(cfg).funcs@),
    ensures
        final(pci).wf(),
        old(pci).initialized ==> *final(pci) == *old(pci) && *final(cfg) == *old(cfg),
        !old(pci).initialized ==> ({
            &&& final(pci).initialized
            &&& final(cfg).funcs@.len() == NUM_BUSES * SLOTS_PER_BUS
            &&& final(cfg).funcs@[0] == old(cfg).funcs@[0]
            &&& forall|k: int|
                1 <= k < NUM_BUSES * SLOTS_PER_BUS ==> final(cfg).funcs@[k]@ == setup_spec(
                    #[trigger] old(cfg).funcs@[k]@,
                    (k / 32) as u64,
                    (k % 32) as u64,
                )
            &&& final(pci).devices@ == reg_fold(
                old(pci).devices@,
                discovered_between(final(cfg).funcs@, 1, NUM_BUSES * SLOTS_PER_BUS as int),
            )
        }),
{
    if pci.initialized {
        // Already enumerated once; the topology is one-shot.
        return ;
    }
    let ghost orig = cfg.funcs@;
    let ghost dev0 = pci.devices@;
    let mut bus: usize = 0;
    while bus < NUM_BUSES
        invariant
            pci.wf(),
            !pci.initialized,
            cs_wf(orig),
            bus <= NUM_BUSES,
            cfg.funcs@.len() == NUM_BUSES * SLOTS_PER_BUS,
            forall|k: int|
                bus * 32 <= k < NUM_BUSES * SLOTS_PER_BUS ==> cfg.funcs@[k] == orig[k],
            cfg.funcs@[0] == orig[0],
            forall|k: int|
                1 <= k < bus * 32 ==> cfg.funcs@[k]@ == setup_spec(
                    #[trigger] orig[k]@,
                    (k / 32) as u64,
                    (k % 32) as u64,
                ),
            pci.devices@ == reg_fold(dev0, discovered_between(cfg.funcs@, 1, bus * 32 as int)),
        decreases NUM_BUSES - bus,
    {
        let slot_start: usize = if bus == 0 {
            1
        } else {
            0
        };
        let mut slot: usize = slot_start;
        proof {
            if bus == 0 {
                assert(discovered_between(cfg.funcs@, 1, 1) =~= discovered_between(
                    cfg.funcs@,
                    1,
                    0,
                ));
            }
        }
        while slot < SLOTS_PER_BUS
            invariant
                pci.wf(),
                !pci.initialized,
                cs_wf(orig),
                bus < NUM_BUSES,
                slot_start <= slot <= SLOTS_PER_BUS,
                slot_start == (if bus == 0 {
                    1int
                } else {
                    0int
                }),
                cfg.funcs@.len() == NUM_BUSES * SLOTS_PER_BUS,
                forall|k: int|
                    bus * 32 + slot <= k < NUM_BUSES * SLOTS_PER_BUS ==> cfg.funcs@[k] == orig[k],
                cfg.funcs@[0] == orig[0],
                forall|k: int|
                    1 <= k < bus * 32 + slot ==> cfg.funcs@[k]@ == setup_spec(
                        #[trigger] orig[k]@,
                        (k / 32) as u64,
                        (k % 32) as u64,
                    ),
                pci.devices@ == reg_fold(
                    dev0,
                    discovered_between(cfg.funcs@, 1, bus * 32 + slot),
                ),
            decreases SLOTS_PER_BUS - slot,
        {
            let ghost funcs_at = cfg.funcs@;
            let ghost devs_at = pci.devices@;
            let ghost cur = bus * 32 + slot;
            proof {
                assert(cfg.funcs@[cur] == orig[cur]);
                assert(ecam_wf(orig[cur]@, (cur / 32) as u64, (cur % 32) as u64));
                assert(cur / 32 == bus && cur % 32 == slot) by (nonlinear_arith)
                    requires
                        cur == bus * 32 + slot && 0 <= slot < 32 && 0 <= bus,
                ;
            }
            let dev = pci_setup(cfg, bus, slot);
            if let Some(d) = dev {
                pci_add_device(pci, d);
            }
            proof {
                lemma_discovered_frame(funcs_at, cfg.funcs@, 1, cur);
                lemma_discovered_snoc(cfg.funcs@, 1, cur);
                match discovered_device(cfg.funcs@[cur]@) {
                    Option::Some(d) => {
                        lemma_reg_fold_snoc(dev0, discovered_between(cfg.funcs@, 1, cur), d);
                    },
                    Option::None => {},
                }
            }
            slot = slot + 1;
        }
        bus = bus + 1;
    }
    pci.initialized = true;
}

} // verus!
