//! Incoming message-signaled interrupt file: one enable/pending bit pair per
//! message identifier, reached through an indirect select/data register
//! window, gated by a delivery flag and a priority threshold, and consumed
//! through the read-and-clear claim operation.
//!
//! Identifiers run from 0 to 1023; 0 means "no message" and its bit is
//! hardwired clear, 1 is reserved, 2..=1023 are real sources.  An identifier
//! is eligible for a claim when it is pending, enabled, delivery is on, and
//! it is numerically below the threshold (threshold 0 admits every
//! identifier).  Priority is the identifier itself: lower is claimed first.

use crate::bits::{
    lemma_clear_bit, lemma_flip_bit, lemma_mask_clear_noop, lemma_nth_bit_zero, lemma_set_bit,
    lemma_topei_encoding, nth_bit,
};
use vstd::prelude::*;

verus! {

// Each hart has one machine-level and one supervisor-level file, a page apart
// per hart.
pub const IMSIC_HART_STRIDE: usize = 0x1000;

pub const IMSIC_M: usize = 0x2400_0000;

pub const IMSIC_S: usize = 0x2800_0000;

// CSR numbers of the two indirect windows and the two claim registers.
pub const MISELECT: usize = 0x350;

pub const MIREG: usize = 0x351;

pub const MTOPEI: usize = 0x35C;

pub const SISELECT: usize = 0x150;

pub const SIREG: usize = 0x151;

pub const STOPEI: usize = 0x15C;

// Select values addressable through a window: the delivery gate, the
// threshold, and one 32-bit word per 32 identifiers of the pending and
// enable arrays.
pub const EIDELIVERY: u32 = 0x70;

pub const EITHRESHOLD: u32 = 0x72;

pub const EIP: u32 = 0x80;

pub const EIE: u32 = 0xC0;

pub const NUM_IDS: usize = 1024;

pub const NUM_WORDS: usize = 32;

#[derive(Clone, Copy, Debug, PartialEq, Eq, Structural)]
pub enum PrivMode {
    Machine,
    Supervisor,
}

/// Mathematical state of one interrupt file.
pub ghost struct ImsicFileView {
    pub select: u32,
    pub delivery: u32,
    pub threshold: u32,
    pub eip: Seq<u32>,
    pub eie: Seq<u32>,
}

impl ImsicFileView {
    pub open spec fn wf(self) -> bool {
        &&& self.eip.len() == NUM_WORDS
        &&& self.eie.len() == NUM_WORDS
        &&& !nth_bit(self.eip[0], 0)
        &&& !nth_bit(self.eie[0], 0)
    }

    pub open spec fn pending(self, i: int) -> bool {
        0 <= i < NUM_IDS && nth_bit(self.eip[i / 32], (i % 32) as u32)
    }

    pub open spec fn enabled(self, i: int) -> bool {
        0 <= i < NUM_IDS && nth_bit(self.eie[i / 32], (i % 32) as u32)
    }

    /// Identifier `i` would be returned by a claim if no lower identifier
    /// were also eligible.
    pub open spec fn eligible(self, i: int) -> bool {
        &&& self.pending(i)
        &&& self.enabled(i)
        &&& self.delivery == 1
        &&& (self.threshold == 0 || i < self.threshold)
    }

    pub open spec fn first_eligible_from(self, k: int) -> int
        decreases NUM_IDS - k when 0 <= k <= NUM_IDS
    {
        if k < 0 || k >= NUM_IDS {
            0
        } else if self.eligible(k) {
            k
        } else {
            self.first_eligible_from(k + 1)
        }
    }

    /// The identifier a claim returns: the lowest eligible one, or 0 when
    /// none is eligible.
    pub open spec fn claim_id(self) -> int {
        self.first_eligible_from(0)
    }

    /// Value of the external-interrupt claim register: identifier in the
    /// high half, its priority (the identifier again) in the low bits.
    pub open spec fn topei(self) -> u32 {
        ((self.claim_id() as u32) << 16) | (self.claim_id() as u32)
    }

    pub open spec fn valid_select(self) -> bool {
        ||| self.select == EIDELIVERY
        ||| self.select == EITHRESHOLD
        ||| EIP <= self.select < EIP + 32
        ||| EIE <= self.select < EIE + 32
    }

    /// Bit 0 of the first pending/enable word is hardwired clear: identifier
    /// 0 does not exist.
    pub open spec fn mask_word0(k: int, v: u32) -> u32 {
        if k == 0 {
            v & !(1u32 << 0)
        } else {
            v
        }
    }

    /// Effect of a write to the data register with `sel` selected.
    pub open spec fn write_reg(self, sel: u32, v: u32) -> ImsicFileView {
        if sel == EIDELIVERY {
            ImsicFileView { delivery: v, ..self }
        } else if sel == EITHRESHOLD {
            ImsicFileView { threshold: v, ..self }
        } else if EIP <= sel < EIP + 32 {
            let k = (sel - EIP) as int;
            ImsicFileView { eip: self.eip.update(k, Self::mask_word0(k, v)), ..self }
        } else {
            let k = (sel - EIE) as int;
            ImsicFileView { eie: self.eie.update(k, Self::mask_word0(k, v)), ..self }
        }
    }

    /// Value read from the data register with `sel` selected.
    pub open spec fn read_reg(self, sel: u32) -> u32 {
        if sel == EIDELIVERY {
            self.delivery
        } else if sel == EITHRESHOLD {
            self.threshold
        } else if EIP <= sel < EIP + 32 {
            self.eip[(sel - EIP) as int]
        } else {
            self.eie[(sel - EIE) as int]
        }
    }

    pub open spec fn with_select(self, sel: u32) -> ImsicFileView {
        ImsicFileView { select: sel, ..self }
    }

    /// State after the select-then-read-modify-write sequence that sets or
    /// clears the enable bit of identifier `i`.
    pub open spec fn with_enabled(self, i: int, on: bool) -> ImsicFileView {
        let sel = (EIE + i / 32) as u32;
        let w = self.eie[i / 32];
        let v = if on {
            w | (1u32 << (i % 32) as u32)
        } else {
            w & !(1u32 << (i % 32) as u32)
        };
        self.with_select(sel).write_reg(sel, v)
    }

    /// State after the same sequence on the pending bit of identifier `i`.
    pub open spec fn with_pending(self, i: int, on: bool) -> ImsicFileView {
        let sel = (EIP + i / 32) as u32;
        let w = self.eip[i / 32];
        let v = if on {
            w | (1u32 << (i % 32) as u32)
        } else {
            w & !(1u32 << (i % 32) as u32)
        };
        self.with_select(sel).write_reg(sel, v)
    }

    /// State after a message write to the file's memory page (an MSI):
    /// the pending bit of the written identifier is set, nothing else moves.
    pub open spec fn with_msi(self, i: int) -> ImsicFileView {
        ImsicFileView {
            eip: self.eip.update(i / 32, self.eip[i / 32] | (1u32 << (i % 32) as u32)),
            ..self
        }
    }

    /// State after a claim: the pending bit of the claimed identifier is
    /// cleared; a spurious claim changes nothing.
    pub open spec fn after_claim(self) -> ImsicFileView {
        let i = self.claim_id();
        if i != 0 {
            ImsicFileView {
                eip: self.eip.update(i / 32, self.eip[i / 32] & !(1u32 << (i % 32) as u32)),
                ..self
            }
        } else {
            self
        }
    }
}

/// One interrupt file as register words; its mathematical state is
/// `ImsicFileView`.
pub struct ImsicFile {
    pub select: u32,
    pub delivery: u32,
    pub threshold: u32,
    pub eip: Vec<u32>,
    pub eie: Vec<u32>,
}

impl View for ImsicFile {
    type V = ImsicFileView;

    open spec fn view(&self) -> ImsicFileView {
        ImsicFileView {
            select: self.select,
            delivery: self.delivery,
            threshold: self.threshold,
            eip: self.eip@,
            eie: self.eie@,
        }
    }
}

impl ImsicFile {
    /// Reset state: everything masked, nothing pending, delivery off.
    pub fn new() -> (f: ImsicFile)
        ensures
            f@.wf(),
            f@.select == 0,
            f@.delivery == 0,
            f@.threshold == 0,
            forall|i: int| !f@.pending(i),
            forall|i: int| !f@.enabled(i),
    {
        let f = ImsicFile {
            select: 0,
            delivery: 0,
            threshold: 0,
            eip: crate::bits::zero_words(NUM_WORDS),
            eie: crate::bits::zero_words(NUM_WORDS),
        };
        proof {
            lemma_nth_bit_zero(0);
            assert forall|i: int| !(#[trigger] f@.pending(i)) by {
                if 0 <= i < NUM_IDS {
                    lemma_nth_bit_zero((i % 32) as u32);
                }
            }
            assert forall|i: int| !(#[trigger] f@.enabled(i)) by {
                if 0 <= i < NUM_IDS {
                    lemma_nth_bit_zero((i % 32) as u32);
                }
            }
        }
        f
    }

    /// Point the indirect window at register `sel`.
    pub fn write_select(&mut self, sel: u32)
        ensures
            final(self)@ == old(self)@.with_select(sel),
    {
        self.select = sel;
    }

    /// Read the data register; which register answers is decided by the
    /// current select value, and an unrecognized select value is a fatal
    /// access the caller must never make.
    pub fn read_ireg(&self) -> (r: u32)
        requires
            self@.wf(),
            self@.valid_select(),
        ensures
            r == self@.read_reg(self@.select),
    {
        if self.select == EIDELIVERY {
            self.delivery
        } else if self.select == EITHRESHOLD {
            self.threshold
        } else if EIP <= self.select && self.select < EIP + 32 {
            self.eip[(self.select - EIP) as usize]
        } else {
            self.eie[(self.select - EIE) as usize]
        }
    }

    /// Write the data register through the window, as `read_ireg` reads it.
    pub fn write_ireg(&mut self, v: u32)
        requires
            old(self)@.wf(),
            old(self)@.valid_select(),
        ensures
            final(self)@ == old(self)@.write_reg(old(self)@.select, v),
            final(self)@.wf(),
    {
        if self.select == EIDELIVERY {
            self.delivery = v;
        } else if self.select == EITHRESHOLD {
            self.threshold = v;
        } else if EIP <= self.select && self.select < EIP + 32 {
            let k = (self.select - EIP) as usize;
            let vv = if k == 0 {
                v & !(1u32 << 0)
            } else {
                v
            };
            self.eip[k] = vv;
            proof {
                lemma_clear_bit(v, 0, 0);
            }
        } else {
            let k = (self.select - EIE) as usize;
            let vv = if k == 0 {
                v & !(1u32 << 0)
            } else {
                v
            };
            self.eie[k] = vv;
            proof {
                lemma_clear_bit(v, 0, 0);
            }
        }
    }

    /// Read the claim register without clearing anything: the lowest
    /// eligible identifier in the high half, its priority in the low half,
    /// or zero when nothing is eligible.
    pub fn topei_reg(&self) -> (r: u32)
        requires
            self@.wf(),
        ensures
            r == self@.topei(),
            r >> 16 == self@.claim_id(),
            0 <= self@.claim_id() < NUM_IDS,
            self@.claim_id() != 0 ==> self@.eligible(self@.claim_id()) && (forall|j: int|
                0 <= j < self@.claim_id() ==> !self@.eligible(j)),
            self@.claim_id() == 0 ==> (forall|j: int| !self@.eligible(j)),
    {
        let mut i: usize = 0;
        while i < NUM_IDS
            invariant
                self@.wf(),
                i <= NUM_IDS,
                forall|j: int| 0 <= j < i ==> !self@.eligible(j),
            decreases NUM_IDS - i,
        {
            let bit = (i % 32) as u32;
            if self.delivery == 1 && (self.threshold == 0 || (i as u32) < self.threshold) && (
            self.eip[i / 32] >> bit) & 1 == 1 && (self.eie[i / 32] >> bit) & 1 == 1 {
                proof {
                    assert(self@.eligible(i as int));
                    lemma_first_from_found(self@, 0, i as int);
                    lemma_topei_encoding(i as u32);
                }
                return ((i as u32) << 16) | (i as u32);
            }
            i = i + 1;
        }
        proof {
            lemma_first_from_none(self@, 0);
            lemma_topei_encoding(0);
            assert forall|j: int| !self@.eligible(j) by {
                if 0 <= j < NUM_IDS {
                } else {
                    assert(!self@.pending(j));
                }
            }
        }
        0
    }

    /// The claim operation: read and clear.  Returns the lowest pending,
    /// enabled, below-threshold identifier with delivery on, clearing its
    /// pending bit; returns 0 (spurious) and changes nothing when none is
    /// eligible.
    pub fn claim(&mut self) -> (r: u32)
        requires
            old(self)@.wf(),
        ensures
            final(self)@.wf(),
            r < NUM_IDS,
            r == old(self)@.claim_id(),
            final(self)@ == old(self)@.after_claim(),
            r != 0 ==> old(self)@.eligible(r as int) && (forall|j: int|
                0 <= j < r ==> !old(self)@.eligible(j)),
            r == 0 ==> (forall|j: int| !old(self)@.eligible(j)) && *final(self) == *old(self),
            forall|j: int| #[trigger] final(self)@.pending(j) == (old(self)@.pending(j) && j != r),
            forall|j: int| #[trigger] final(self)@.enabled(j) == old(self)@.enabled(j),
            final(self)@.delivery == old(self)@.delivery,
            final(self)@.threshold == old(self)@.threshold,
            final(self)@.select == old(self)@.select,
    {
        let t = self.topei_reg();
        let i = (t >> 16) as usize;
        if i != 0 {
            let bit = (i % 32) as u32;
            let w = self.eip[i / 32];
            self.eip[i / 32] = w & !(1u32 << bit);
            proof {
                lemma_flip_bit(old(self)@.eip, self@.eip, i as int, false);
                if i / 32 == 0 {
                    lemma_clear_bit(w, bit, 0);
                }
                assert(self@ == old(self)@.after_claim());
            }
        } else {
            proof {
                assert forall|j: int| #[trigger] self@.pending(j) == (old(self)@.pending(j)
                    && j != 0) by {
                    if j == 0 {
                        assert(!old(self)@.pending(0));
                    }
                }
            }
        }
        t >> 16
    }

    /// A message write to this file's page: the pending bit of `id` rises.
    pub fn receive_msi(&mut self, id: u32)
        requires
            old(self)@.wf(),
            2 <= id < NUM_IDS,
        ensures
            final(self)@ == old(self)@.with_msi(id as int),
            final(self)@.wf(),
    {
        let k = (id / 32) as usize;
        let w = self.eip[k];
        self.eip[k] = w | (1u32 << (id % 32));
        proof {
            if k == 0 {
                lemma_set_bit(w, id % 32, 0);
            }
        }
    }
}

/// If `i` is eligible and nothing below it (from `k`) is, the scan from `k`
/// stops at `i`.
pub proof fn lemma_first_from_found(f: ImsicFileView, k: int, i: int)
    requires
        0 <= k <= i < NUM_IDS,
        f.eligible(i),
        forall|j: int| k <= j < i ==> !f.eligible(j),
    ensures
        f.first_eligible_from(k) == i,
    decreases i - k,
{
    if k < i {
        lemma_first_from_found(f, k + 1, i);
    }
}

/// If nothing from `k` on is eligible, the scan from `k` yields 0.
pub proof fn lemma_first_from_none(f: ImsicFileView, k: int)
    requires
        0 <= k <= NUM_IDS,
        forall|j: int| k <= j < NUM_IDS ==> !f.eligible(j),
    ensures
        f.first_eligible_from(k) == 0,
    decreases NUM_IDS - k,
{
    if k < NUM_IDS {
        lemma_first_from_none(f, k + 1);
    }
}

/// What the enable-bit sequence does, bit by bit.
pub proof fn lemma_with_enabled(f: ImsicFileView, i: int, on: bool)
    requires
        f.wf(),
        2 <= i < NUM_IDS,
    ensures
        ({
            let g = f.with_enabled(i, on);
            &&& g.wf()
            &&& g.delivery == f.delivery
            &&& g.threshold == f.threshold
            &&& g.eip == f.eip
            &&& forall|j: int| #[trigger] g.enabled(j) == (if j == i {
                on
            } else {
                f.enabled(j)
            })
            &&& forall|j: int| #[trigger] g.pending(j) == f.pending(j)
        }),
{
    let g = f.with_enabled(i, on);
    let bit = (i % 32) as u32;
    let w = f.eie[i / 32];
    let v = if on {
        w | (1u32 << bit)
    } else {
        w & !(1u32 << bit)
    };
    if i / 32 == 0 {
        vstd::arithmetic::div_mod::lemma_fundamental_div_mod(i, 32);
        if on {
            lemma_set_bit(w, bit, 0);
        } else {
            lemma_clear_bit(w, bit, 0);
        }
        lemma_mask_clear_noop(v, 0);
    }
    assert(g.eie =~= f.eie.update(i / 32, v));
    lemma_flip_bit(f.eie, g.eie, i, on);
    assert forall|j: int| #[trigger] g.enabled(j) == (if j == i {
        on
    } else {
        f.enabled(j)
    }) by {
        if 0 <= j < NUM_IDS {
            assert(nth_bit(g.eie[j / 32], (j % 32) as u32) == (if j == i {
                on
            } else {
                nth_bit(f.eie[j / 32], (j % 32) as u32)
            }));
        }
    }
    assert(!g.enabled(0));
}

/// What the pending-bit sequence does, bit by bit.
pub proof fn lemma_with_pending(f: ImsicFileView, i: int, on: bool)
    requires
        f.wf(),
        2 <= i < NUM_IDS,
    ensures
        ({
            let g = f.with_pending(i, on);
            &&& g.wf()
            &&& g.delivery == f.delivery
            &&& g.threshold == f.threshold
            &&& g.eie == f.eie
            &&& forall|j: int| #[trigger] g.pending(j) == (if j == i {
                on
            } else {
                f.pending(j)
            })
            &&& forall|j: int| #[trigger] g.enabled(j) == f.enabled(j)
        }),
{
    let g = f.with_pending(i, on);
    let bit = (i % 32) as u32;
    let w = f.eip[i / 32];
    let v = if on {
        w | (1u32 << bit)
    } else {
        w & !(1u32 << bit)
    };
    if i / 32 == 0 {
        vstd::arithmetic::div_mod::lemma_fundamental_div_mod(i, 32);
        if on {
            lemma_set_bit(w, bit, 0);
        } else {
            lemma_clear_bit(w, bit, 0);
        }
        lemma_mask_clear_noop(v, 0);
    }
    assert(g.eip =~= f.eip.update(i / 32, v));
    lemma_flip_bit(f.eip, g.eip, i, on);
    assert forall|j: int| #[trigger] g.pending(j) == (if j == i {
        on
    } else {
        f.pending(j)
    }) by {
        if 0 <= j < NUM_IDS {
            assert(nth_bit(g.eip[j / 32], (j % 32) as u32) == (if j == i {
                on
            } else {
                nth_bit(f.eip[j / 32], (j % 32) as u32)
            }));
        }
    }
    assert(!g.pending(0));
}

/// What a message write does, bit by bit.
pub proof fn lemma_with_msi(f: ImsicFileView, i: int)
    requires
        f.wf(),
        2 <= i < NUM_IDS,
    ensures
        ({
            let g = f.with_msi(i);
            &&& g.wf()
            &&& g.select == f.select
            &&& g.delivery == f.delivery
            &&& g.threshold == f.threshold
            &&& g.eie == f.eie
            &&& forall|j: int| #[trigger] g.pending(j) == (j == i || f.pending(j))
            &&& forall|j: int| #[trigger] g.enabled(j) == f.enabled(j)
        }),
{
    let g = f.with_msi(i);
    lemma_flip_bit(f.eip, g.eip, i, true);
    assert forall|j: int| #[trigger] g.pending(j) == (j == i || f.pending(j)) by {
        if 0 <= j < NUM_IDS {
            assert(nth_bit(g.eip[j / 32], (j % 32) as u32) == (if j == i {
                true
            } else {
                nth_bit(f.eip[j / 32], (j % 32) as u32)
            }));
        }
    }
    assert(!g.pending(0));
}

/// What a claim does, bit by bit.
pub proof fn lemma_after_claim(f: ImsicFileView)
    requires
        f.wf(),
    ensures
        ({
            let g = f.after_claim();
            &&& g.wf()
            &&& g.select == f.select
            &&& g.delivery == f.delivery
            &&& g.threshold == f.threshold
            &&& g.eie == f.eie
            &&& forall|j: int| #[trigger] g.pending(j) == (f.pending(j) && j != f.claim_id())
            &&& forall|j: int| #[trigger] g.enabled(j) == f.enabled(j)
        }),
{
    let g = f.after_claim();
    let i = f.claim_id();
    lemma_first_from_range(f, 0);
    if i != 0 {
        lemma_flip_bit(f.eip, g.eip, i, false);
        assert forall|j: int| #[trigger] g.pending(j) == (f.pending(j) && j != i) by {
            if 0 <= j < NUM_IDS {
                assert(nth_bit(g.eip[j / 32], (j % 32) as u32) == (if j == i {
                    false
                } else {
                    nth_bit(f.eip[j / 32], (j % 32) as u32)
                }));
            }
        }
        assert(!g.pending(0));
    } else {
        assert forall|j: int| #[trigger] g.pending(j) == (f.pending(j) && j != 0) by {
            if j == 0 {
                assert(!f.pending(0));
            }
        }
    }
}

/// The scan lands in the identifier range, and on an eligible identifier
/// when it is nonzero.
pub proof fn lemma_first_from_range(f: ImsicFileView, k: int)
    requires
        0 <= k <= NUM_IDS,
    ensures
        0 <= f.first_eligible_from(k) < NUM_IDS,
        f.first_eligible_from(k) != 0 ==> f.eligible(f.first_eligible_from(k)),
    decreases NUM_IDS - k,
{
    if k < NUM_IDS && !f.eligible(k) {
        lemma_first_from_range(f, k + 1);
    }
}

/// The scan never passes an eligible identifier: whenever `i` is eligible,
/// the result is a nonzero eligible identifier no greater than `i`.
pub proof fn lemma_first_from_min(f: ImsicFileView, k: int, i: int)
    requires
        f.wf(),
        0 <= k <= i < NUM_IDS,
        f.eligible(i),
    ensures
        0 < f.first_eligible_from(k) <= i,
        f.eligible(f.first_eligible_from(k)),
    decreases i - k,
{
    assert(!f.pending(0));
    if !f.eligible(k) {
        lemma_first_from_min(f, k + 1, i);
    }
}

/// Law: the claim always returns the numerically lowest eligible
/// identifier (priority is the identifier value, lower is higher).  If any
/// identifier is eligible, the claim result is nonzero, eligible, no
/// greater than any eligible identifier, and nothing below it is eligible.
pub proof fn lemma_claim_is_lowest(f: ImsicFileView, i: int)
    requires
        f.wf(),
        f.eligible(i),
    ensures
        0 < f.claim_id() <= i,
        f.eligible(f.claim_id()),
        forall|j: int| 0 <= j < f.claim_id() ==> !f.eligible(j),
{
    assert(0 <= i < NUM_IDS);
    lemma_first_from_min(f, 0, i);
    lemma_first_from_minimal(f, 0);
}

/// Nothing between the start of the scan and its result is eligible.
pub proof fn lemma_first_from_minimal(f: ImsicFileView, k: int)
    requires
        0 <= k <= NUM_IDS,
    ensures
        forall|j: int| k <= j < f.first_eligible_from(k) ==> !f.eligible(j),
    decreases NUM_IDS - k,
{
    if k < NUM_IDS && !f.eligible(k) {
        lemma_first_from_minimal(f, k + 1);
    }
}

/// Law: enabling identifier `i` and then raising its pending bit, with
/// delivery on, threshold 0 and nothing else pending, makes the claim
/// return `i` exactly once: the first claim yields `i`, the next is
/// spurious (0) absent further triggers.
pub proof fn lemma_claim_exactly_once(f: ImsicFileView, i: int)
    requires
        f.wf(),
        2 <= i < NUM_IDS,
        f.delivery == 1,
        f.threshold == 0,
        forall|j: int| !f.pending(j),
    ensures
        f.with_enabled(i, true).with_pending(i, true).claim_id() == i,
        f.with_enabled(i, true).with_pending(i, true).after_claim().claim_id() == 0,
{
    let f1 = f.with_enabled(i, true);
    lemma_with_enabled(f, i, true);
    let g = f1.with_pending(i, true);
    lemma_with_pending(f1, i, true);
    assert(g.eligible(i));
    assert forall|j: int| 0 <= j < i implies !g.eligible(j) by {
        assert(g.pending(j) == (if j == i {
            true
        } else {
            f1.pending(j)
        }));
    }
    lemma_first_from_found(g, 0, i);
    let h = g.after_claim();
    lemma_after_claim(g);
    assert forall|j: int| 0 <= j < NUM_IDS implies !h.eligible(j) by {
        assert(h.pending(j) == (g.pending(j) && j != i));
    }
    lemma_first_from_none(h, 0);
}

/// Law: with a positive threshold, an identifier numerically at or above
/// it is never the claim result, pending and enabled or not.
pub proof fn lemma_threshold_excludes(f: ImsicFileView, i: int)
    requires
        f.wf(),
        f.threshold > 0,
        i >= f.threshold,
    ensures
        f.claim_id() != i,
{
    lemma_first_from_range(f, 0);
    if f.claim_id() == i {
        assert(f.eligible(i));
    }
}

/// Law: the identifier one below the threshold is still audible: when it
/// is pending and enabled, delivery is on, and nothing lower is eligible,
/// the claim returns it.
pub proof fn lemma_threshold_edge(f: ImsicFileView)
    requires
        f.wf(),
        f.delivery == 1,
        2 <= f.threshold <= NUM_IDS,
        f.pending(f.threshold - 1),
        f.enabled(f.threshold - 1),
        forall|j: int| 0 <= j < f.threshold - 1 ==> !f.eligible(j),
    ensures
        f.claim_id() == f.threshold - 1,
{
    assert(f.eligible(f.threshold - 1));
    lemma_first_from_found(f, 0, f.threshold - 1);
}

/// One hart's pair of interrupt files: machine level and supervisor level.
pub struct Imsic {
    pub m: ImsicFile,
    pub s: ImsicFile,
}

impl Imsic {
    pub open spec fn wf(self) -> bool {
        self.m@.wf() && self.s@.wf()
    }

    pub fn new() -> (im: Imsic)
        ensures
            im.wf(),
            im.m@.delivery == 0 && im.s@.delivery == 0,
            im.m@.threshold == 0 && im.s@.threshold == 0,
            forall|i: int| !im.m@.pending(i) && !im.s@.pending(i),
            forall|i: int| !im.m@.enabled(i) && !im.s@.enabled(i),
    {
        Imsic { m: ImsicFile::new(), s: ImsicFile::new() }
    }
}

/// Page address of a hart's machine-level file.
pub fn imsic_m(hart: usize) -> (addr: usize)
    requires
        IMSIC_M + IMSIC_HART_STRIDE * hart <= usize::MAX,
    ensures
        addr == IMSIC_M + IMSIC_HART_STRIDE * hart,
{
    IMSIC_M + IMSIC_HART_STRIDE * hart
}

/// Page address of a hart's supervisor-level file.
pub fn imsic_s(hart: usize) -> (addr: usize)
    requires
        IMSIC_S + IMSIC_HART_STRIDE * hart <= usize::MAX,
    ensures
        addr == IMSIC_S + IMSIC_HART_STRIDE * hart,
{
    IMSIC_S + IMSIC_HART_STRIDE * hart
}

/// The single parametrized write primitive over the file registers: the two
/// indirect select registers and the two data registers they steer.  Any
/// other register number, or a data access with an unrecognized select
/// value, is a fatal access the caller must never make.
pub fn imsic_write(imsic: &mut Imsic, reg: usize, val: u32)
    requires
        old(imsic).wf(),
        reg == MISELECT || reg == SISELECT || reg == MIREG || reg == SIREG,
        reg == MIREG ==> old(imsic).m@.valid_select(),
        reg == SIREG ==> old(imsic).s@.valid_select(),
    ensures
        final(imsic).wf(),
        reg == MISELECT ==> final(imsic).m@ == old(imsic).m@.with_select(val) && final(imsic).s@
            == old(imsic).s@,
        reg == SISELECT ==> final(imsic).s@ == old(imsic).s@.with_select(val) && final(imsic).m@
            == old(imsic).m@,
        reg == MIREG ==> final(imsic).m@ == old(imsic).m@.write_reg(old(imsic).m@.select, val)
            && final(imsic).s@ == old(imsic).s@,
        reg == SIREG ==> final(imsic).s@ == old(imsic).s@.write_reg(old(imsic).s@.select, val)
            && final(imsic).m@ == old(imsic).m@,
{
    if reg == MISELECT {
        imsic.m.write_select(val);
    } else if reg == SISELECT {
        imsic.s.write_select(val);
    } else if reg == MIREG {
        imsic.m.write_ireg(val);
    } else {
        imsic.s.write_ireg(val);
    }
}

/// The matching read primitive; also answers the two claim registers,
/// without clearing anything.
pub fn imsic_read(imsic: &Imsic, reg: usize) -> (r: u32)
    requires
        imsic.wf(),
        reg == MISELECT || reg == SISELECT || reg == MIREG || reg == SIREG || reg == MTOPEI || reg
            == STOPEI,
        reg == MIREG ==> imsic.m@.valid_select(),
        reg == SIREG ==> imsic.s@.valid_select(),
    ensures
        reg == MISELECT ==> r == imsic.m@.select,
        reg == SISELECT ==> r == imsic.s@.select,
        reg == MIREG ==> r == imsic.m@.read_reg(imsic.m@.select),
        reg == SIREG ==> r == imsic.s@.read_reg(imsic.s@.select),
        reg == MTOPEI ==> r == imsic.m@.topei(),
        reg == STOPEI ==> r == imsic.s@.topei(),
{
    if reg == MISELECT {
        imsic.m.select
    } else if reg == SISELECT {
        imsic.s.select
    } else if reg == MIREG {
        imsic.m.read_ireg()
    } else if reg == SIREG {
        imsic.s.read_ireg()
    } else if reg == MTOPEI {
        imsic.m.topei_reg()
    } else {
        imsic.s.topei_reg()
    }
}

/// Enable message `which` in the chosen file, by the select-then-
/// read-modify-write sequence on its enable word.
pub fn imsic_enable(imsic: &mut Imsic, mode: PrivMode, which: usize)
    requires
        old(imsic).wf(),
        2 <= which < NUM_IDS,
    ensures
        final(imsic).wf(),
        mode == PrivMode::Machine ==> final(imsic).m@ == old(imsic).m@.with_enabled(
            which as int,
            true,
        ) && final(imsic).s@ == old(imsic).s@,
        mode == PrivMode::Supervisor ==> final(imsic).s@ == old(imsic).s@.with_enabled(
            which as int,
            true,
        ) && final(imsic).m@ == old(imsic).m@,
{
    let eiebyte = EIE + (which / 32) as u32;
    let bit = (which % 32) as u32;
    match mode {
        PrivMode::Machine => {
            imsic_write(imsic, MISELECT, eiebyte);
            let reg = imsic_read(imsic, MIREG);
            imsic_write(imsic, MIREG, reg | (1u32 << bit));
        },
        PrivMode::Supervisor => {
            imsic_write(imsic, SISELECT, eiebyte);
            let reg = imsic_read(imsic, SIREG);
            imsic_write(imsic, SIREG, reg | (1u32 << bit));
        },
    }
}

/// Disable message `which`: the same sequence, clearing the bit.
pub fn imsic_disable(imsic: &mut Imsic, mode: PrivMode, which: usize)
    requires
        old(imsic).wf(),
        2 <= which < NUM_IDS,
    ensures
        final(imsic).wf(),
        mode == PrivMode::Machine ==> final(imsic).m@ == old(imsic).m@.with_enabled(
            which as int,
            false,
        ) && final(imsic).s@ == old(imsic).s@,
        mode == PrivMode::Supervisor ==> final(imsic).s@ == old(imsic).s@.with_enabled(
            which as int,
            false,
        ) && final(imsic).m@ == old(imsic).m@,
{
    let eiebyte = EIE + (which / 32) as u32;
    let bit = (which % 32) as u32;
    match mode {
        PrivMode::Machine => {
            imsic_write(imsic, MISELECT, eiebyte);
            let reg = imsic_read(imsic, MIREG);
            imsic_write(imsic, MIREG, reg & !(1u32 << bit));
        },
        PrivMode::Supervisor => {
            imsic_write(imsic, SISELECT, eiebyte);
            let reg = imsic_read(imsic, SIREG);
            imsic_write(imsic, SIREG, reg & !(1u32 << bit));
        },
    }
}

/// Raise the pending bit of message `which` by hand (a software-injected
/// test interrupt), through the pending-array window.
pub fn imsic_trigger(imsic: &mut Imsic, mode: PrivMode, which: usize)
    requires
        old(imsic).wf(),
        2 <= which < NUM_IDS,
    ensures
        final(imsic).wf(),
        mode == PrivMode::Machine ==> final(imsic).m@ == old(imsic).m@.with_pending(
            which as int,
            true,
        ) && final(imsic).s@ == old(imsic).s@,
        mode == PrivMode::Supervisor ==> final(imsic).s@ == old(imsic).s@.with_pending(
            which as int,
            true,
        ) && final(imsic).m@ == old(imsic).m@,
{
    let eipbyte = EIP + (which / 32) as u32;
    let bit = (which % 32) as u32;
    match mode {
        PrivMode::Machine => {
            imsic_write(imsic, MISELECT, eipbyte);
            let reg = imsic_read(imsic, MIREG);
            imsic_write(imsic, MIREG, reg | (1u32 << bit));
        },
        PrivMode::Supervisor => {
            imsic_write(imsic, SISELECT, eipbyte);
            let reg = imsic_read(imsic, SIREG);
            imsic_write(imsic, SIREG, reg | (1u32 << bit));
        },
    }
}

/// Clear the pending bit of message `which` through the window.
pub fn imsic_clear(imsic: &mut Imsic, mode: PrivMode, which: usize)
    requires
        old(imsic).wf(),
        2 <= which < NUM_IDS,
    ensures
        final(imsic).wf(),
        mode == PrivMode::Machine ==> final(imsic).m@ == old(imsic).m@.with_pending(
            which as int,
            false,
        ) && final(imsic).s@ == old(imsic).s@,
        mode == PrivMode::Supervisor ==> final(imsic).s@ == old(imsic).s@.with_pending(
            which as int,
            false,
        ) && final(imsic).m@ == old(imsic).m@,
{
    let eipbyte = EIP + (which / 32) as u32;
    let bit = (which % 32) as u32;
    match mode {
        PrivMode::Machine => {
            imsic_write(imsic, MISELECT, eipbyte);
            let reg = imsic_read(imsic, MIREG);
            imsic_write(imsic, MIREG, reg & !(1u32 << bit));
        },
        PrivMode::Supervisor => {
            imsic_write(imsic, SISELECT, eipbyte);
            let reg = imsic_read(imsic, SIREG);
            imsic_write(imsic, SIREG, reg & !(1u32 << bit));
        },
    }
}

/// Boot-time setup of both files on the boot hart: delivery on for both,
/// threshold 5 at machine level (messages 0..=4 audible) and 11 at
/// supervisor level (messages 0..=10 audible), the two self-test messages 2
/// and 4 enabled at machine level, the wired-source message 10 enabled at
/// supervisor level, and the two self-tests injected: 2 by a message write
/// to the file page, 4 through the pending-array window.
pub fn imsic_init(imsic: &mut Imsic)
    requires
        old(imsic).wf(),
    ensures
        final(imsic).wf(),
        final(imsic).m@.delivery == 1 && final(imsic).s@.delivery == 1,
        final(imsic).m@.threshold == 5 && final(imsic).s@.threshold == 11,
        forall|j: int| #[trigger]
            final(imsic).m@.enabled(j) == (j == 2 || j == 4 || old(imsic).m@.enabled(j)),
        forall|j: int| #[trigger]
            final(imsic).m@.pending(j) == (j == 2 || j == 4 || old(imsic).m@.pending(j)),
        forall|j: int| #[trigger] final(imsic).s@.enabled(j) == (j == 10 || old(imsic).s@.enabled(j)),
        forall|j: int| #[trigger] final(imsic).s@.pending(j) == old(imsic).s@.pending(j),
{
    // Turn the delivery gate on in both files.
    imsic_write(imsic, MISELECT, EIDELIVERY);
    imsic_write(imsic, MIREG, 1);
    imsic_write(imsic, SISELECT, EIDELIVERY);
    imsic_write(imsic, SIREG, 1);
    // Thresholds: a message is audible only when numerically below them.
    imsic_write(imsic, MISELECT, EITHRESHOLD);
    imsic_write(imsic, MIREG, 5);
    imsic_write(imsic, SISELECT, EITHRESHOLD);
    imsic_write(imsic, SIREG, 11);
    let ghost m0 = imsic.m@;
    let ghost s0 = imsic.s@;
    imsic_enable(imsic, PrivMode::Machine, 2);
    let ghost m1 = imsic.m@;
    imsic_enable(imsic, PrivMode::Machine, 4);
    let ghost m2 = imsic.m@;
    imsic_enable(imsic, PrivMode::Supervisor, 10);
    let ghost s1 = imsic.s@;
    // First self-test: a message write to the machine file's page.
    imsic.m.receive_msi(2);
    let ghost m3 = imsic.m@;
    // Second self-test: raise the pending bit through the window.
    imsic_trigger(imsic, PrivMode::Machine, 4);
    proof {
        lemma_with_enabled(m0, 2, true);
        lemma_with_enabled(m1, 4, true);
        lemma_with_enabled(s0, 10, true);
        lemma_with_msi(m2, 2);
        lemma_with_pending(m3, 4, true);
    }
}

/// Read and clear the claim register of the chosen file.
pub fn imsic_pop(imsic: &mut Imsic, pr: PrivMode) -> (r: u32)
    requires
        old(imsic).wf(),
    ensures
        final(imsic).wf(),
        r < NUM_IDS,
        pr == PrivMode::Machine ==> r == old(imsic).m@.claim_id() && final(imsic).m@ == old(imsic).m@.after_claim() && final(imsic).s@ == old(imsic).s@,
        pr == PrivMode::Supervisor ==> r == old(imsic).s@.claim_id() && final(imsic).s@ == old(imsic).s@.after_claim() && final(imsic).m@ == old(imsic).m@,
{
    match pr {
        PrivMode::Machine => imsic.m.claim(),
        PrivMode::Supervisor => imsic.s.claim(),
    }
}

/// What the trap path does with a claimed message number.
#[derive(Clone, Copy, Debug, PartialEq, Eq, Structural)]
pub enum MsgAction {
    /// Claim returned 0: nothing was pending; resume.
    Spurious,
    /// Message 2: the self-test injected by a message write fired.
    SelfTestMmio,
    /// Message 4: the self-test injected through the pending array fired.
    SelfTestEip,
    /// Message 10: the wired console source; a byte awaits in the receiver.
    ConsoleInput,
    /// Any other message number: log it and resume.
    Unknown(u32),
}

/// The dispatch rule for a claimed message number.
pub open spec fn action_for(id: int) -> MsgAction {
    if id == 0 {
        MsgAction::Spurious
    } else if id == 2 {
        MsgAction::SelfTestMmio
    } else if id == 4 {
        MsgAction::SelfTestEip
    } else if id == 10 {
        MsgAction::ConsoleInput
    } else {
        MsgAction::Unknown(id as u32)
    }
}

/// Claim the next message of the chosen file and decide what the caller
/// must do with it.
pub fn imsic_handle(imsic: &mut Imsic, pm: PrivMode) -> (act: MsgAction)
    requires
        old(imsic).wf(),
    ensures
        final(imsic).wf(),
        pm == PrivMode::Machine ==> act == action_for(old(imsic).m@.claim_id()) && final(imsic).m@ == old(imsic).m@.after_claim() && final(imsic).s@ == old(imsic).s@,
        pm == PrivMode::Supervisor ==> act == action_for(old(imsic).s@.claim_id()) && final(imsic).s@ == old(imsic).s@.after_claim() && final(imsic).m@ == old(imsic).m@,
{
    let msgnum = imsic_pop(imsic, pm);
    if msgnum == 0 {
        MsgAction::Spurious
    } else if msgnum == 2 {
        MsgAction::SelfTestMmio
    } else if msgnum == 4 {
        MsgAction::SelfTestEip
    } else if msgnum == 10 {
        MsgAction::ConsoleInput
    } else {
        MsgAction::Unknown(msgnum)
    }
}

} // verus!
