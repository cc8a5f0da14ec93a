//! Bounded byte queue between the trap-context producer (one byte per UART
//! receive interrupt) and the poll-loop consumer.  Push rejects when full and
//! never overwrites; pop returns bytes in FIFO order.  One slot of the
//! backing store is kept free, so `RING_BUFFER_SIZE - 1` bytes are usable.

use vstd::prelude::*;

verus! {

pub const RING_BUFFER_SIZE: usize = 32;

pub struct RingBuffer {
    m_buffer: Vec<u8>,
    m_start: usize,
    m_size: usize,
}

impl RingBuffer {
    pub closed spec fn wf(self) -> bool {
        &&& self.m_buffer.len() == RING_BUFFER_SIZE
        &&& self.m_start < RING_BUFFER_SIZE
        &&& self.m_size < RING_BUFFER_SIZE
    }

    /// The queued bytes, oldest first.
    pub closed spec fn view(self) -> Seq<u8> {
        Seq::new(
            self.m_size as nat,
            |k: int| self.m_buffer[(self.m_start + k) % (RING_BUFFER_SIZE as int)],
        )
    }

    pub fn new() -> (rb: Self)
        ensures
            rb.wf(),
            rb.view() == Seq::<u8>::empty(),
    {
        let rb = Self { m_buffer: vec![0u8; RING_BUFFER_SIZE], m_start: 0, m_size: 0 };
        proof {
            assert(rb.view() =~= Seq::<u8>::empty());
        }
        rb
    }

    pub fn max_size(&self) -> (n: usize)
        requires
            self.wf(),
        ensures
            n == RING_BUFFER_SIZE,
    {
        self.m_buffer.len()
    }

    /// Append `c` at the tail; reject (returning false, queue unchanged)
    /// when only one free slot would remain.
    pub fn push(&mut self, c: u8) -> (ok: bool)
        requires
            old(self).wf(),
        ensures
            final(self).wf(),
            ok == (old(self).view().len() < RING_BUFFER_SIZE - 1),
            ok ==> final(self).view() == old(self).view().push(c),
            !ok ==> *final(self) == *old(self),
    {
        if self.m_size + 1 >= self.max_size() {
            false
        } else {
            let idx = (self.m_start + self.m_size) % self.max_size();
            self.m_buffer[idx] = c;
            self.m_size = self.m_size + 1;
            proof {
                let pre = *old(self);
                assert forall|k: int| 0 <= k < pre.m_size implies self.view()[k] == pre.view()[k] by {
                    let cap = RING_BUFFER_SIZE as int;
                    assert((pre.m_start + k) % cap != (pre.m_start + pre.m_size) % cap);
                }
                assert(self.view() =~= pre.view().push(c));
            }
            true
        }
    }

    /// Remove and return the oldest byte, or `None` when empty.
    pub fn pop(&mut self) -> (r: Option<u8>)
        requires
            old(self).wf(),
        ensures
            final(self).wf(),
            old(self).view().len() == 0 ==> r is None && *final(self) == *old(self),
            old(self).view().len() > 0 ==> {
                &&& r == Some(old(self).view()[0])
                &&& final(self).view() == old(self).view().drop_first()
            },
    {
        if self.m_size == 0 {
            None
        } else {
            let c = self.m_buffer[self.m_start];
            self.m_size = self.m_size - 1;
            self.m_start = (self.m_start + 1) % self.max_size();
            proof {
                let pre = *old(self);
                let cap = RING_BUFFER_SIZE as int;
                assert(self.m_start == (pre.m_start + 1) % cap);
                assert forall|k: int| 0 <= k < self.m_size implies self.view()[k]
                    == pre.view().drop_first()[k] by {
                    assert(self.view()[k] == self.m_buffer[(self.m_start + k) % cap]);
                    assert(pre.view().drop_first()[k]
                        == pre.m_buffer[(pre.m_start + (k + 1)) % cap]);
                    if pre.m_start + 1 < cap {
                        vstd::arithmetic::div_mod::lemma_small_mod(
                            (pre.m_start + 1) as nat,
                            cap as nat,
                        );
                        assert(self.m_start == pre.m_start + 1);
                        assert((self.m_start + k) % cap == (pre.m_start + (k + 1)) % cap);
                    } else {
                        assert(pre.m_start == cap - 1);
                        vstd::arithmetic::div_mod::lemma_mod_self_0(cap);
                        assert(self.m_start == 0);
                        vstd::arithmetic::div_mod::lemma_mod_multiples_vanish(1, k, cap);
                        assert((pre.m_start + (k + 1)) % cap == (cap * 1 + k) % cap);
                        vstd::arithmetic::div_mod::lemma_small_mod(k as nat, cap as nat);
                        assert((self.m_start + k) % cap == k);
                    }
                }
                assert(self.view() =~= pre.view().drop_first());
            }
            Some(c)
        }
    }
}

} // verus!
