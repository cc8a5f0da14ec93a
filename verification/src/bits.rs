//! Single-bit views of 32-bit register words, and the two read-modify-write
//! facts (set one bit, clear one bit) that the enable/pending arrays rely on.

use vstd::prelude::*;

verus! {

/// Bit `b` of the register word `w`, for `b < 32`.
pub open spec fn nth_bit(w: u32, b: u32) -> bool {
    w >> b & 1 == 1
}

/// Setting bit `b` by `w | 1 << b` changes exactly that bit.
pub proof fn lemma_set_bit(w: u32, b: u32, j: u32)
    by (bit_vector)
    requires
        b < 32,
        j < 32,
    ensures
        nth_bit(w | 1u32 << b, j) == (j == b || nth_bit(w, j)),
{
}

/// Clearing bit `b` by `w & !(1 << b)` changes exactly that bit.
pub proof fn lemma_clear_bit(w: u32, b: u32, j: u32)
    by (bit_vector)
    requires
        b < 32,
        j < 32,
    ensures
        nth_bit(w & !(1u32 << b), j) == (j != b && nth_bit(w, j)),
{
}

/// A vector of `n` zeroed register words.
pub fn zero_words(n: usize) -> (v: Vec<u32>)
    ensures
        v@.len() == n,
        forall|i: int| 0 <= i < n ==> v@[i] == 0u32,
{
    let mut v: Vec<u32> = Vec::new();
    let mut k: usize = 0;
    while k < n
        invariant
            k <= n,
            v@.len() == k,
            forall|i: int| 0 <= i < k ==> v@[i] == 0u32,
        decreases n - k,
    {
        v.push(0u32);
        k = k + 1;
    }
    v
}

/// A zeroed byte buffer of length `n`.
pub fn zero_words_u8(n: usize) -> (v: Vec<u8>)
    ensures
        v@.len() == n,
        forall|i: int| 0 <= i < n ==> v@[i] == 0u8,
{
    let mut v: Vec<u8> = Vec::new();
    let mut k: usize = 0;
    while k < n
        invariant
            k <= n,
            v@.len() == k,
            forall|i: int| 0 <= i < k ==> v@[i] == 0u8,
        decreases n - k,
    {
        v.push(0u8);
        k = k + 1;
    }
    v
}

/// The zero word has no bit set.
pub proof fn lemma_nth_bit_zero(j: u32)
    by (bit_vector)
    requires
        j < 32,
    ensures
        !nth_bit(0u32, j),
{
}

/// Clearing a bit that is already clear leaves the word unchanged.
pub proof fn lemma_mask_clear_noop(w: u32, b: u32)
    by (bit_vector)
    requires
        b < 32,
        !nth_bit(w, b),
    ensures
        w & !(1u32 << b) == w,
{
}

/// Setting or clearing one bit of a 32-word array of 1024 bits, addressed
/// as word `i / 32`, bit `i % 32`, changes exactly bit `i`.
pub proof fn lemma_flip_bit(a: Seq<u32>, b: Seq<u32>, i: int, on: bool)
    requires
        a.len() == 32,
        0 <= i < 1024,
        b == a.update(
            i / 32,
            if on {
                a[i / 32] | (1u32 << (i % 32) as u32)
            } else {
                a[i / 32] & !(1u32 << (i % 32) as u32)
            },
        ),
    ensures
        forall|j: int|
            0 <= j < 1024 ==> #[trigger] nth_bit(b[j / 32], (j % 32) as u32) == (if j == i {
                on
            } else {
                nth_bit(a[j / 32], (j % 32) as u32)
            }),
{
    assert forall|j: int| 0 <= j < 1024 implies #[trigger] nth_bit(b[j / 32], (j % 32) as u32)
        == (if j == i {
        on
    } else {
        nth_bit(a[j / 32], (j % 32) as u32)
    }) by {
        vstd::arithmetic::div_mod::lemma_fundamental_div_mod(j, 32);
        vstd::arithmetic::div_mod::lemma_fundamental_div_mod(i, 32);
        if j / 32 == i / 32 {
            if on {
                lemma_set_bit(a[i / 32], (i % 32) as u32, (j % 32) as u32);
            } else {
                lemma_clear_bit(a[i / 32], (i % 32) as u32, (j % 32) as u32);
            }
        }
    }
}

/// The claim-register encoding (identifier in the high half, its priority in
/// the low half) recovers the identifier by a right shift of 16.
pub proof fn lemma_topei_encoding(x: u32)
    by (bit_vector)
    requires
        x < 1024,
    ensures
        ((x << 16) | x) >> 16 == x,
        ((x << 16) | x) == 0 <==> x == 0,
{
}

} // verus!
