//! Stacks of up to eight byte sets, packed into one byte-indexed table.
use vstd::prelude::*;

use crate::bit::{Bit, B0};
use crate::set::AnyByteSet;
use core::marker::PhantomData;

verus! {

/// Whether bit `k` of the table entry `m` is set.
pub open spec fn entry_bit(m: u8, k: int) -> bool {
    m & (1u8 << (k as u8)) != 0
}

proof fn lemma_entry_set(m: u8, j: u8, k: u8)
    by (bit_vector)
    requires
        j < 8,
        k < 8,
    ensures
        ((m | (1u8 << k)) & (1u8 << j) != 0) == (j == k || m & (1u8 << j) != 0),
{
}

proof fn lemma_entry_zero(j: u8)
    by (bit_vector)
    requires
        j < 8,
    ensures
        0u8 & (1u8 << j) == 0,
{
}

/// A table of `N` entries, one per byte value, where bit `k` of the entry
/// for `v` records whether `v` is in the set held in slot `k`. `B` is the
/// token of the next free slot.
#[derive(Debug, PartialEq, Eq)]
pub struct AnyByteStack<B, const N: usize> {
    pub(crate) masks: [u8; N],
    pub(crate) current: PhantomData<B>,
}

impl<B, const N: usize> Clone for AnyByteStack<B, N> {
    fn clone(&self) -> Self {
        AnyByteStack { masks: self.masks, current: PhantomData }
    }
}

impl<B, const N: usize> Copy for AnyByteStack<B, N> {

}

/// A stack of up to eight ASCII sets.
pub type AsciiStack<B = ()> = AnyByteStack<B, 128>;

/// A stack of up to eight sets of any bytes.
pub type ByteStack<B = ()> = AnyByteStack<B, 256>;

impl<B, const N: usize> AnyByteStack<B, N> {
    /// Whether `v` is in the set held in slot `k`.
    pub open(crate) spec fn slot_has(&self, k: int, v: int) -> bool {
        0 <= k < 8 && 0 <= v < N && entry_bit(self.masks[v], k)
    }

    /// The set held in slot `k`.
    pub open spec fn slot(&self, k: int) -> Set<int> {
        Set::new(|v: int| self.slot_has(k, v))
    }

    /// Every slot holds the empty set.
    pub open spec fn is_blank(&self) -> bool {
        forall|k: int| 0 <= k < 8 ==> #[trigger] self.slot(k) == Set::<int>::empty()
    }

    /// `self` is `prev` with the members of `aset` added to slot `k`, and
    /// every other slot as it was.
    pub open spec fn is_fold_of<C, const M: usize>(
        &self,
        prev: AnyByteStack<C, N>,
        aset: AnyByteSet<M>,
        k: int,
    ) -> bool {
        forall|j: int|
            0 <= j < 8 ==> #[trigger] self.slot(j) == if j == k {
                prev.slot(j).union(aset@)
            } else {
                prev.slot(j)
            }
    }
}

impl<B: Bit, const N: usize> AnyByteStack<B, N> {
    /// Adds the set to the next free slot of this stack.
    pub fn add_set<const M: usize>(&self, aset: AnyByteSet<M>) -> (r: AnyByteStack<
        B::Successor,
        N,
    >)
        requires
            64 * M <= N,
        ensures
            r.is_fold_of(*self, aset, B::index() as int),
    {
        let k: u8 = B::number();
        let bit: u8 = 1u8 << k;
        let mut masks = self.masks;
        let mut i: usize = 0;
        while i < M
            invariant
                i <= M,
                64 * M <= N,
                k as nat == B::index(),
                k < 8,
                bit == 1u8 << k,
                forall|v: int|
                    0 <= v < N ==> #[trigger] masks[v] == if v < 64 * i && aset.has(v) {
                        self.masks[v] | bit
                    } else {
                        self.masks[v]
                    },
            decreases M - i,
        {
            let chunk: u64 = aset.mask[i];
            let mut j: usize = 0;
            while j < 64
                invariant
                    i < M,
                    j <= 64,
                    64 * M <= N,
                    chunk == aset.mask[i as int],
                    forall|v: int|
                        0 <= v < N ==> #[trigger] masks[v] == if v < 64 * i + j && aset.has(v) {
                            self.masks[v] | bit
                        } else {
                            self.masks[v]
                        },
                decreases 64 - j,
            {
                proof {
                    assert(i * 64 + j < N) by (nonlinear_arith)
                        requires
                            i < M,
                            j < 64,
                            64 * M <= N,
                    ;
                }
                let v: usize = i * 64 + j;
                if chunk & (1u64 << (j as u64)) != 0 {
                    masks[v] = masks[v] | bit;
                }
                proof {
                    assert((v as int) / 64 == i as int && (v as int) % 64 == j as int);
                }
                j += 1;
            }
            i += 1;
        }
        let r = AnyByteStack { masks, current: PhantomData };
        proof {
            assert forall|j: int| 0 <= j < 8 implies #[trigger] r.slot(j) == if j == B::index() {
                self.slot(j).union(aset@)
            } else {
                self.slot(j)
            } by {
                assert forall|v: int| 0 <= v < N implies r.slot_has(j, v) == (self.slot_has(j, v)
                    || (j == B::index() && aset.has(v))) by {
                    if aset.has(v) {
                        lemma_entry_set(self.masks[v], j as u8, k);
                    }
                }
                if j == B::index() {
                    assert(r.slot(j) =~= self.slot(j).union(aset@));
                } else {
                    assert(r.slot(j) =~= self.slot(j));
                }
            }
        }
        r
    }
}

impl<T> AnyByteStack<T, 128> {
    /// Tests whether the set in the slot `B` of the stack contains the
    /// `byte`; a byte outside the ASCII range is never a member.
    pub fn contains<B: Bit>(&self, byte: u8) -> (r: bool)
        ensures
            r == self.slot(B::index() as int).contains(byte as int),
            byte >= 128 ==> !r,
    {
        let k: u8 = B::number();
        byte < 128 && self.masks[byte as usize] & (1u8 << k) != 0
    }
}

impl AnyByteStack<B0, 128> {
    /// Creates a new, empty, `AsciiStack`.
    pub fn new() -> (r: Self)
        ensures
            r.is_blank(),
    {
        let r = AnyByteStack { masks: [0u8; 128], current: PhantomData };
        proof {
            lemma_blank(r);
        }
        r
    }
}

impl<T> AnyByteStack<T, 256> {
    /// Tests whether the set in the slot `B` of the stack contains the
    /// `byte`.
    pub fn contains<B: Bit>(&self, byte: u8) -> (r: bool)
        ensures
            r == self.slot(B::index() as int).contains(byte as int),
    {
        let k: u8 = B::number();
        self.masks[byte as usize] & (1u8 << k) != 0
    }
}

impl AnyByteStack<B0, 256> {
    /// Creates a new, empty, `ByteStack`.
    pub fn new() -> (r: Self)
        ensures
            r.is_blank(),
    {
        let r = AnyByteStack { masks: [0u8; 256], current: PhantomData };
        proof {
            lemma_blank(r);
        }
        r
    }
}

proof fn lemma_blank<B, const N: usize>(t: AnyByteStack<B, N>)
    requires
        forall|v: int| 0 <= v < N ==> t.masks[v] == 0,
    ensures
        t.is_blank(),
{
    assert forall|k: int| 0 <= k < 8 implies #[trigger] t.slot(k) == Set::<int>::empty() by {
        lemma_entry_zero(k as u8);
        assert(t.slot(k) =~= Set::<int>::empty());
    }
}

/// A stack built from an empty one by folding `s0`, `s1` and `s2` in turn
/// holds each of them, unchanged, in the slot it was folded into, and
/// nothing in the other slots; the sets may be any, in any order.
pub proof fn lemma_fold_three<T0, T1, T2, T3, const N: usize, const M0: usize, const M1: usize, const M2: usize>(
    t0: AnyByteStack<T0, N>,
    t1: AnyByteStack<T1, N>,
    t2: AnyByteStack<T2, N>,
    t3: AnyByteStack<T3, N>,
    s0: AnyByteSet<M0>,
    s1: AnyByteSet<M1>,
    s2: AnyByteSet<M2>,
)
    requires
        t0.is_blank(),
        t1.is_fold_of(t0, s0, 0),
        t2.is_fold_of(t1, s1, 1),
        t3.is_fold_of(t2, s2, 2),
    ensures
        t3.slot(0) == s0@,
        t3.slot(1) == s1@,
        t3.slot(2) == s2@,
        forall|k: int| 3 <= k < 8 ==> #[trigger] t3.slot(k) == Set::<int>::empty(),
{
    assert(t3.slot(0) =~= s0@);
    assert(t3.slot(1) =~= s1@);
    assert(t3.slot(2) =~= s2@);
}

/// A stack built from an empty one by folding eight sets in turn holds each
/// of them, unchanged, in the slot it was folded into.
pub proof fn lemma_fold_eight<T0, T1, T2, T3, T4, T5, T6, T7, T8, const N: usize, const M0: usize, const M1: usize, const M2: usize, const M3: usize, const M4: usize, const M5: usize, const M6: usize, const M7: usize>(
    t0: AnyByteStack<T0, N>,
    t1: AnyByteStack<T1, N>,
    t2: AnyByteStack<T2, N>,
    t3: AnyByteStack<T3, N>,
    t4: AnyByteStack<T4, N>,
    t5: AnyByteStack<T5, N>,
    t6: AnyByteStack<T6, N>,
    t7: AnyByteStack<T7, N>,
    t8: AnyByteStack<T8, N>,
    s0: AnyByteSet<M0>,
    s1: AnyByteSet<M1>,
    s2: AnyByteSet<M2>,
    s3: AnyByteSet<M3>,
    s4: AnyByteSet<M4>,
    s5: AnyByteSet<M5>,
    s6: AnyByteSet<M6>,
    s7: AnyByteSet<M7>,
)
    requires
        t0.is_blank(),
        t1.is_fold_of(t0, s0, 0),
        t2.is_fold_of(t1, s1, 1),
        t3.is_fold_of(t2, s2, 2),
        t4.is_fold_of(t3, s3, 3),
        t5.is_fold_of(t4, s4, 4),
        t6.is_fold_of(t5, s5, 5),
        t7.is_fold_of(t6, s6, 6),
        t8.is_fold_of(t7, s7, 7),
    ensures
        t8.slot(0) == s0@,
        t8.slot(1) == s1@,
        t8.slot(2) == s2@,
        t8.slot(3) == s3@,
        t8.slot(4) == s4@,
        t8.slot(5) == s5@,
        t8.slot(6) == s6@,
        t8.slot(7) == s7@,
{
    assert(t8.slot(0) =~= s0@);
    assert(t8.slot(1) =~= s1@);
    assert(t8.slot(2) =~= s2@);
    assert(t8.slot(3) =~= s3@);
    assert(t8.slot(4) =~= s4@);
    assert(t8.slot(5) =~= s5@);
    assert(t8.slot(6) =~= s6@);
    assert(t8.slot(7) =~= s7@);
}

} // verus!
