//! Sets of bytes kept as arrays of 64-bit masks.
use vstd::prelude::*;

verus! {

/// Number of values in the ASCII range.
pub const ASCII_RANGE_LEN: usize = 128;

/// Size in bytes of one chunk of a set's mask.
pub const CHUNK_SIZE: usize = 8;

/// Number of values that one chunk of a set's mask covers.
pub const BITS_PER_CHUNK: usize = 64;

/// Number of chunks in an ASCII set.
pub const CHUNKS: usize = 2;

/// Whether bit `j` of the chunk `w` is set.
pub open spec fn chunk_bit(w: u64, j: int) -> bool {
    w & (1u64 << (j as u64)) != 0
}

/// The values that a set of `n` chunks can hold: `0 .. 64 * n`.
pub open spec fn domain(n: int) -> Set<int> {
    Set::new(|v: int| 0 <= v < 64 * n)
}

/// The values `lo ..= hi`.
pub open spec fn interval(lo: int, hi: int) -> Set<int> {
    Set::new(|v: int| lo <= v <= hi)
}

/// The values that occur in `s`.
pub open spec fn byte_set(s: Seq<u8>) -> Set<int> {
    Set::new(|v: int| exists|i: int| 0 <= i < s.len() && s[i] as int == v)
}

/// The reserved URI characters of RFC 3986, section 2.2.
pub open spec fn uri_reserved_set() -> Set<int> {
    set![
        33int, 35, 36, 38, 39, 40,
        41, 42, 43, 44, 47, 58,
        59, 61, 63, 64, 91, 93,
    ]
}

/// A set of byte values held in `N` chunks of 64 bits: value `v` is a member
/// when bit `v % 64` of chunk `v / 64` is set.
#[derive(Clone, Copy, Debug, PartialEq, Eq)]
pub struct AnyByteSet<const N: usize> {
    pub(crate) mask: [u64; N],
}

/// A set of ASCII bytes (`0 .. 128`).
pub type AsciiSet = AnyByteSet<2>;

/// A set of any bytes (`0 .. 256`).
pub type ByteSet = AnyByteSet<4>;

proof fn lemma_bit_zero(j: u64)
    by (bit_vector)
    requires
        j < 64,
    ensures
        0u64 & (1u64 << j) == 0,
{
}

proof fn lemma_bit_set(w: u64, j: u64, k: u64)
    by (bit_vector)
    requires
        j < 64,
        k < 64,
    ensures
        ((w | (1u64 << k)) & (1u64 << j) != 0) == (j == k || w & (1u64 << j) != 0),
{
}

proof fn lemma_bit_clear(w: u64, j: u64, k: u64)
    by (bit_vector)
    requires
        j < 64,
        k < 64,
    ensures
        ((w & !(1u64 << k)) & (1u64 << j) != 0) == (j != k && w & (1u64 << j) != 0),
{
}

proof fn lemma_bit_or(a: u64, b: u64, j: u64)
    by (bit_vector)
    requires
        j < 64,
    ensures
        ((a | b) & (1u64 << j) != 0) == (a & (1u64 << j) != 0 || b & (1u64 << j) != 0),
{
}

proof fn lemma_bit_and(a: u64, b: u64, j: u64)
    by (bit_vector)
    requires
        j < 64,
    ensures
        ((a & b) & (1u64 << j) != 0) == (a & (1u64 << j) != 0 && b & (1u64 << j) != 0),
{
}

proof fn lemma_bit_not(a: u64, j: u64)
    by (bit_vector)
    requires
        j < 64,
    ensures
        (!a & (1u64 << j) != 0) == !(a & (1u64 << j) != 0),
{
}

proof fn lemma_byte_set_push(s: Seq<u8>, i: int)
    requires
        0 <= i < s.len(),
    ensures
        byte_set(s.take(i + 1)) == byte_set(s.take(i)).insert(s[i] as int),
{
    let a = byte_set(s.take(i + 1));
    let b = byte_set(s.take(i)).insert(s[i] as int);
    assert forall|v: int| a.contains(v) implies b.contains(v) by {
        let j = choose|j: int| 0 <= j < s.take(i + 1).len() && #[trigger] s.take(i + 1)[j] as int == v;
        if j < i {
            assert(s.take(i)[j] == s[j]);
        }
    }
    assert forall|v: int| b.contains(v) implies a.contains(v) by {
        if v == s[i] as int {
            assert(s.take(i + 1)[i] == s[i]);
        } else {
            let j = choose|j: int| 0 <= j < s.take(i).len() && #[trigger] s.take(i)[j] as int == v;
            assert(s.take(i + 1)[j] == s[j]);
        }
    }
    assert(a =~= b);
}

/// Relies on `RangeInclusive::start`: it returns the range's lower bound.
pub assume_specification<Idx>[ core::ops::RangeInclusive::<Idx>::start ](
    range: &core::ops::RangeInclusive<Idx>,
) -> (r: &Idx)
    ensures
        *r == range@.start,
;

/// Relies on `RangeInclusive::end`: it returns the range's upper bound.
pub assume_specification<Idx>[ core::ops::RangeInclusive::<Idx>::end ](
    range: &core::ops::RangeInclusive<Idx>,
) -> (r: &Idx)
    ensures
        *r == range@.end,
;

proof fn lemma_chunk_bits_equal(x: u64, y: u64)
    requires
        forall|j: int| 0 <= j < 64 ==> chunk_bit(x, j) == chunk_bit(y, j),
    ensures
        x == y,
{
    assert(chunk_bit(x, 0) == chunk_bit(y, 0));
    assert(chunk_bit(x, 1) == chunk_bit(y, 1));
    assert(chunk_bit(x, 2) == chunk_bit(y, 2));
    assert(chunk_bit(x, 3) == chunk_bit(y, 3));
    assert(chunk_bit(x, 4) == chunk_bit(y, 4));
    assert(chunk_bit(x, 5) == chunk_bit(y, 5));
    assert(chunk_bit(x, 6) == chunk_bit(y, 6));
    assert(chunk_bit(x, 7) == chunk_bit(y, 7));
    assert(chunk_bit(x, 8) == chunk_bit(y, 8));
    assert(chunk_bit(x, 9) == chunk_bit(y, 9));
    assert(chunk_bit(x, 10) == chunk_bit(y, 10));
    assert(chunk_bit(x, 11) == chunk_bit(y, 11));
    assert(chunk_bit(x, 12) == chunk_bit(y, 12));
    assert(chunk_bit(x, 13) == chunk_bit(y, 13));
    assert(chunk_bit(x, 14) == chunk_bit(y, 14));
    assert(chunk_bit(x, 15) == chunk_bit(y, 15));
    assert(chunk_bit(x, 16) == chunk_bit(y, 16));
    assert(chunk_bit(x, 17) == chunk_bit(y, 17));
    assert(chunk_bit(x, 18) == chunk_bit(y, 18));
    assert(chunk_bit(x, 19) == chunk_bit(y, 19));
    assert(chunk_bit(x, 20) == chunk_bit(y, 20));
    assert(chunk_bit(x, 21) == chunk_bit(y, 21));
    assert(chunk_bit(x, 22) == chunk_bit(y, 22));
    assert(chunk_bit(x, 23) == chunk_bit(y, 23));
    assert(chunk_bit(x, 24) == chunk_bit(y, 24));
    assert(chunk_bit(x, 25) == chunk_bit(y, 25));
    assert(chunk_bit(x, 26) == chunk_bit(y, 26));
    assert(chunk_bit(x, 27) == chunk_bit(y, 27));
    assert(chunk_bit(x, 28) == chunk_bit(y, 28));
    assert(chunk_bit(x, 29) == chunk_bit(y, 29));
    assert(chunk_bit(x, 30) == chunk_bit(y, 30));
    assert(chunk_bit(x, 31) == chunk_bit(y, 31));
    assert(chunk_bit(x, 32) == chunk_bit(y, 32));
    assert(chunk_bit(x, 33) == chunk_bit(y, 33));
    assert(chunk_bit(x, 34) == chunk_bit(y, 34));
    assert(chunk_bit(x, 35) == chunk_bit(y, 35));
    assert(chunk_bit(x, 36) == chunk_bit(y, 36));
    assert(chunk_bit(x, 37) == chunk_bit(y, 37));
    assert(chunk_bit(x, 38) == chunk_bit(y, 38));
    assert(chunk_bit(x, 39) == chunk_bit(y, 39));
    assert(chunk_bit(x, 40) == chunk_bit(y, 40));
    assert(chunk_bit(x, 41) == chunk_bit(y, 41));
    assert(chunk_bit(x, 42) == chunk_bit(y, 42));
    assert(chunk_bit(x, 43) == chunk_bit(y, 43));
    assert(chunk_bit(x, 44) == chunk_bit(y, 44));
    assert(chunk_bit(x, 45) == chunk_bit(y, 45));
    assert(chunk_bit(x, 46) == chunk_bit(y, 46));
    assert(chunk_bit(x, 47) == chunk_bit(y, 47));
    assert(chunk_bit(x, 48) == chunk_bit(y, 48));
    assert(chunk_bit(x, 49) == chunk_bit(y, 49));
    assert(chunk_bit(x, 50) == chunk_bit(y, 50));
    assert(chunk_bit(x, 51) == chunk_bit(y, 51));
    assert(chunk_bit(x, 52) == chunk_bit(y, 52));
    assert(chunk_bit(x, 53) == chunk_bit(y, 53));
    assert(chunk_bit(x, 54) == chunk_bit(y, 54));
    assert(chunk_bit(x, 55) == chunk_bit(y, 55));
    assert(chunk_bit(x, 56) == chunk_bit(y, 56));
    assert(chunk_bit(x, 57) == chunk_bit(y, 57));
    assert(chunk_bit(x, 58) == chunk_bit(y, 58));
    assert(chunk_bit(x, 59) == chunk_bit(y, 59));
    assert(chunk_bit(x, 60) == chunk_bit(y, 60));
    assert(chunk_bit(x, 61) == chunk_bit(y, 61));
    assert(chunk_bit(x, 62) == chunk_bit(y, 62));
    assert(chunk_bit(x, 63) == chunk_bit(y, 63));
    assert(x == y) by (bit_vector)
        requires
        (x & (1u64 << 0u64) != 0) == (y & (1u64 << 0u64) != 0),
        (x & (1u64 << 1u64) != 0) == (y & (1u64 << 1u64) != 0),
        (x & (1u64 << 2u64) != 0) == (y & (1u64 << 2u64) != 0),
        (x & (1u64 << 3u64) != 0) == (y & (1u64 << 3u64) != 0),
        (x & (1u64 << 4u64) != 0) == (y & (1u64 << 4u64) != 0),
        (x & (1u64 << 5u64) != 0) == (y & (1u64 << 5u64) != 0),
        (x & (1u64 << 6u64) != 0) == (y & (1u64 << 6u64) != 0),
        (x & (1u64 << 7u64) != 0) == (y & (1u64 << 7u64) != 0),
        (x & (1u64 << 8u64) != 0) == (y & (1u64 << 8u64) != 0),
        (x & (1u64 << 9u64) != 0) == (y & (1u64 << 9u64) != 0),
        (x & (1u64 << 10u64) != 0) == (y & (1u64 << 10u64) != 0),
        (x & (1u64 << 11u64) != 0) == (y & (1u64 << 11u64) != 0),
        (x & (1u64 << 12u64) != 0) == (y & (1u64 << 12u64) != 0),
        (x & (1u64 << 13u64) != 0) == (y & (1u64 << 13u64) != 0),
        (x & (1u64 << 14u64) != 0) == (y & (1u64 << 14u64) != 0),
        (x & (1u64 << 15u64) != 0) == (y & (1u64 << 15u64) != 0),
        (x & (1u64 << 16u64) != 0) == (y & (1u64 << 16u64) != 0),
        (x & (1u64 << 17u64) != 0) == (y & (1u64 << 17u64) != 0),
        (x & (1u64 << 18u64) != 0) == (y & (1u64 << 18u64) != 0),
        (x & (1u64 << 19u64) != 0) == (y & (1u64 << 19u64) != 0),
        (x & (1u64 << 20u64) != 0) == (y & (1u64 << 20u64) != 0),
        (x & (1u64 << 21u64) != 0) == (y & (1u64 << 21u64) != 0),
        (x & (1u64 << 22u64) != 0) == (y & (1u64 << 22u64) != 0),
        (x & (1u64 << 23u64) != 0) == (y & (1u64 << 23u64) != 0),
        (x & (1u64 << 24u64) != 0) == (y & (1u64 << 24u64) != 0),
        (x & (1u64 << 25u64) != 0) == (y & (1u64 << 25u64) != 0),
        (x & (1u64 << 26u64) != 0) == (y & (1u64 << 26u64) != 0),
        (x & (1u64 << 27u64) != 0) == (y & (1u64 << 27u64) != 0),
        (x & (1u64 << 28u64) != 0) == (y & (1u64 << 28u64) != 0),
        (x & (1u64 << 29u64) != 0) == (y & (1u64 << 29u64) != 0),
        (x & (1u64 << 30u64) != 0) == (y & (1u64 << 30u64) != 0),
        (x & (1u64 << 31u64) != 0) == (y & (1u64 << 31u64) != 0),
        (x & (1u64 << 32u64) != 0) == (y & (1u64 << 32u64) != 0),
        (x & (1u64 << 33u64) != 0) == (y & (1u64 << 33u64) != 0),
        (x & (1u64 << 34u64) != 0) == (y & (1u64 << 34u64) != 0),
        (x & (1u64 << 35u64) != 0) == (y & (1u64 << 35u64) != 0),
        (x & (1u64 << 36u64) != 0) == (y & (1u64 << 36u64) != 0),
        (x & (1u64 << 37u64) != 0) == (y & (1u64 << 37u64) != 0),
        (x & (1u64 << 38u64) != 0) == (y & (1u64 << 38u64) != 0),
        (x & (1u64 << 39u64) != 0) == (y & (1u64 << 39u64) != 0),
        (x & (1u64 << 40u64) != 0) == (y & (1u64 << 40u64) != 0),
        (x & (1u64 << 41u64) != 0) == (y & (1u64 << 41u64) != 0),
        (x & (1u64 << 42u64) != 0) == (y & (1u64 << 42u64) != 0),
        (x & (1u64 << 43u64) != 0) == (y & (1u64 << 43u64) != 0),
        (x & (1u64 << 44u64) != 0) == (y & (1u64 << 44u64) != 0),
        (x & (1u64 << 45u64) != 0) == (y & (1u64 << 45u64) != 0),
        (x & (1u64 << 46u64) != 0) == (y & (1u64 << 46u64) != 0),
        (x & (1u64 << 47u64) != 0) == (y & (1u64 << 47u64) != 0),
        (x & (1u64 << 48u64) != 0) == (y & (1u64 << 48u64) != 0),
        (x & (1u64 << 49u64) != 0) == (y & (1u64 << 49u64) != 0),
        (x & (1u64 << 50u64) != 0) == (y & (1u64 << 50u64) != 0),
        (x & (1u64 << 51u64) != 0) == (y & (1u64 << 51u64) != 0),
        (x & (1u64 << 52u64) != 0) == (y & (1u64 << 52u64) != 0),
        (x & (1u64 << 53u64) != 0) == (y & (1u64 << 53u64) != 0),
        (x & (1u64 << 54u64) != 0) == (y & (1u64 << 54u64) != 0),
        (x & (1u64 << 55u64) != 0) == (y & (1u64 << 55u64) != 0),
        (x & (1u64 << 56u64) != 0) == (y & (1u64 << 56u64) != 0),
        (x & (1u64 << 57u64) != 0) == (y & (1u64 << 57u64) != 0),
        (x & (1u64 << 58u64) != 0) == (y & (1u64 << 58u64) != 0),
        (x & (1u64 << 59u64) != 0) == (y & (1u64 << 59u64) != 0),
        (x & (1u64 << 60u64) != 0) == (y & (1u64 << 60u64) != 0),
        (x & (1u64 << 61u64) != 0) == (y & (1u64 << 61u64) != 0),
        (x & (1u64 << 62u64) != 0) == (y & (1u64 << 62u64) != 0),
        (x & (1u64 << 63u64) != 0) == (y & (1u64 << 63u64) != 0),
    ;
}

impl<const N: usize> View for AnyByteSet<N> {
    type V = Set<int>;

    /// The member values.
    open spec fn view(&self) -> Set<int> {
        Set::new(|v: int| self.has(v))
    }
}

impl<const N: usize> AnyByteSet<N> {
    /// Whether `v` is a member.
    pub open(crate) spec fn has(&self, v: int) -> bool {
        0 <= v < 64 * N && chunk_bit(self.mask[v / 64], v % 64)
    }

    /// The set with no members.
    fn blank() -> (r: Self)
        ensures
            r@ == Set::<int>::empty(),
    {
        let r = Self { mask: [0u64; N] };
        proof {
            assert forall|v: int| !r.has(v) by {
                if 0 <= v < 64 * N {
                    lemma_bit_zero((v % 64) as u64);
                }
            }
            assert(r@ =~= Set::<int>::empty());
        }
        r
    }

    /// Adds the `byte` to the set.
    pub fn add(&self, byte: u8) -> (r: Self)
        requires
            (byte as int) < 64 * N,
        ensures
            r@ == self@.insert(byte as int),
    {
        let i: usize = byte as usize / 64;
        let k: u64 = (byte % 64) as u64;
        let mut mask = self.mask;
        mask[i] = mask[i] | (1u64 << k);
        let r = Self { mask };
        proof {
            assert forall|v: int| r.has(v) == (self.has(v) || v == byte as int) by {
                if 0 <= v < 64 * N && v / 64 == i as int {
                    lemma_bit_set(self.mask[i as int], (v % 64) as u64, k);
                }
            }
            assert(r@ =~= self@.insert(byte as int));
        }
        r
    }

    /// Removes the `byte` from the set.
    pub fn remove(&self, byte: u8) -> (r: Self)
        requires
            (byte as int) < 64 * N,
        ensures
            r@ == self@.remove(byte as int),
    {
        let i: usize = byte as usize / 64;
        let k: u64 = (byte % 64) as u64;
        let mut mask = self.mask;
        mask[i] = mask[i] & !(1u64 << k);
        let r = Self { mask };
        proof {
            assert forall|v: int| r.has(v) == (self.has(v) && v != byte as int) by {
                if 0 <= v < 64 * N && v / 64 == i as int {
                    lemma_bit_clear(self.mask[i as int], (v % 64) as u64, k);
                }
            }
            assert(r@ =~= self@.remove(byte as int));
        }
        r
    }

    /// Adds every byte of the slice to the set.
    pub fn add_bytes(&self, bytes: &[u8]) -> (r: Self)
        requires
            forall|i: int| 0 <= i < bytes@.len() ==> (bytes@[i] as int) < 64 * N,
        ensures
            r@ == self@.union(byte_set(bytes@)),
    {
        let mut aset = *self;
        let mut i: usize = 0;
        while i < bytes.len()
            invariant
                i <= bytes@.len(),
                forall|j: int| 0 <= j < bytes@.len() ==> (bytes@[j] as int) < 64 * N,
                aset@ == self@.union(byte_set(bytes@.take(i as int))),
            decreases bytes@.len() - i,
        {
            proof {
                lemma_byte_set_push(bytes@, i as int);
            }
            aset = aset.add(bytes[i]);
            i += 1;
        }
        proof {
            assert(bytes@.take(i as int) =~= bytes@);
            assert(aset@ =~= self@.union(byte_set(bytes@)));
        }
        aset
    }

    /// Removes every byte of the slice from the set.
    pub fn remove_bytes(&self, bytes: &[u8]) -> (r: Self)
        requires
            forall|i: int| 0 <= i < bytes@.len() ==> (bytes@[i] as int) < 64 * N,
        ensures
            r@ == self@.difference(byte_set(bytes@)),
    {
        let mut aset = *self;
        let mut i: usize = 0;
        while i < bytes.len()
            invariant
                i <= bytes@.len(),
                forall|j: int| 0 <= j < bytes@.len() ==> (bytes@[j] as int) < 64 * N,
                aset@ == self@.difference(byte_set(bytes@.take(i as int))),
            decreases bytes@.len() - i,
        {
            proof {
                lemma_byte_set_push(bytes@, i as int);
            }
            aset = aset.remove(bytes[i]);
            i += 1;
            proof {
                assert(aset@ =~= self@.difference(byte_set(bytes@.take(i as int))));
            }
        }
        proof {
            assert(bytes@.take(i as int) =~= bytes@);
        }
        aset
    }

    /// Adds every byte of the inclusive range to the set. An empty range
    /// (`start > end`) leaves the set as it is.
    pub fn add_range(&self, range: core::ops::RangeInclusive<u8>) -> (r: Self)
        requires
            range@.start <= range@.end ==> (range@.end as int) < 64 * N,
        ensures
            r@ == self@.union(interval(range@.start as int, range@.end as int)),
    {
        let lo: u8 = *range.start();
        let hi: u8 = *range.end();
        let mut aset = *self;
        let mut c: u16 = lo as u16;
        while c <= hi as u16
            invariant
                lo <= c <= hi as u16 + 1 || (c == lo && lo > hi),
                lo <= hi ==> (hi as int) < 64 * N,
                aset@ == self@.union(interval(lo as int, c as int - 1)),
            decreases hi as u16 + 1 - c,
        {
            aset = aset.add(c as u8);
            c += 1;
            proof {
                assert(aset@ =~= self@.union(interval(lo as int, c as int - 1)));
            }
        }
        proof {
            assert(interval(lo as int, c as int - 1) =~= interval(lo as int, hi as int));
        }
        aset
    }

    /// Removes every byte of the inclusive range from the set. An empty range
    /// (`start > end`) leaves the set as it is.
    pub fn remove_range(&self, range: core::ops::RangeInclusive<u8>) -> (r: Self)
        requires
            range@.start <= range@.end ==> (range@.end as int) < 64 * N,
        ensures
            r@ == self@.difference(interval(range@.start as int, range@.end as int)),
    {
        let lo: u8 = *range.start();
        let hi: u8 = *range.end();
        let mut aset = *self;
        let mut c: u16 = lo as u16;
        while c <= hi as u16
            invariant
                lo <= c <= hi as u16 + 1 || (c == lo && lo > hi),
                lo <= hi ==> (hi as int) < 64 * N,
                aset@ == self@.difference(interval(lo as int, c as int - 1)),
            decreases hi as u16 + 1 - c,
        {
            aset = aset.remove(c as u8);
            c += 1;
            proof {
                assert(aset@ =~= self@.difference(interval(lo as int, c as int - 1)));
            }
        }
        proof {
            assert(interval(lo as int, c as int - 1) =~= interval(lo as int, hi as int));
        }
        aset
    }

    /// Returns the union of this set and `other`, which may not be larger.
    pub fn union<const M: usize>(&self, other: AnyByteSet<M>) -> (r: Self)
        requires
            M <= N,
        ensures
            r@ == self@.union(other@),
    {
        let mut mask = [0u64; N];
        let mut i: usize = 0;
        while i < N
            invariant
                i <= N,
                M <= N,
                forall|j: int| 0 <= j < i ==> mask[j] == (if j < M {
                    self.mask[j] | other.mask[j]
                } else {
                    self.mask[j]
                }),
            decreases N - i,
        {
            if i < M {
                mask[i] = self.mask[i] | other.mask[i];
            } else {
                mask[i] = self.mask[i];
            }
            i += 1;
        }
        let r = Self { mask };
        proof {
            assert forall|v: int| r.has(v) == (self.has(v) || other.has(v)) by {
                if 0 <= v < 64 * N && v / 64 < M {
                    lemma_bit_or(self.mask[v / 64], other.mask[v / 64], (v % 64) as u64);
                }
            }
            assert(r@ =~= self@.union(other@));
        }
        r
    }

    /// Returns the intersection of this set and `other`, which may not be
    /// larger.
    pub fn intersection<const M: usize>(&self, other: AnyByteSet<M>) -> (r: Self)
        requires
            M <= N,
        ensures
            r@ == self@.intersect(other@),
    {
        let mut mask = [0u64; N];
        let mut i: usize = 0;
        while i < M
            invariant
                i <= M,
                M <= N,
                forall|j: int| 0 <= j < i ==> mask[j] == self.mask[j] & other.mask[j],
                forall|j: int| i <= j < N ==> mask[j] == 0,
            decreases M - i,
        {
            mask[i] = self.mask[i] & other.mask[i];
            i += 1;
        }
        let r = Self { mask };
        proof {
            assert forall|v: int| r.has(v) == (self.has(v) && other.has(v)) by {
                if 0 <= v < 64 * N {
                    if v / 64 < M {
                        lemma_bit_and(self.mask[v / 64], other.mask[v / 64], (v % 64) as u64);
                    } else {
                        lemma_bit_zero((v % 64) as u64);
                    }
                }
            }
            assert(r@ =~= self@.intersect(other@));
        }
        r
    }

    /// Returns the set of the values of the domain that are not in `self`.
    /// Domains are whole chunks (128 or 256 values), so there are no padding
    /// bits: complementing twice gives back the same value.
    pub fn complement(&self) -> (r: Self)
        ensures
            r@ == domain(N as int).difference(self@),
    {
        let mut mask = self.mask;
        let mut i: usize = 0;
        while i < N
            invariant
                i <= N,
                forall|j: int| 0 <= j < i ==> mask[j] == !self.mask[j],
                forall|j: int| i <= j < N ==> mask[j] == self.mask[j],
            decreases N - i,
        {
            mask[i] = !mask[i];
            i += 1;
        }
        let r = Self { mask };
        proof {
            assert forall|v: int| r.has(v) == (0 <= v < 64 * N && !self.has(v)) by {
                if 0 <= v < 64 * N {
                    lemma_bit_not(self.mask[v / 64], (v % 64) as u64);
                }
            }
            assert(r@ =~= domain(N as int).difference(self@));
        }
        r
    }

    /// Returns the values of `self` that are not in `other`, which may not be
    /// larger: the intersection with the complement of `other`.
    pub fn difference<const M: usize>(&self, other: AnyByteSet<M>) -> (r: Self)
        requires
            M <= N,
        ensures
            r@ == self@.intersect(domain(M as int).difference(other@)),
    {
        self.intersection(other.complement())
    }
}

impl<const N: usize> AnyByteSet<N> {
    /// Lowercase letters (`a` - `z`).
    pub fn lowercase() -> (r: Self)
        requires
            2 <= N,
        ensures
            r@ == interval(97, 122),
    {
        let r = Self::blank().add_range(97u8..=122u8);
        proof {
            assert(r@ =~= interval(97, 122));
        }
        r
    }

    /// Uppercase letters (`A` - `Z`).
    pub fn uppercase() -> (r: Self)
        requires
            2 <= N,
        ensures
            r@ == interval(65, 90),
    {
        let r = Self::blank().add_range(65u8..=90u8);
        proof {
            assert(r@ =~= interval(65, 90));
        }
        r
    }

    /// Decimal digits (`0` - `9`).
    pub fn digits() -> (r: Self)
        requires
            2 <= N,
        ensures
            r@ == interval(48, 57),
    {
        let r = Self::blank().add_range(48u8..=57u8);
        proof {
            assert(r@ =~= interval(48, 57));
        }
        r
    }

    /// Uppercase and lowercase letters.
    pub fn alphabetic() -> (r: Self)
        requires
            2 <= N,
        ensures
            r@ == interval(97, 122).union(interval(65, 90)),
    {
        Self::lowercase().union(Self::uppercase())
    }

    /// Uppercase and lowercase letters and digits.
    pub fn alphanumeric() -> (r: Self)
        requires
            2 <= N,
        ensures
            r@ == interval(97, 122).union(interval(65, 90)).union(
                interval(48, 57),
            ),
    {
        Self::alphabetic().union(Self::digits())
    }

    /// Space and tab.
    pub fn space_tab() -> (r: Self)
        requires
            2 <= N,
        ensures
            r@ == set![32int, 9],
    {
        let r = Self::blank().add(32u8).add(9u8);
        proof {
            assert(r@ =~= set![32int, 9]);
        }
        r
    }

    /// Line feed and carriage return.
    pub fn newline() -> (r: Self)
        requires
            2 <= N,
        ensures
            r@ == set![13int, 10],
    {
        let r = Self::blank().add(13u8).add(10u8);
        proof {
            assert(r@ =~= set![13int, 10]);
        }
        r
    }

    /// Space, tab, line feed and carriage return.
    pub fn whitespace() -> (r: Self)
        requires
            2 <= N,
        ensures
            r@ == set![32int, 9, 13, 10],
    {
        let r = Self::space_tab().union(Self::newline());
        proof {
            assert(r@ =~= set![32int, 9, 13, 10]);
        }
        r
    }

    /// ASCII graphic characters (`!` - `~`).
    pub fn graphic() -> (r: Self)
        requires
            2 <= N,
        ensures
            r@ == interval(33, 126),
    {
        let r = Self::blank().add_range(33u8..=126u8);
        proof {
            assert(r@ =~= interval(33, 126));
        }
        r
    }

    /// Reserved URI characters (RFC 3986, section 2.2): ``!#$&'()*+,/:;=?@[]``.
    pub fn uri_reserved() -> (r: Self)
        requires
            2 <= N,
        ensures
            r@ == uri_reserved_set(),
    {
        let r = Self::blank().add(33u8).add(35u8).add(36u8).add(38u8).add(39u8).add(40u8).add(
            41u8,
        ).add(42u8).add(43u8).add(44u8).add(47u8).add(58u8).add(59u8).add(61u8).add(63u8).add(
            64u8,
        ).add(91u8).add(93u8);
        proof {
            assert(r@ =~= uri_reserved_set());
        }
        r
    }
}

impl AnyByteSet<2> {
    /// Creates a new, empty, `AsciiSet`.
    pub fn new() -> (r: Self)
        ensures
            r@ == Set::<int>::empty(),
    {
        Self::blank()
    }

    /// Tests whether this set contains the `byte`; a byte outside the ASCII
    /// range is never a member.
    pub fn contains(&self, byte: u8) -> (r: bool)
        ensures
            r == self@.contains(byte as int),
            byte >= 128 ==> !r,
    {
        if byte >= 128 {
            return false;
        }
        let chunk = self.mask[byte as usize / 64];
        let bit: u64 = 1u64 << ((byte % 64) as u64);
        (chunk & bit) != 0
    }
}

impl AnyByteSet<4> {
    /// Creates a new, empty, `ByteSet`.
    pub fn new() -> (r: Self)
        ensures
            r@ == Set::<int>::empty(),
    {
        Self::blank()
    }

    /// Tests whether this set contains the `byte`.
    pub fn contains(&self, byte: u8) -> (r: bool)
        ensures
            r == self@.contains(byte as int),
    {
        let chunk = self.mask[byte as usize / 64];
        let bit: u64 = 1u64 << ((byte % 64) as u64);
        (chunk & bit) != 0
    }
}

/// `s` with each of `lo ..= hi` inserted in turn, from `lo` up.
pub open spec fn insert_each(s: Set<int>, lo: int, hi: int) -> Set<int>
    decreases hi - lo + 1,
{
    if lo > hi {
        s
    } else {
        insert_each(s.insert(lo), lo + 1, hi)
    }
}

/// After `add(b)` the set contains `b`, after `remove(b)` it does not, and
/// `remove(b)` after `add(b)` gives what `remove(b)` alone gives.
pub proof fn lemma_add_remove<const N: usize>(s: AnyByteSet<N>, b: u8)
    requires
        (b as int) < 64 * N,
    ensures
        s@.insert(b as int).contains(b as int),
        !s@.remove(b as int).contains(b as int),
        s@.insert(b as int).remove(b as int) == s@.remove(b as int),
{
    assert(s@.insert(b as int).remove(b as int) =~= s@.remove(b as int));
}

/// Adding the range `lo ..= hi` at once gives what adding its bytes one by
/// one, from `lo` up, gives.
pub proof fn lemma_add_range_is_each_add(s: Set<int>, lo: int, hi: int)
    ensures
        insert_each(s, lo, hi) == s.union(interval(lo, hi)),
    decreases hi - lo + 1,
{
    if lo > hi {
        assert(s.union(interval(lo, hi)) =~= s);
    } else {
        lemma_add_range_is_each_add(s.insert(lo), lo + 1, hi);
        assert(s.insert(lo).union(interval(lo + 1, hi)) =~= s.union(interval(lo, hi)));
    }
}

/// Union and intersection are commutative and associative.
pub proof fn lemma_union_intersection_laws<const N: usize>(
    a: AnyByteSet<N>,
    b: AnyByteSet<N>,
    c: AnyByteSet<N>,
)
    ensures
        a@.union(b@) == b@.union(a@),
        a@.union(b@).union(c@) == a@.union(b@.union(c@)),
        a@.intersect(b@) == b@.intersect(a@),
        a@.intersect(b@).intersect(c@) == a@.intersect(b@.intersect(c@)),
{
    assert(a@.union(b@) =~= b@.union(a@));
    assert(a@.union(b@).union(c@) =~= a@.union(b@.union(c@)));
    assert(a@.intersect(b@) =~= b@.intersect(a@));
    assert(a@.intersect(b@).intersect(c@) =~= a@.intersect(b@.intersect(c@)));
}

/// Every member of a set lies in its domain.
pub proof fn lemma_members_in_domain<const N: usize>(a: AnyByteSet<N>)
    ensures
        a@.subset_of(domain(N as int)),
{
}

/// For sets of one size, the intersection with the complement of `b` (what
/// `difference` returns) is the set difference; complementing twice gives
/// the set back; De Morgan's laws hold.
pub proof fn lemma_complement_laws<const N: usize>(a: AnyByteSet<N>, b: AnyByteSet<N>)
    ensures
        a@.intersect(domain(N as int).difference(b@)) == a@.difference(b@),
        domain(N as int).difference(domain(N as int).difference(a@)) == a@,
        domain(N as int).difference(a@.union(b@)) == domain(N as int).difference(a@).intersect(
            domain(N as int).difference(b@),
        ),
        domain(N as int).difference(a@.intersect(b@)) == domain(N as int).difference(a@).union(
            domain(N as int).difference(b@),
        ),
{
    let d = domain(N as int);
    assert(a@.intersect(d.difference(b@)) =~= a@.difference(b@));
    assert(d.difference(d.difference(a@)) =~= a@);
    assert(d.difference(a@.union(b@)) =~= d.difference(a@).intersect(d.difference(b@)));
    assert(d.difference(a@.intersect(b@)) =~= d.difference(a@).union(d.difference(b@)));
}

/// Two sets with the same members are the same value, chunk for chunk: a
/// law stated over the members holds bit for bit.
pub proof fn lemma_view_determines_set<const N: usize>(a: AnyByteSet<N>, b: AnyByteSet<N>)
    requires
        a@ == b@,
    ensures
        a == b,
{
    assert forall|i: int| 0 <= i < N implies a.mask[i] == b.mask[i] by {
        assert forall|j: int| 0 <= j < 64 implies chunk_bit(a.mask[i], j) == chunk_bit(
            b.mask[i],
            j,
        ) by {
            let v = 64 * i + j;
            assert(v / 64 == i && v % 64 == j);
            assert(a@.contains(v) == a.has(v));
            assert(b@.contains(v) == b.has(v));
        }
        lemma_chunk_bits_equal(a.mask[i], b.mask[i]);
    }
    assert(a.mask =~= b.mask);
}

} // verus!
