//! Fixed-width integers read from byte sequences.

use vstd::prelude::*;

verus! {

/// The unsigned integer whose little-endian encoding is `b[off..off + n]`.
pub open spec fn le_uint(b: Seq<u8>, off: int, n: nat) -> int
    decreases n,
{
    if n == 0 {
        0
    } else {
        b[off] as int + 256 * le_uint(b, off + 1, (n - 1) as nat)
    }
}

/// The unsigned integer whose big-endian encoding is `b[off..off + n]`.
pub open spec fn be_uint(b: Seq<u8>, off: int, n: nat) -> int
    decreases n,
{
    if n == 0 {
        0
    } else {
        be_uint(b, off, (n - 1) as nat) * 256 + b[off + n - 1] as int
    }
}

/// The little-endian `u32` stored at `off`.
pub open spec fn le_u32(b: Seq<u8>, off: int) -> u32 {
    le_uint(b, off, 4) as u32
}

/// The little-endian `u64` stored at `off`.
pub open spec fn le_u64(b: Seq<u8>, off: int) -> u64 {
    le_uint(b, off, 8) as u64
}

/// The big-endian `u32` stored at `off`.
pub open spec fn be_u32(b: Seq<u8>, off: int) -> u32 {
    be_uint(b, off, 4) as u32
}

/// The big-endian `u64` stored at `off`.
pub open spec fn be_u64(b: Seq<u8>, off: int) -> u64 {
    be_uint(b, off, 8) as u64
}

/// Reads the little-endian `u32` at `off`.
pub fn read_u32_le(b: &[u8], off: usize) -> (r: u32)
    requires
        off + 4 <= b@.len(),
    ensures
        r == le_u32(b@, off as int),
{
    proof {
        reveal_with_fuel(le_uint, 5);
    }
    let v: u32 = b[off] as u32 + 256 * (b[off + 1] as u32 + 256 * (b[off + 2] as u32 + 256 * (
    b[off + 3] as u32)));
    v
}

/// Reads the little-endian `u64` at `off`.
pub fn read_u64_le(b: &[u8], off: usize) -> (r: u64)
    requires
        off + 8 <= b@.len(),
    ensures
        r == le_u64(b@, off as int),
{
    proof {
        reveal_with_fuel(le_uint, 9);
    }
    assert(b@.len() == b.len());
    let lo: u64 = read_u32_le(b, off) as u64;
    let hi: u64 = read_u32_le(b, off + 4) as u64;
    proof {
        lemma_le_uint_split(b@, off as int, 4, 4);
        lemma_le_uint_bound(b@, off as int, 4);
        lemma_le_uint_bound(b@, off + 4, 4);
        lemma_le_uint_bound(b@, off as int, 8);
        reveal_with_fuel(vstd::arithmetic::power::pow, 9);
    }
    lo + 0x1_0000_0000 * hi
}

/// Reads the big-endian `u32` at `off`.
pub fn read_u32_be(b: &[u8], off: usize) -> (r: u32)
    requires
        off + 4 <= b@.len(),
    ensures
        r == be_u32(b@, off as int),
{
    proof {
        reveal_with_fuel(be_uint, 5);
    }
    let v: u32 = ((b[off] as u32 * 256 + b[off + 1] as u32) * 256 + b[off + 2] as u32) * 256
        + b[off + 3] as u32;
    v
}

/// Reads the big-endian `u64` at `off`.
pub fn read_u64_be(b: &[u8], off: usize) -> (r: u64)
    requires
        off + 8 <= b@.len(),
    ensures
        r == be_u64(b@, off as int),
{
    assert(b@.len() == b.len());
    let hi: u64 = read_u32_be(b, off) as u64;
    let lo: u64 = read_u32_be(b, off + 4) as u64;
    proof {
        lemma_be_uint_split(b@, off as int, 4, 4);
        lemma_be_uint_bound(b@, off as int, 4);
        lemma_be_uint_bound(b@, off + 4, 4);
        lemma_be_uint_bound(b@, off as int, 8);
        reveal_with_fuel(vstd::arithmetic::power::pow, 9);
    }
    hi * 0x1_0000_0000 + lo
}

/// Bounds of a little-endian value.
pub proof fn lemma_le_uint_bound(b: Seq<u8>, off: int, n: nat)
    ensures
        0 <= le_uint(b, off, n) < vstd::arithmetic::power::pow(256, n),
    decreases n,
{
    reveal(vstd::arithmetic::power::pow);
    if n > 0 {
        lemma_le_uint_bound(b, off + 1, (n - 1) as nat);
    }
}

/// Bounds of a big-endian value.
pub proof fn lemma_be_uint_bound(b: Seq<u8>, off: int, n: nat)
    ensures
        0 <= be_uint(b, off, n) < vstd::arithmetic::power::pow(256, n),
    decreases n,
{
    reveal(vstd::arithmetic::power::pow);
    if n > 0 {
        lemma_be_uint_bound(b, off, (n - 1) as nat);
    }
}

/// A little-endian value splits into its low and high parts.
pub proof fn lemma_le_uint_split(b: Seq<u8>, off: int, n: nat, m: nat)
    ensures
        le_uint(b, off, n + m) == le_uint(b, off, n) + vstd::arithmetic::power::pow(256, n)
            * le_uint(b, off + n, m),
    decreases n,
{
    reveal(vstd::arithmetic::power::pow);
    if n > 0 {
        lemma_le_uint_split(b, off + 1, (n - 1) as nat, m);
        assert(le_uint(b, off, n + m) == b[off] as int + 256 * le_uint(b, off + 1, (n - 1 + m) as nat));
        assert(vstd::arithmetic::power::pow(256, n) == 256 * vstd::arithmetic::power::pow(256, (n - 1) as nat));
        vstd::arithmetic::mul::lemma_mul_is_associative(256, vstd::arithmetic::power::pow(256, (n - 1) as nat), le_uint(b, off + n, m));
        vstd::arithmetic::mul::lemma_mul_is_distributive_add(256, le_uint(b, off + 1, (n - 1) as nat), vstd::arithmetic::power::pow(256, (n - 1) as nat) * le_uint(b, off + n, m));
    }
}

/// A big-endian value splits into its high and low parts.
pub proof fn lemma_be_uint_split(b: Seq<u8>, off: int, n: nat, m: nat)
    ensures
        be_uint(b, off, n + m) == be_uint(b, off, n) * vstd::arithmetic::power::pow(256, m)
            + be_uint(b, off + n, m),
    decreases m,
{
    reveal(vstd::arithmetic::power::pow);
    if m > 0 {
        lemma_be_uint_split(b, off, n, (m - 1) as nat);
        assert(vstd::arithmetic::power::pow(256, m) == 256 * vstd::arithmetic::power::pow(256, (m - 1) as nat));
        vstd::arithmetic::mul::lemma_mul_is_associative(be_uint(b, off, n), vstd::arithmetic::power::pow(256, (m - 1) as nat), 256);
        vstd::arithmetic::mul::lemma_mul_is_commutative(256, vstd::arithmetic::power::pow(256, (m - 1) as nat));
        vstd::arithmetic::mul::lemma_mul_is_distributive_add_other_way(256, be_uint(b, off, n) * vstd::arithmetic::power::pow(256, (m - 1) as nat), be_uint(b, off + n, (m - 1) as nat));
    }
}

/// Reading inside a subrange reads the same bytes as reading the whole.
pub proof fn lemma_le_uint_subrange(b: Seq<u8>, lo: int, hi: int, off: int, n: nat)
    requires
        0 <= lo <= hi <= b.len(),
        0 <= off,
        lo + off + n <= hi,
    ensures
        le_uint(b.subrange(lo, hi), off, n) == le_uint(b, lo + off, n),
    decreases n,
{
    if n > 0 {
        lemma_le_uint_subrange(b, lo, hi, off + 1, (n - 1) as nat);
    }
}

} // verus!
