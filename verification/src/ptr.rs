//! An untyped machine address.

use core::ops::{Add, AddAssign};
use vstd::prelude::*;
use vstd::std_specs::ops::AddSpecImpl;

verus! {

/// Number of distinct machine addresses.
pub open spec fn address_space() -> int {
    usize::MAX + 1
}

/// `x` reduced modulo the address space: the result of adding with wrap-around.
pub open spec fn wrap_address(x: int) -> int {
    x % address_space()
}

/// Adding a value between minus one and plus one address space wraps at most once.
pub proof fn lemma_wrap_once(x: int)
    requires
        -address_space() <= x < 2 * address_space(),
    ensures
        wrap_address(x) == if x >= address_space() {
            x - address_space()
        } else if x < 0 {
            x + address_space()
        } else {
            x
        },
{
    let m = address_space();
    if x >= m {
        vstd::arithmetic::div_mod::lemma_fundamental_div_mod_converse_mod(x, m, 1, x - m);
    } else if x < 0 {
        vstd::arithmetic::div_mod::lemma_fundamental_div_mod_converse_mod(x, m, -1, x + m);
    } else {
        vstd::arithmetic::div_mod::lemma_fundamental_div_mod_converse_mod(x, m, 0, x);
    }
}

/// A machine address held as a plain integer.
#[derive(Clone, Copy, PartialEq, Eq, Structural, PartialOrd, Ord, Hash, Debug)]
pub struct Uintptr(usize);

impl Uintptr {
    /// The null address, in specifications.
    pub closed spec fn nil_spec() -> Self {
        Uintptr(0)
    }

    /// The null address.
    pub fn nil() -> (r: Self)
        ensures
            r == Self::nil_spec(),
            r.value() == 0,
    {
        Uintptr(0)
    }

    /// The address as a mathematical integer.
    pub closed spec fn value(self) -> int {
        self.0 as int
    }

    /// Makes an address from its integer value.
    pub fn new(addr: usize) -> (r: Self)
        ensures
            r.value() == addr,
    {
        Uintptr(addr)
    }

    /// The integer value of the address.
    pub fn addr(self) -> (r: usize)
        ensures
            r == self.value(),
    {
        self.0
    }

    /// Whether this is the null address.
    pub fn is_nil(self) -> (r: bool)
        ensures
            r == (self.value() == 0),
    {
        self.0 == 0
    }
}

impl Uintptr {
    /// The address `delta` bytes away from this one, wrapping around the
    /// address space.
    pub closed spec fn displaced(self, delta: int) -> Uintptr {
        Uintptr(wrap_address(self.0 + delta) as usize)
    }

    /// The value of an address lies in the range of a machine word.
    pub broadcast proof fn lemma_value_range(a: Uintptr)
        ensures
            0 <= #[trigger] a.value() <= usize::MAX,
    {
    }

    /// An address is determined by its value.
    pub proof fn lemma_value_injective(a: Uintptr, b: Uintptr)
        ensures
            a.value() == b.value() <==> a == b,
    {
    }

    /// The value of the null address.
    pub broadcast proof fn lemma_nil_value()
        ensures
            #[trigger] Self::nil_spec().value() == 0,
    {
    }

    /// The value of a displaced address.
    pub broadcast proof fn lemma_displaced_value(a: Uintptr, delta: int)
        ensures
            #[trigger] a.displaced(delta).value() == wrap_address(a.value() + delta),
            0 <= wrap_address(a.value() + delta) <= usize::MAX,
    {
        vstd::arithmetic::div_mod::lemma_mod_bound(a.value() + delta, address_space());
    }

    /// Moving an address by `a` and then by `b` moves it by `a + b`: repeated
    /// additions and `+=` compose.
    pub proof fn lemma_displaced_twice(p: Uintptr, a: int, b: int)
        ensures
            p.displaced(a).displaced(b) == p.displaced(a + b),
    {
        let m = address_space();
        let x = wrap_address(p.0 + a);
        vstd::arithmetic::div_mod::lemma_mod_bound(p.0 + a, m);
        vstd::arithmetic::div_mod::lemma_add_mod_noop(p.0 + a, b, m);
        vstd::arithmetic::div_mod::lemma_mod_twice(b, m);
        vstd::arithmetic::div_mod::lemma_add_mod_noop(x, b, m);
        vstd::arithmetic::div_mod::lemma_mod_bound(x + b, m);
        vstd::arithmetic::div_mod::lemma_mod_bound(p.0 + a + b, m);
    }

    /// Moving an address by nothing leaves it in place.
    pub proof fn lemma_displaced_zero(p: Uintptr)
        ensures
            p.displaced(0) == p,
    {
        vstd::arithmetic::div_mod::lemma_small_mod(p.0 as nat, address_space() as nat);
    }

    /// Moves that differ by a whole number of address spaces end at the same
    /// address: adding a wrapped sum is adding the sum.
    pub proof fn lemma_displaced_congruent(p: Uintptr, a: int, b: int)
        requires
            (a - b) % address_space() == 0,
        ensures
            p.displaced(a) == p.displaced(b),
    {
        let m = address_space();
        vstd::arithmetic::div_mod::lemma_fundamental_div_mod(a - b, m);
        let q = (a - b) / m;
        vstd::arithmetic::div_mod::lemma_mod_multiples_vanish(q, p.0 + b, m);
        vstd::arithmetic::mul::lemma_mul_is_commutative(q, m);
        assert(p.0 + a == m * q + (p.0 + b));
    }

    /// Adding `a` and then `b` to an address is adding their wrapping sum.
    pub proof fn lemma_displaced_wrapping_sum(p: Uintptr, a: usize, b: usize)
        ensures
            p.displaced(a as int).displaced(b as int) == p.displaced(a.wrapping_add(b) as int),
    {
        Self::lemma_displaced_twice(p, a as int, b as int);
        let w = a.wrapping_add(b) as int;
        let m = address_space();
        if a + b > usize::MAX {
            vstd::arithmetic::div_mod::lemma_mod_self_0(m);
            assert(a + b - w == m);
        } else {
            assert(a + b - w == 0);
        }
        Self::lemma_displaced_congruent(p, a + b, w);
    }

    /// Moving an address by `a` and then by a `b` that cancels `a` (modulo the
    /// address space) brings it back.
    pub proof fn lemma_displaced_undo(p: Uintptr, a: int, b: int)
        requires
            (a + b) % address_space() == 0,
        ensures
            p.displaced(a).displaced(b) == p,
    {
        Self::lemma_displaced_twice(p, a, b);
        Self::lemma_displaced_congruent(p, a + b, 0);
        Self::lemma_displaced_zero(p);
    }

    /// `self + delta` with wrap-around, for a non-negative `delta`.
    fn wrapping_offset(self, delta: usize) -> (r: Self)
        ensures
            r == self.displaced(delta as int),
    {
        proof {
            lemma_wrap_once(self.0 + delta);
        }
        Uintptr(self.0.wrapping_add(delta))
    }

    /// `self + delta` with wrap-around, for a signed `delta`.
    fn wrapping_offset_signed(self, delta: isize) -> (r: Self)
        ensures
            r == self.displaced(delta as int),
    {
        proof {
            lemma_wrap_once(self.0 + delta);
        }
        Uintptr(self.0.wrapping_add_signed(delta))
    }
}

impl Add<u64> for Uintptr {
    type Output = Self;

    fn add(self, rhs: u64) -> Self {
        self.wrapping_offset(rhs as usize)
    }
}

impl AddSpecImpl<u64> for Uintptr {
    open spec fn obeys_add_spec() -> bool {
        true
    }

    open spec fn add_req(self, rhs: u64) -> bool {
        true
    }

    open spec fn add_spec(self, rhs: u64) -> Self {
        self.displaced(rhs as usize as int)
    }
}

impl Add<i64> for Uintptr {
    type Output = Self;

    fn add(self, rhs: i64) -> Self {
        self.wrapping_offset_signed(rhs as isize)
    }
}

impl AddSpecImpl<i64> for Uintptr {
    open spec fn obeys_add_spec() -> bool {
        true
    }

    open spec fn add_req(self, rhs: i64) -> bool {
        true
    }

    open spec fn add_spec(self, rhs: i64) -> Self {
        self.displaced(rhs as isize as int)
    }
}

impl Add<usize> for Uintptr {
    type Output = Self;

    fn add(self, rhs: usize) -> Self {
        self.wrapping_offset(rhs)
    }
}

impl AddSpecImpl<usize> for Uintptr {
    open spec fn obeys_add_spec() -> bool {
        true
    }

    open spec fn add_req(self, rhs: usize) -> bool {
        true
    }

    open spec fn add_spec(self, rhs: usize) -> Self {
        self.displaced(rhs as int)
    }
}

impl Add<isize> for Uintptr {
    type Output = Self;

    fn add(self, rhs: isize) -> Self {
        self.wrapping_offset_signed(rhs)
    }
}

impl AddSpecImpl<isize> for Uintptr {
    open spec fn obeys_add_spec() -> bool {
        true
    }

    open spec fn add_req(self, rhs: isize) -> bool {
        true
    }

    open spec fn add_spec(self, rhs: isize) -> Self {
        self.displaced(rhs as int)
    }
}

impl AddAssign<u64> for Uintptr {
    fn add_assign(&mut self, rhs: u64)
        ensures
            *final(self) == old(self).displaced(rhs as usize as int),
    {
        *self = *self + rhs;
    }
}

impl AddAssign<i64> for Uintptr {
    fn add_assign(&mut self, rhs: i64)
        ensures
            *final(self) == old(self).displaced(rhs as isize as int),
    {
        *self = *self + rhs;
    }
}

impl AddAssign<usize> for Uintptr {
    fn add_assign(&mut self, rhs: usize)
        ensures
            *final(self) == old(self).displaced(rhs as int),
    {
        *self = *self + rhs;
    }
}

impl AddAssign<isize> for Uintptr {
    fn add_assign(&mut self, rhs: isize)
        ensures
            *final(self) == old(self).displaced(rhs as int),
    {
        *self = *self + rhs;
    }
}

} // verus!
