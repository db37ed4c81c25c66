//! The arithmetic of matrix cells.

use vstd::prelude::*;
use vstd::arithmetic::div_mod::{
    lemma_fundamental_div_mod, lemma_fundamental_div_mod_converse, lemma_mod_bound,
    lemma_mod_multiples_vanish,
};
use vstd::wrapping::i64_specs::{wrapping_add, wrapping_mul, wrapping_sub};

verus! {

/// The arithmetic that a matrix cell offers.
///
/// Every operation is total and is described by a specification function of
/// the same name with `_spec` appended. The proof functions are the laws on
/// which the theorems of this crate rest; an implementation has to prove them.
pub trait Scalar: Copy {
    /// The additive identity.
    spec fn zero_spec() -> Self;

    /// The multiplicative identity.
    spec fn one_spec() -> Self;

    /// The sum `self + rhs`.
    spec fn add_spec(self, rhs: Self) -> Self;

    /// The difference `self - rhs`.
    spec fn sub_spec(self, rhs: Self) -> Self;

    /// The product `self * rhs`.
    spec fn mul_spec(self, rhs: Self) -> Self;

    /// The additive inverse `-self`.
    spec fn neg_spec(self) -> Self;

    /// Whether the value is so small that it counts as rounding noise.
    spec fn negligible_spec(self) -> bool;

    fn zero() -> (r: Self)
        ensures
            r == Self::zero_spec(),
    ;

    fn one() -> (r: Self)
        ensures
            r == Self::one_spec(),
    ;

    fn add(self, rhs: Self) -> (r: Self)
        ensures
            r == self.add_spec(rhs),
    ;

    fn sub(self, rhs: Self) -> (r: Self)
        ensures
            r == self.sub_spec(rhs),
    ;

    fn mul(self, rhs: Self) -> (r: Self)
        ensures
            r == self.mul_spec(rhs),
    ;

    fn neg(self) -> (r: Self)
        ensures
            r == self.neg_spec(),
    ;

    fn is_negligible(self) -> (b: bool)
        ensures
            b == self.negligible_spec(),
    ;

    /// Addition is commutative.
    proof fn lemma_add_commutes(a: Self, b: Self)
        ensures
            a.add_spec(b) == b.add_spec(a),
    ;

    /// Addition is associative.
    proof fn lemma_add_associates(a: Self, b: Self, c: Self)
        ensures
            a.add_spec(b).add_spec(c) == a.add_spec(b.add_spec(c)),
    ;

    /// Adding zero changes nothing.
    proof fn lemma_add_zero(a: Self)
        ensures
            a.add_spec(Self::zero_spec()) == a,
    ;

    /// A value and its negation add up to zero.
    proof fn lemma_add_neg(a: Self)
        ensures
            a.add_spec(a.neg_spec()) == Self::zero_spec(),
    ;

    /// Subtracting is adding the negation.
    proof fn lemma_sub_is_add_neg(a: Self, b: Self)
        ensures
            a.sub_spec(b) == a.add_spec(b.neg_spec()),
    ;

    /// Multiplying by one changes nothing.
    proof fn lemma_mul_one(a: Self)
        ensures
            a.mul_spec(Self::one_spec()) == a,
    ;

    /// Multiplying by zero gives zero.
    proof fn lemma_mul_zero(a: Self)
        ensures
            a.mul_spec(Self::zero_spec()) == Self::zero_spec(),
    ;

    /// A negation can be moved out of the left factor of a product.
    proof fn lemma_neg_mul(a: Self, b: Self)
        ensures
            a.neg_spec().mul_spec(b) == a.mul_spec(b).neg_spec(),
    ;

    /// A value is negligible exactly when its negation is.
    proof fn lemma_negligible_neg(a: Self)
        ensures
            a.neg_spec().negligible_spec() == a.negligible_spec(),
    ;
}

/// Zero is its own negation.
pub proof fn lemma_neg_zero<T: Scalar>()
    ensures
        T::zero_spec().neg_spec() == T::zero_spec(),
{
    let z = T::zero_spec();
    T::lemma_add_neg(z);
    T::lemma_add_commutes(z, z.neg_spec());
    T::lemma_add_zero(z.neg_spec());
}

/// Adding a value to zero gives the value.
pub proof fn lemma_zero_add<T: Scalar>(a: T)
    ensures
        T::zero_spec().add_spec(a) == a,
{
    T::lemma_add_commutes(T::zero_spec(), a);
    T::lemma_add_zero(a);
}

/// The remainder of `-x` modulo `m`, from the remainder of `x`.
proof fn lemma_mod_of_negation(x: int, m: int)
    requires
        0 < m,
    ensures
        (-x) % m == if x % m == 0 {
            0
        } else {
            m - x % m
        },
{
    lemma_fundamental_div_mod(x, m);
    let q = x / m;
    let r = x % m;
    if r == 0 {
        assert(-x == (-q) * m + 0) by (nonlinear_arith)
            requires
                x == m * q + r,
                r == 0,
        ;
        lemma_fundamental_div_mod_converse(-x, m, -q, 0);
    } else {
        assert(-x == (-q - 1) * m + (m - r)) by (nonlinear_arith)
            requires
                x == m * q + r,
        ;
        lemma_fundamental_div_mod_converse(-x, m, -q - 1, m - r);
    }
}

/// Signed 64-bit integers with wrapping arithmetic: the integers modulo
/// 2^64. Only zero is negligible.
impl Scalar for i64 {
    open spec fn zero_spec() -> i64 {
        0
    }

    open spec fn one_spec() -> i64 {
        1
    }

    open spec fn add_spec(self, rhs: i64) -> i64 {
        wrapping_add(self, rhs)
    }

    open spec fn sub_spec(self, rhs: i64) -> i64 {
        wrapping_sub(self, rhs)
    }

    open spec fn mul_spec(self, rhs: i64) -> i64 {
        wrapping_mul(self, rhs)
    }

    open spec fn neg_spec(self) -> i64 {
        wrapping_sub(0, self)
    }

    open spec fn negligible_spec(self) -> bool {
        self == 0
    }

    fn zero() -> (r: i64) {
        0
    }

    fn one() -> (r: i64) {
        1
    }

    fn add(self, rhs: i64) -> (r: i64) {
        self.wrapping_add(rhs)
    }

    fn sub(self, rhs: i64) -> (r: i64) {
        self.wrapping_sub(rhs)
    }

    fn mul(self, rhs: i64) -> (r: i64) {
        self.wrapping_mul(rhs)
    }

    fn neg(self) -> (r: i64) {
        0i64.wrapping_sub(self)
    }

    fn is_negligible(self) -> (b: bool) {
        self == 0
    }

    proof fn lemma_add_commutes(a: i64, b: i64) {
    }

    proof fn lemma_add_associates(a: i64, b: i64, c: i64) {
    }

    proof fn lemma_add_zero(a: i64) {
    }

    proof fn lemma_add_neg(a: i64) {
    }

    proof fn lemma_sub_is_add_neg(a: i64, b: i64) {
    }

    proof fn lemma_mul_one(a: i64) {
        let m: int = 0x1_0000_0000_0000_0000;
        assert(a * 1 == a);
        if a >= 0 {
            lemma_fundamental_div_mod_converse(a as int, m, 0, a as int);
        } else {
            lemma_fundamental_div_mod_converse(a as int, m, -1, a + m);
        }
    }

    proof fn lemma_mul_zero(a: i64) {
        assert(a * 0 == 0);
        lemma_fundamental_div_mod_converse(0, 0x1_0000_0000_0000_0000, 0, 0);
    }

    proof fn lemma_neg_mul(a: i64, b: i64) {
        let m: int = 0x1_0000_0000_0000_0000;
        let n = wrapping_sub(0, a);
        let e: int = if a == i64::MIN {
            -1
        } else {
            0
        };
        assert(n == -a + e * m);
        assert(n * b == m * (e * b) + (-(a * b))) by (nonlinear_arith)
            requires
                n == -a + e * m,
        ;
        lemma_mod_multiples_vanish(e * b, -(a * b), m);
        lemma_mod_of_negation(a * b, m);
        lemma_fundamental_div_mod(a * b, m);
        assert(0 <= (a * b) % m < m) by {
            lemma_mod_bound(a * b, m);
        }
    }

    proof fn lemma_negligible_neg(a: i64) {
    }
}

} // verus!
