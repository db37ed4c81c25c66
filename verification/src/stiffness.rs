//! The local stiffness matrix of an axial member, and its laws.

use vstd::prelude::*;
use crate::grid::symmetric;
use crate::matrix::rows_of;
use crate::scalar::{lemma_neg_zero, lemma_zero_add, Scalar};

verus! {

/// A direction term scaled by the spring constant `k`, or exactly zero where
/// the term is negligible.
pub open spec fn scaled<T: Scalar>(term: T, k: T) -> T {
    if term.negligible_spec() {
        T::zero_spec()
    } else {
        term.mul_spec(k)
    }
}

/// One row of a local stiffness matrix: the four terms, each scaled by `k`.
pub open spec fn scaled_row<T: Scalar>(a: T, b: T, c: T, d: T, k: T) -> Seq<T> {
    seq![scaled(a, k), scaled(b, k), scaled(c, k), scaled(d, k)]
}

/// The local stiffness matrix of an axial member with spring constant `k`
/// whose direction has cosine `c` and sine `s`:
///
/// ```text
///     [  cc   cs  -cc  -cs ]
/// k * [  cs   ss  -cs  -ss ]
///     [ -cc  -cs   cc   cs ]
///     [ -cs  -ss   cs   ss ]
/// ```
///
/// Rows and columns stand for the horizontal and vertical displacement of
/// the first node, then of the second.
pub open spec fn single_stiffness<T: Scalar>(k: T, c: T, s: T) -> Seq<Seq<T>> {
    let cc = c.mul_spec(c);
    let ss = s.mul_spec(s);
    let cs = c.mul_spec(s);
    seq![
        scaled_row(cc, cs, cc.neg_spec(), cs.neg_spec(), k),
        scaled_row(cs, ss, cs.neg_spec(), ss.neg_spec(), k),
        scaled_row(cc.neg_spec(), cs.neg_spec(), cc, cs, k),
        scaled_row(cs.neg_spec(), ss.neg_spec(), cs, ss, k),
    ]
}

/// The local stiffness matrix of a member whose first node has the direction
/// `(c1, s1)` and whose second node has the direction `(c2, s2)`: the terms
/// that couple the two nodes are products of one factor of each.
pub open spec fn double_stiffness<T: Scalar>(k: T, c1: T, s1: T, c2: T, s2: T) -> Seq<Seq<T>> {
    let c1c1 = c1.mul_spec(c1);
    let c1s1 = c1.mul_spec(s1);
    let s1s1 = s1.mul_spec(s1);
    let c1c2 = c1.mul_spec(c2);
    let c1s2 = c1.mul_spec(s2);
    let c2s1 = c2.mul_spec(s1);
    let s2s1 = s2.mul_spec(s1);
    let c2c2 = c2.mul_spec(c2);
    let c2s2 = c2.mul_spec(s2);
    let s2s2 = s2.mul_spec(s2);
    seq![
        scaled_row(c1c1, c1s1, c1c2.neg_spec(), c1s2.neg_spec(), k),
        scaled_row(c1s1, s1s1, c2s1.neg_spec(), s2s1.neg_spec(), k),
        scaled_row(c1c2.neg_spec(), c2s1.neg_spec(), c2c2, c2s2, k),
        scaled_row(c1s2.neg_spec(), s2s1.neg_spec(), c2s2, s2s2, k),
    ]
}

/// The sum of the first `n` cells of row `i`, added up from the left,
/// starting from zero.
pub open spec fn row_sum<T: Scalar>(g: Seq<Seq<T>>, i: int, n: nat) -> T
    decreases n,
{
    if n == 0 {
        T::zero_spec()
    } else {
        row_sum(g, i, (n - 1) as nat).add_spec(g[i][n - 1])
    }
}

/// The sum of the first `n` cells of column `j`, added up from the top,
/// starting from zero.
pub open spec fn column_sum<T: Scalar>(g: Seq<Seq<T>>, j: int, n: nat) -> T
    decreases n,
{
    if n == 0 {
        T::zero_spec()
    } else {
        column_sum(g, j, (n - 1) as nat).add_spec(g[n - 1][j])
    }
}

/// Scales `term` by `k`, or gives exactly zero where `term` is negligible.
fn scale<T: Scalar>(term: T, k: T) -> (r: T)
    ensures
        r == scaled(term, k),
{
    if term.is_negligible() {
        T::zero()
    } else {
        term.mul(k)
    }
}

/// One row of a local stiffness matrix.
pub(crate) fn scale_row<T: Scalar>(a: T, b: T, c: T, d: T, k: T) -> (row: Vec<T>)
    ensures
        row@ == scaled_row(a, b, c, d, k),
{
    let mut row: Vec<T> = Vec::new();
    row.push(scale(a, k));
    row.push(scale(b, k));
    row.push(scale(c, k));
    row.push(scale(d, k));
    assert(row@ =~= scaled_row(a, b, c, d, k));
    row
}

/// The rows of the local stiffness matrix of an axial member with the spring
/// constant `spring_const` whose direction has the cosine `cos` and the sine
/// `sin`.
pub fn truss_matrix<T: Scalar>(spring_const: T, cos: T, sin: T) -> (rows: Vec<Vec<T>>)
    ensures
        rows_of(rows@) == single_stiffness(spring_const, cos, sin),
{
    let cos_sq = cos.mul(cos);
    let sin_sq = sin.mul(sin);
    let cos_sin = cos.mul(sin);
    let mut rows: Vec<Vec<T>> = Vec::new();
    rows.push(scale_row(cos_sq, cos_sin, cos_sq.neg(), cos_sin.neg(), spring_const));
    rows.push(scale_row(cos_sin, sin_sq, cos_sin.neg(), sin_sq.neg(), spring_const));
    rows.push(scale_row(cos_sq.neg(), cos_sin.neg(), cos_sq, cos_sin, spring_const));
    rows.push(scale_row(cos_sin.neg(), sin_sq.neg(), cos_sin, sin_sq, spring_const));
    assert(rows_of(rows@) =~= single_stiffness(spring_const, cos, sin));
    rows
}

/// A local stiffness matrix for two directions has four rows of four cells
/// and is symmetric.
pub proof fn lemma_double_stiffness_symmetric<T: Scalar>(k: T, c1: T, s1: T, c2: T, s2: T)
    ensures
        symmetric(double_stiffness(k, c1, s1, c2, s2)),
        double_stiffness(k, c1, s1, c2, s2).len() == 4,
{
    let g = double_stiffness(k, c1, s1, c2, s2);
    assert(g[0].len() == 4 && g[1].len() == 4 && g[2].len() == 4 && g[3].len() == 4);
}

/// With one direction for both nodes, the matrix for two directions is the
/// matrix for one.
pub proof fn lemma_double_stiffness_of_one_direction<T: Scalar>(k: T, c: T, s: T)
    ensures
        double_stiffness(k, c, s, c, s) == single_stiffness(k, c, s),
{
}

/// The local stiffness matrix is symmetric: cell `(i, j)` equals cell
/// `(j, i)`.
pub proof fn lemma_single_stiffness_symmetric<T: Scalar>(k: T, c: T, s: T)
    ensures
        symmetric(single_stiffness(k, c, s)),
        single_stiffness(k, c, s).len() == 4,
{
    lemma_double_stiffness_symmetric(k, c, s, c, s);
}

/// Scaling the negation of a term gives the negation of the scaled term.
proof fn lemma_scaled_neg<T: Scalar>(term: T, k: T)
    ensures
        scaled(term.neg_spec(), k) == scaled(term, k).neg_spec(),
{
    T::lemma_negligible_neg(term);
    T::lemma_neg_mul(term, k);
    lemma_neg_zero::<T>();
}

/// `x + y - x - y` and `-x - y + x + y`, added up from the left starting from
/// zero, are zero.
proof fn lemma_opposites_cancel<T: Scalar>(x: T, y: T)
    ensures
        T::zero_spec().add_spec(x).add_spec(y).add_spec(x.neg_spec()).add_spec(y.neg_spec())
            == T::zero_spec(),
        T::zero_spec().add_spec(x.neg_spec()).add_spec(y.neg_spec()).add_spec(x).add_spec(y)
            == T::zero_spec(),
{
    let nx = x.neg_spec();
    let ny = y.neg_spec();
    lemma_zero_add(x);
    lemma_zero_add(nx);
    // (x + y) + nx == y
    T::lemma_add_commutes(x, y);
    T::lemma_add_associates(y, x, nx);
    T::lemma_add_neg(x);
    T::lemma_add_zero(y);
    T::lemma_add_neg(y);
    // (nx + ny) + x == ny
    T::lemma_add_commutes(nx, ny);
    T::lemma_add_associates(ny, nx, x);
    T::lemma_add_commutes(nx, x);
    T::lemma_add_zero(ny);
    T::lemma_add_commutes(ny, y);
}

/// The cells of each row, and of each column, of the local stiffness matrix
/// add up to zero: a member that moves as a rigid body exerts no force.
pub proof fn lemma_single_stiffness_balanced<T: Scalar>(k: T, c: T, s: T)
    ensures
        forall|i: int|
            0 <= i < 4 ==> #[trigger] row_sum(single_stiffness(k, c, s), i, 4) == T::zero_spec(),
        forall|j: int|
            0 <= j < 4 ==> #[trigger] column_sum(single_stiffness(k, c, s), j, 4)
                == T::zero_spec(),
{
    let g = single_stiffness(k, c, s);
    let cc = c.mul_spec(c);
    let ss = s.mul_spec(s);
    let cs = c.mul_spec(s);
    lemma_scaled_neg(cc, k);
    lemma_scaled_neg(cs, k);
    lemma_scaled_neg(ss, k);
    lemma_opposites_cancel(scaled(cc, k), scaled(cs, k));
    lemma_opposites_cancel(scaled(cs, k), scaled(ss, k));
    reveal_with_fuel(row_sum, 5);
    reveal_with_fuel(column_sum, 5);
    assert forall|i: int| 0 <= i < 4 implies #[trigger] row_sum(g, i, 4) == T::zero_spec() by {
        assert(row_sum(g, i, 4) == T::zero_spec().add_spec(g[i][0]).add_spec(g[i][1]).add_spec(
            g[i][2],
        ).add_spec(g[i][3]));
    }
    assert forall|j: int| 0 <= j < 4 implies #[trigger] column_sum(g, j, 4) == T::zero_spec() by {
        assert(column_sum(g, j, 4) == T::zero_spec().add_spec(g[0][j]).add_spec(g[1][j]).add_spec(
            g[2][j],
        ).add_spec(g[3][j]));
    }
}

} // verus!
