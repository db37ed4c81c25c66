//! Matrices as sequences of rows: shapes, operations, and their laws.

use vstd::prelude::*;
use crate::scalar::{lemma_zero_add, Scalar};

verus! {

/// `g` has `rows` rows, each of `cols` cells.
pub open spec fn has_shape<T>(g: Seq<Seq<T>>, rows: nat, cols: nat) -> bool {
    &&& g.len() == rows
    &&& forall|i: int| 0 <= i < rows ==> (#[trigger] g[i]).len() == cols
}

/// The number of columns of a grid: the length of its first row.
pub open spec fn width<T>(g: Seq<Seq<T>>) -> nat {
    if g.len() == 0 {
        0
    } else {
        g[0].len()
    }
}

/// `g` is a matrix: it has at least one row and one column, and all its rows
/// are of one length.
pub open spec fn is_matrix<T>(g: Seq<Seq<T>>) -> bool {
    &&& g.len() >= 1
    &&& width(g) >= 1
    &&& has_shape(g, g.len(), width(g))
}

/// `a` and `b` have the same number of rows and of columns.
pub open spec fn same_shape<T>(a: Seq<Seq<T>>, b: Seq<Seq<T>>) -> bool {
    a.len() == b.len() && width(a) == width(b)
}

/// The grid of `rows` by `cols` cells that all hold `value`.
pub open spec fn filled<T>(rows: nat, cols: nat, value: T) -> Seq<Seq<T>> {
    Seq::new(rows, |i: int| Seq::new(cols, |j: int| value))
}

/// The grid of `rows` by `cols` zeros.
pub open spec fn zeros<T: Scalar>(rows: nat, cols: nat) -> Seq<Seq<T>> {
    filled(rows, cols, T::zero_spec())
}

/// The square grid with ones on the diagonal and zeros elsewhere.
pub open spec fn identity<T: Scalar>(size: nat) -> Seq<Seq<T>> {
    Seq::new(
        size,
        |i: int|
            Seq::new(
                size,
                |j: int|
                    if i == j {
                        T::one_spec()
                    } else {
                        T::zero_spec()
                    },
            ),
    )
}

/// Where a number between zero and one lies between minus one and one:
/// twice the number, less one.
pub open spec fn centered<T: Scalar>(draw: T) -> T {
    draw.mul_spec(T::one_spec().add_spec(T::one_spec())).sub_spec(T::one_spec())
}

/// The grid of `rows` by `cols` cells that holds the numbers `draws`, row
/// after row, each centered.
pub open spec fn centered_rows<T: Scalar>(rows: nat, cols: nat, draws: Seq<T>) -> Seq<Seq<T>> {
    Seq::new(rows, |i: int| Seq::new(cols, |j: int| centered(draws[i * cols + j])))
}

/// The transpose: cell `(j, i)` of the result is cell `(i, j)` of `g`.
pub open spec fn transposed<T>(g: Seq<Seq<T>>) -> Seq<Seq<T>> {
    Seq::new(width(g), |j: int| Seq::new(g.len(), |i: int| g[i][j]))
}

/// The cellwise sum of two grids of one shape.
pub open spec fn sum<T: Scalar>(a: Seq<Seq<T>>, b: Seq<Seq<T>>) -> Seq<Seq<T>> {
    Seq::new(a.len(), |i: int| Seq::new(width(a), |j: int| a[i][j].add_spec(b[i][j])))
}

/// The cellwise difference of two grids of one shape.
pub open spec fn difference<T: Scalar>(a: Seq<Seq<T>>, b: Seq<Seq<T>>) -> Seq<Seq<T>> {
    Seq::new(a.len(), |i: int| Seq::new(width(a), |j: int| a[i][j].sub_spec(b[i][j])))
}

/// The cellwise product of two grids of one shape.
pub open spec fn hadamard<T: Scalar>(a: Seq<Seq<T>>, b: Seq<Seq<T>>) -> Seq<Seq<T>> {
    Seq::new(a.len(), |i: int| Seq::new(width(a), |j: int| a[i][j].mul_spec(b[i][j])))
}

/// The sum of the first `n` products `a[i][k] * b[k][j]`, added up from
/// `k = 0` upwards, starting from zero.
pub open spec fn dot<T: Scalar>(a: Seq<Seq<T>>, b: Seq<Seq<T>>, i: int, j: int, n: nat) -> T
    decreases n,
{
    if n == 0 {
        T::zero_spec()
    } else {
        dot(a, b, i, j, (n - 1) as nat).add_spec(a[i][n - 1].mul_spec(b[n - 1][j]))
    }
}

/// The matrix product: cell `(i, j)` is row `i` of `a` times column `j` of `b`.
pub open spec fn product<T: Scalar>(a: Seq<Seq<T>>, b: Seq<Seq<T>>) -> Seq<Seq<T>> {
    Seq::new(a.len(), |i: int| Seq::new(width(b), |j: int| dot(a, b, i, j, width(a))))
}

/// `g` is square and equal to its transpose.
pub open spec fn symmetric<T>(g: Seq<Seq<T>>) -> bool {
    &&& has_shape(g, g.len(), g.len())
    &&& forall|i: int, j: int| 0 <= i < g.len() && 0 <= j < g.len() ==> g[i][j] == g[j][i]
}

/// Transposing twice gives the matrix back.
pub proof fn lemma_transpose_involution<T>(a: Seq<Seq<T>>)
    requires
        is_matrix(a),
    ensures
        is_matrix(transposed(a)),
        transposed(transposed(a)) == a,
{
    let t = transposed(a);
    assert(t[0].len() == a.len());
    assert(is_matrix(t));
    assert(transposed(t) =~~= a);
}

/// The sum of two matrices of one shape does not depend on their order.
pub proof fn lemma_sum_commutes<T: Scalar>(a: Seq<Seq<T>>, b: Seq<Seq<T>>)
    requires
        same_shape(a, b),
    ensures
        sum(a, b) == sum(b, a),
{
    assert forall|i: int, j: int| 0 <= i < a.len() && 0 <= j < width(a) implies a[i][j].add_spec(
        b[i][j],
    ) == b[i][j].add_spec(a[i][j]) by {
        T::lemma_add_commutes(a[i][j], b[i][j]);
    }
    assert(sum(a, b) =~~= sum(b, a));
}

/// Row `i` of `a` times column `j` of the identity, up to the first `n`
/// terms: zero as long as the diagonal is not reached, `a[i][j]` from there.
proof fn lemma_dot_identity<T: Scalar>(a: Seq<Seq<T>>, i: int, j: int, n: nat)
    requires
        0 <= j < width(a),
        n <= width(a),
    ensures
        dot(a, identity::<T>(width(a)), i, j, n) == if n <= j {
            T::zero_spec()
        } else {
            a[i][j]
        },
    decreases n,
{
    if n > 0 {
        let k = n - 1;
        lemma_dot_identity(a, i, j, k as nat);
        let e = identity::<T>(width(a));
        let before = dot(a, e, i, j, k as nat);
        if k == j {
            assert(e[k][j] == T::one_spec());
            T::lemma_mul_one(a[i][k]);
            lemma_zero_add(a[i][j]);
        } else {
            assert(e[k][j] == T::zero_spec());
            T::lemma_mul_zero(a[i][k]);
            T::lemma_add_zero(before);
        }
    }
}

/// Multiplying a matrix by the identity of its width gives the matrix back.
pub proof fn lemma_product_identity<T: Scalar>(a: Seq<Seq<T>>)
    requires
        is_matrix(a),
    ensures
        product(a, identity::<T>(width(a))) == a,
{
    let e = identity::<T>(width(a));
    assert(e[0].len() == width(a));
    assert forall|i: int, j: int| 0 <= i < a.len() && 0 <= j < width(a) implies dot(
        a,
        e,
        i,
        j,
        width(a),
    ) == a[i][j] by {
        lemma_dot_identity(a, i, j, width(a));
    }
    assert(product(a, e) =~~= a);
}

} // verus!
