//! Dense matrices and their arithmetic.

use vstd::prelude::*;
use crate::error::TrussError;
use crate::grid::{
    centered, centered_rows, difference, dot, filled, hadamard, has_shape, is_matrix, product,
    same_shape, sum, transposed, width, zeros,
};
use crate::scalar::Scalar;
use crate::stiffness::{double_stiffness, scale_row, single_stiffness, truss_matrix};

verus! {

/// A dense matrix with at least one row and one column.
///
/// Its view is the sequence of its rows, each a sequence of cells.
pub struct Matrix<T> {
    rows: usize,
    cols: usize,
    data: Vec<Vec<T>>,
}

/// The rows of a vector of vectors, as sequences.
pub open spec fn rows_of<T>(data: Seq<Vec<T>>) -> Seq<Seq<T>> {
    Seq::new(data.len(), |i: int| data[i]@)
}

impl<T> View for Matrix<T> {
    type V = Seq<Seq<T>>;

    closed spec fn view(&self) -> Seq<Seq<T>> {
        rows_of(self.data@)
    }
}

impl<T> Matrix<T> {
    #[verifier::type_invariant]
    spec fn well_formed(&self) -> bool {
        &&& self.rows >= 1
        &&& self.cols >= 1
        &&& self.data@.len() == self.rows
        &&& forall|i: int| 0 <= i < self.rows ==> (#[trigger] self.data@[i])@.len() == self.cols
    }

    /// Wraps rows that already have the shape of a matrix.
    ///
    /// Fails with `InvalidShape` when there is no row, when the first row is
    /// empty, or when the rows are not all of one length.
    pub fn from(data: Vec<Vec<T>>) -> (r: Result<Matrix<T>, TrussError>)
        ensures
            is_matrix(rows_of(data@)) ==> r is Ok && r->Ok_0@ == rows_of(data@),
            !is_matrix(rows_of(data@)) ==> r == Err::<Matrix<T>, TrussError>(
                TrussError::InvalidShape,
            ),
    {
        let rows = data.len();
        if rows == 0 {
            return Err(TrussError::InvalidShape);
        }
        let cols = data[0].len();
        if cols == 0 {
            return Err(TrussError::InvalidShape);
        }
        let mut i: usize = 1;
        while i < rows
            invariant
                1 <= i <= rows,
                rows == data@.len(),
                cols == data@[0]@.len(),
                forall|k: int| 0 <= k < i ==> (#[trigger] data@[k])@.len() == cols,
            decreases rows - i,
        {
            if data[i].len() != cols {
                assert(rows_of(data@)[i as int].len() != width(rows_of(data@)));
                return Err(TrussError::InvalidShape);
            }
            i += 1;
        }
        assert(is_matrix(rows_of(data@))) by {
            assert forall|k: int| 0 <= k < rows implies (#[trigger] rows_of(data@)[k]).len()
                == cols by {
                assert(data@[k]@.len() == cols);
            }
        }
        Ok(Matrix { rows, cols, data })
    }

    /// The number of rows.
    pub fn rows(&self) -> (r: usize)
        ensures
            r == self@.len(),
            is_matrix(self@),
    {
        proof {
            use_type_invariant(self);
            self.lemma_view_is_matrix();
        }
        self.rows
    }

    /// The number of columns.
    pub fn cols(&self) -> (c: usize)
        ensures
            c == width(self@),
            is_matrix(self@),
    {
        proof {
            use_type_invariant(self);
            self.lemma_view_is_matrix();
        }
        self.cols
    }

    /// The cell in row `row` and column `col`, if the matrix has one there.
    pub fn get(&self, row: usize, col: usize) -> (r: Option<&T>)
        ensures
            row < self@.len() && col < width(self@) ==> r == Some(&self@[row as int][col as int]),
            !(row < self@.len() && col < width(self@)) ==> r is None,
    {
        proof {
            use_type_invariant(self);
            self.lemma_view_is_matrix();
        }
        if row < self.rows && col < self.cols {
            Some(&self.data[row][col])
        } else {
            None
        }
    }

    /// The cell in row `row` and column `col`.
    pub(crate) fn cell(&self, row: usize, col: usize) -> (r: &T)
        requires
            row < self@.len(),
            col < width(self@),
        ensures
            *r == self@[row as int][col as int],
    {
        proof {
            use_type_invariant(self);
            self.lemma_view_is_matrix();
        }
        &self.data[row][col]
    }

    /// The rows of the matrix.
    pub fn data(&self) -> (r: &Vec<Vec<T>>)
        ensures
            rows_of(r@) == self@,
    {
        &self.data
    }

    proof fn lemma_view_is_matrix(&self)
        requires
            self.well_formed(),
        ensures
            is_matrix(self@),
            self@.len() == self.rows,
            width(self@) == self.cols,
    {
        assert(self@[0] == self.data@[0]@);
        assert forall|i: int| 0 <= i < self@.len() implies (#[trigger] self@[i]).len()
            == self.cols by {
            assert(self.data@[i]@.len() == self.cols);
        }
    }
}

impl<T: Copy> Matrix<T> {
    /// The matrix of `rows` by `cols` cells that all hold `value`.
    ///
    /// Fails with `InvalidShape` when `rows` or `cols` is zero.
    pub fn value(rows: usize, cols: usize, value: T) -> (r: Result<Matrix<T>, TrussError>)
        ensures
            rows >= 1 && cols >= 1 ==> r is Ok && r->Ok_0@ == filled(
                rows as nat,
                cols as nat,
                value,
            ),
            rows == 0 || cols == 0 ==> r == Err::<Matrix<T>, TrussError>(TrussError::InvalidShape),
    {
        if rows == 0 || cols == 0 {
            return Err(TrussError::InvalidShape);
        }
        let mut data: Vec<Vec<T>> = Vec::new();
        let mut i: usize = 0;
        while i < rows
            invariant
                i <= rows,
                data@.len() == i,
                forall|k: int| 0 <= k < i ==> (#[trigger] data@[k])@ == Seq::new(
                    cols as nat,
                    |j: int| value,
                ),
            decreases rows - i,
        {
            let mut row: Vec<T> = Vec::new();
            let mut j: usize = 0;
            while j < cols
                invariant
                    j <= cols,
                    row@.len() == j,
                    forall|k: int| 0 <= k < j ==> row@[k] == value,
                decreases cols - j,
            {
                row.push(value);
                j += 1;
            }
            assert(row@ =~= Seq::new(cols as nat, |j: int| value));
            data.push(row);
            i += 1;
        }
        assert(rows_of(data@) =~= filled(rows as nat, cols as nat, value));
        Ok(Matrix { rows, cols, data })
    }

    /// The transpose: cell `(j, i)` of the result is cell `(i, j)` of `self`.
    pub fn transpose(&self) -> (r: Matrix<T>)
        ensures
            r@ == transposed(self@),
            r@.len() == width(self@),
            width(r@) == self@.len(),
            forall|i: int, j: int|
                0 <= i < self@.len() && 0 <= j < width(self@) ==> r@[j][i] == self@[i][j],
    {
        proof {
            use_type_invariant(self);
            self.lemma_view_is_matrix();
        }
        let rows = self.cols;
        let cols = self.rows;
        let mut data: Vec<Vec<T>> = Vec::new();
        let mut j: usize = 0;
        while j < rows
            invariant
                j <= rows,
                self.well_formed(),
                rows == self.cols,
                cols == self.rows,
                data@.len() == j,
                forall|k: int|
                    0 <= k < j ==> (#[trigger] data@[k])@ == Seq::new(
                        cols as nat,
                        |i: int| self.data@[i]@[k],
                    ),
            decreases rows - j,
        {
            let mut row: Vec<T> = Vec::new();
            let mut i: usize = 0;
            while i < cols
                invariant
                    i <= cols,
                    j < rows,
                    self.well_formed(),
                    rows == self.cols,
                    cols == self.rows,
                    row@.len() == i,
                    forall|k: int| 0 <= k < i ==> row@[k] == self.data@[k]@[j as int],
                decreases cols - i,
            {
                row.push(self.data[i][j]);
                i += 1;
            }
            assert(row@ =~= Seq::new(cols as nat, |i: int| self.data@[i]@[j as int]));
            data.push(row);
            j += 1;
        }
        assert(rows_of(data@) =~~= transposed(self@));
        Matrix { rows, cols, data }
    }

    /// The matrix whose cells are what `function` makes of the cells of
    /// `self`, each in its place.
    pub fn map<U, F: Fn(T) -> U>(&self, function: F) -> (r: Matrix<U>)
        requires
            forall|i: int, j: int|
                0 <= i < self@.len() && 0 <= j < width(self@) ==> call_requires(
                    function,
                    (#[trigger] self@[i][j],),
                ),
        ensures
            has_shape(r@, self@.len(), width(self@)),
            forall|i: int, j: int|
                0 <= i < self@.len() && 0 <= j < width(self@) ==> call_ensures(
                    function,
                    (self@[i][j],),
                    #[trigger] r@[i][j],
                ),
    {
        proof {
            use_type_invariant(self);
            self.lemma_view_is_matrix();
        }
        let rows = self.rows;
        let cols = self.cols;
        let mut data: Vec<Vec<U>> = Vec::new();
        let mut i: usize = 0;
        while i < rows
            invariant
                i <= rows,
                self.well_formed(),
                rows == self.rows,
                cols == self.cols,
                data@.len() == i,
                forall|a: int, b: int|
                    0 <= a < self@.len() && 0 <= b < width(self@) ==> call_requires(
                        function,
                        (#[trigger] self@[a][b],),
                    ),
                forall|k: int| 0 <= k < i ==> (#[trigger] data@[k])@.len() == cols,
                forall|a: int, b: int|
                    0 <= a < i && 0 <= b < cols ==> call_ensures(
                        function,
                        (self@[a][b],),
                        #[trigger] data@[a]@[b],
                    ),
            decreases rows - i,
        {
            let mut row: Vec<U> = Vec::new();
            let mut j: usize = 0;
            while j < cols
                invariant
                    j <= cols,
                    i < rows,
                    self.well_formed(),
                    rows == self.rows,
                    cols == self.cols,
                    row@.len() == j,
                    forall|a: int, b: int|
                        0 <= a < self@.len() && 0 <= b < width(self@) ==> call_requires(
                            function,
                            (#[trigger] self@[a][b],),
                        ),
                    forall|b: int|
                        0 <= b < j ==> call_ensures(
                            function,
                            (self@[i as int][b],),
                            #[trigger] row@[b],
                        ),
                decreases cols - j,
            {
                proof {
                    self.lemma_view_is_matrix();
                    assert(self@[i as int][j as int] == self.data@[i as int]@[j as int]);
                }
                let cell = function(self.data[i][j]);
                row.push(cell);
                j += 1;
            }
            data.push(row);
            i += 1;
        }
        let r = Matrix { rows, cols, data };
        proof {
            self.lemma_view_is_matrix();
            r.lemma_view_is_matrix();
            assert forall|a: int, b: int|
                0 <= a < self@.len() && 0 <= b < width(self@) implies call_ensures(
                function,
                (self@[a][b],),
                #[trigger] r@[a][b],
            ) by {
                assert(r@[a][b] == r.data@[a]@[b]);
            }
        }
        r
    }
}

impl<T: Scalar> Matrix<T> {
    /// The matrix of `rows` by `cols` zeros.
    ///
    /// Fails with `InvalidShape` when `rows` or `cols` is zero.
    pub fn zeros(rows: usize, cols: usize) -> (r: Result<Matrix<T>, TrussError>)
        ensures
            rows >= 1 && cols >= 1 ==> r is Ok && r->Ok_0@ == zeros::<T>(rows as nat, cols as nat),
            rows >= 1 && cols >= 1 ==> has_shape(r->Ok_0@, rows as nat, cols as nat),
            rows >= 1 && cols >= 1 ==> forall|i: int, j: int|
                0 <= i < rows && 0 <= j < cols ==> #[trigger] r->Ok_0@[i][j] == T::zero_spec(),
            rows == 0 || cols == 0 ==> r == Err::<Matrix<T>, TrussError>(TrussError::InvalidShape),
    {
        Matrix::value(rows, cols, T::zero())
    }

    /// The matrix of `rows` by `cols` cells made of the random numbers
    /// `draws`, row after row. A draw between zero and one gives a cell
    /// between minus one and one: twice the draw, less one.
    ///
    /// Fails with `InvalidShape` when `rows` or `cols` is zero, or when there
    /// are not `rows * cols` draws.
    pub fn random(rows: usize, cols: usize, draws: &Vec<T>) -> (r: Result<Matrix<T>, TrussError>)
        ensures
            rows >= 1 && cols >= 1 && draws@.len() == rows * cols ==> r is Ok && r->Ok_0@
                == centered_rows(rows as nat, cols as nat, draws@),
            !(rows >= 1 && cols >= 1 && draws@.len() == rows * cols) ==> r == Err::<
                Matrix<T>,
                TrussError,
            >(TrussError::InvalidShape),
    {
        if rows == 0 || cols == 0 {
            return Err(TrussError::InvalidShape);
        }
        let given = draws.len();
        match rows.checked_mul(cols) {
            Some(cells) => {
                if cells != given {
                    return Err(TrussError::InvalidShape);
                }
            },
            None => {
                return Err(TrussError::InvalidShape);
            },
        }
        let one = T::one();
        let two = one.add(one);
        let mut data: Vec<Vec<T>> = Vec::new();
        let mut next: usize = 0;
        let mut i: usize = 0;
        while i < rows
            invariant
                i <= rows,
                cols >= 1,
                draws@.len() == rows * cols,
                given == draws@.len(),
                next == i * cols,
                one == T::one_spec(),
                two == T::one_spec().add_spec(T::one_spec()),
                data@.len() == i,
                forall|k: int|
                    0 <= k < i ==> (#[trigger] data@[k])@ == Seq::new(
                        cols as nat,
                        |j: int| centered(draws@[k * cols + j]),
                    ),
            decreases rows - i,
        {
            assert((i + 1) * cols <= rows * cols) by (nonlinear_arith)
                requires
                    i < rows,
            ;
            assert((i + 1) * cols == i * cols + cols) by (nonlinear_arith);
            let mut row: Vec<T> = Vec::new();
            let mut j: usize = 0;
            while j < cols
                invariant
                    j <= cols,
                    next == i * cols + j,
                    i * cols + cols <= draws@.len(),
                    given == draws@.len(),
                    one == T::one_spec(),
                    two == T::one_spec().add_spec(T::one_spec()),
                    row@.len() == j,
                    forall|k: int| 0 <= k < j ==> row@[k] == centered(draws@[i * cols + k]),
                decreases cols - j,
            {
                row.push(draws[next].mul(two).sub(one));
                next += 1;
                j += 1;
            }
            assert(row@ =~= Seq::new(cols as nat, |j: int| centered(draws@[i * cols + j])));
            data.push(row);
            i += 1;
        }
        assert(rows_of(data@) =~= centered_rows(rows as nat, cols as nat, draws@));
        Ok(Matrix { rows, cols, data })
    }

    /// The local stiffness matrix of an axial member: four rows and columns,
    /// for the horizontal and vertical displacement of its first node, then
    /// of its second.
    ///
    /// `spring_constant` is modulus times area over length; `cos` and `sin`
    /// are the cosine and sine of the member's angle.
    pub fn stiffness_single(spring_constant: T, cos: T, sin: T) -> (r: Matrix<T>)
        ensures
            r@ == single_stiffness(spring_constant, cos, sin),
    {
        let data = truss_matrix(spring_constant, cos, sin);
        assert(data@.len() == 4 && forall|i: int| 0 <= i < 4 ==> (#[trigger] data@[i])@.len() == 4)
            by {
            let g = single_stiffness(spring_constant, cos, sin);
            assert(rows_of(data@).len() == 4);
            assert forall|i: int| 0 <= i < 4 implies (#[trigger] data@[i])@.len() == 4 by {
                assert(rows_of(data@)[i] == data@[i]@);
                assert(g[i].len() == 4);
            }
        }
        Matrix { rows: 4, cols: 4, data }
    }

    /// The local stiffness matrix of a member whose two nodes have
    /// directions of their own: `(cos1, sin1)` for the first node and
    /// `(cos2, sin2)` for the second.
    pub fn stiffness_dbl(spring_constant: T, cos1: T, sin1: T, cos2: T, sin2: T) -> (r: Matrix<T>)
        ensures
            r@ == double_stiffness(spring_constant, cos1, sin1, cos2, sin2),
    {
        let c1c1 = cos1.mul(cos1);
        let c1s1 = cos1.mul(sin1);
        let s1s1 = sin1.mul(sin1);
        let c1c2 = cos1.mul(cos2);
        let c1s2 = cos1.mul(sin2);
        let c2s1 = cos2.mul(sin1);
        let s2s1 = sin2.mul(sin1);
        let c2c2 = cos2.mul(cos2);
        let c2s2 = cos2.mul(sin2);
        let s2s2 = sin2.mul(sin2);
        let mut data: Vec<Vec<T>> = Vec::new();
        data.push(scale_row(c1c1, c1s1, c1c2.neg(), c1s2.neg(), spring_constant));
        data.push(scale_row(c1s1, s1s1, c2s1.neg(), s2s1.neg(), spring_constant));
        data.push(scale_row(c1c2.neg(), c2s1.neg(), c2c2, c2s2, spring_constant));
        data.push(scale_row(c1s2.neg(), s2s1.neg(), c2s2, s2s2, spring_constant));
        assert(rows_of(data@) =~= double_stiffness(spring_constant, cos1, sin1, cos2, sin2));
        Matrix { rows: 4, cols: 4, data }
    }

    /// The cellwise combination of two matrices of one shape.
    fn cellwise(&self, other: &Matrix<T>, op: CellOp) -> (r: Result<Matrix<T>, TrussError>)
        ensures
            same_shape(self@, other@) ==> r is Ok && r->Ok_0@ == Seq::new(
                self@.len(),
                |i: int|
                    Seq::new(width(self@), |j: int| combined(op, self@[i][j], other@[i][j])),
            ),
            !same_shape(self@, other@) ==> r == Err::<Matrix<T>, TrussError>(
                TrussError::ShapeMismatch,
            ),
    {
        proof {
            use_type_invariant(self);
            use_type_invariant(other);
            self.lemma_view_is_matrix();
            other.lemma_view_is_matrix();
        }
        if self.rows != other.rows || self.cols != other.cols {
            return Err(TrussError::ShapeMismatch);
        }
        let rows = self.rows;
        let cols = self.cols;
        let mut data: Vec<Vec<T>> = Vec::new();
        let mut i: usize = 0;
        while i < rows
            invariant
                i <= rows,
                self.well_formed(),
                other.well_formed(),
                rows == self.rows == other.rows,
                cols == self.cols == other.cols,
                data@.len() == i,
                forall|k: int|
                    0 <= k < i ==> (#[trigger] data@[k])@ == Seq::new(
                        cols as nat,
                        |j: int| combined(op, self.data@[k]@[j], other.data@[k]@[j]),
                    ),
            decreases rows - i,
        {
            let mut row: Vec<T> = Vec::new();
            let mut j: usize = 0;
            while j < cols
                invariant
                    j <= cols,
                    i < rows,
                    self.well_formed(),
                    other.well_formed(),
                    rows == self.rows == other.rows,
                    cols == self.cols == other.cols,
                    row@.len() == j,
                    forall|k: int|
                        0 <= k < j ==> row@[k] == combined(
                            op,
                            self.data@[i as int]@[k],
                            other.data@[i as int]@[k],
                        ),
                decreases cols - j,
            {
                let a = self.data[i][j];
                let b = other.data[i][j];
                let c = match op {
                    CellOp::Sum => a.add(b),
                    CellOp::Difference => a.sub(b),
                    CellOp::Product => a.mul(b),
                };
                row.push(c);
                j += 1;
            }
            assert(row@ =~= Seq::new(
                cols as nat,
                |j: int| combined(op, self.data@[i as int]@[j], other.data@[i as int]@[j]),
            ));
            data.push(row);
            i += 1;
        }
        assert(rows_of(data@) =~= Seq::new(
            self@.len(),
            |i: int| Seq::new(width(self@), |j: int| combined(op, self@[i][j], other@[i][j])),
        ));
        Ok(Matrix { rows, cols, data })
    }

    /// The cellwise sum `self + other`.
    ///
    /// Fails with `ShapeMismatch` unless the two have the same shape.
    pub fn add(&self, other: &Matrix<T>) -> (r: Result<Matrix<T>, TrussError>)
        ensures
            same_shape(self@, other@) ==> r is Ok && r->Ok_0@ == sum(self@, other@),
            !same_shape(self@, other@) ==> r == Err::<Matrix<T>, TrussError>(
                TrussError::ShapeMismatch,
            ),
    {
        let r = self.cellwise(other, CellOp::Sum);
        proof {
            if same_shape(self@, other@) {
                assert(r->Ok_0@ =~~= sum(self@, other@));
            }
        }
        r
    }

    /// The cellwise difference `self - other`.
    ///
    /// Fails with `ShapeMismatch` unless the two have the same shape.
    pub fn subtract(&self, other: &Matrix<T>) -> (r: Result<Matrix<T>, TrussError>)
        ensures
            same_shape(self@, other@) ==> r is Ok && r->Ok_0@ == difference(self@, other@),
            !same_shape(self@, other@) ==> r == Err::<Matrix<T>, TrussError>(
                TrussError::ShapeMismatch,
            ),
    {
        let r = self.cellwise(other, CellOp::Difference);
        proof {
            if same_shape(self@, other@) {
                assert(r->Ok_0@ =~~= difference(self@, other@));
            }
        }
        r
    }

    /// The cellwise product of `self` and `other`.
    ///
    /// Fails with `ShapeMismatch` unless the two have the same shape.
    pub fn dot_product(&self, other: &Matrix<T>) -> (r: Result<Matrix<T>, TrussError>)
        ensures
            same_shape(self@, other@) ==> r is Ok && r->Ok_0@ == hadamard(self@, other@),
            !same_shape(self@, other@) ==> r == Err::<Matrix<T>, TrussError>(
                TrussError::ShapeMismatch,
            ),
    {
        let r = self.cellwise(other, CellOp::Product);
        proof {
            if same_shape(self@, other@) {
                assert(r->Ok_0@ =~~= hadamard(self@, other@));
            }
        }
        r
    }

    /// The matrix product `self * other`.
    ///
    /// Fails with `ShapeMismatch` unless `self` has as many columns as
    /// `other` has rows.
    pub fn multiply(&self, other: &Matrix<T>) -> (r: Result<Matrix<T>, TrussError>)
        ensures
            width(self@) == other@.len() ==> r is Ok && r->Ok_0@ == product(self@, other@),
            width(self@) != other@.len() ==> r == Err::<Matrix<T>, TrussError>(
                TrussError::ShapeMismatch,
            ),
    {
        proof {
            use_type_invariant(self);
            use_type_invariant(other);
            self.lemma_view_is_matrix();
            other.lemma_view_is_matrix();
        }
        if self.cols != other.rows {
            return Err(TrussError::ShapeMismatch);
        }
        let rows = self.rows;
        let cols = other.cols;
        let inner = self.cols;
        let mut data: Vec<Vec<T>> = Vec::new();
        let mut i: usize = 0;
        while i < rows
            invariant
                i <= rows,
                self.well_formed(),
                other.well_formed(),
                rows == self.rows,
                cols == other.cols,
                inner == self.cols == other.rows,
                data@.len() == i,
                forall|k: int|
                    0 <= k < i ==> (#[trigger] data@[k])@ == Seq::new(
                        cols as nat,
                        |j: int| dot(self@, other@, k, j, inner as nat),
                    ),
            decreases rows - i,
        {
            let mut row: Vec<T> = Vec::new();
            let mut j: usize = 0;
            while j < cols
                invariant
                    j <= cols,
                    i < rows,
                    self.well_formed(),
                    other.well_formed(),
                    rows == self.rows,
                    cols == other.cols,
                    inner == self.cols == other.rows,
                    row@.len() == j,
                    forall|k: int|
                        0 <= k < j ==> row@[k] == dot(self@, other@, i as int, k, inner as nat),
                decreases cols - j,
            {
                let mut acc = T::zero();
                let mut k: usize = 0;
                while k < inner
                    invariant
                        k <= inner,
                        i < rows,
                        j < cols,
                        self.well_formed(),
                        other.well_formed(),
                        rows == self.rows,
                        cols == other.cols,
                        inner == self.cols == other.rows,
                        acc == dot(self@, other@, i as int, j as int, k as nat),
                    decreases inner - k,
                {
                    acc = acc.add(self.data[i][k].mul(other.data[k][j]));
                    k += 1;
                }
                row.push(acc);
                j += 1;
            }
            assert(row@ =~= Seq::new(
                cols as nat,
                |j: int| dot(self@, other@, i as int, j, inner as nat),
            ));
            data.push(row);
            i += 1;
        }
        assert(rows_of(data@) =~= product(self@, other@));
        Ok(Matrix { rows, cols, data })
    }
}

/// The cellwise operations.
enum CellOp {
    Sum,
    Difference,
    Product,
}

/// What a cellwise operation makes of two cells.
spec fn combined<T: Scalar>(op: CellOp, a: T, b: T) -> T {
    match op {
        CellOp::Sum => a.add_spec(b),
        CellOp::Difference => a.sub_spec(b),
        CellOp::Product => a.mul_spec(b),
    }
}

} // verus!
