//! Members of a truss, and how a local matrix is scattered into a global one.

use vstd::prelude::*;
use crate::dof::{as_ints, dof_indices, in_range, lemma_member_dofs, member_dofs, slot};
use crate::error::TrussError;
use crate::grid::{has_shape, is_matrix, symmetric};
use crate::matrix::{rows_of, Matrix};
use crate::scalar::Scalar;
use crate::stiffness::{
    double_stiffness, lemma_double_stiffness_symmetric, lemma_single_stiffness_symmetric,
    single_stiffness,
};

verus! {

/// What a member is, mathematically: its local stiffness matrix and the
/// identifiers of the nodes that it joins.
pub struct MemberModel<T> {
    pub local: Seq<Seq<T>>,
    pub nodes: Seq<usize>,
}

/// A member of a truss: a local stiffness matrix of four rows and columns,
/// which is symmetric, and the identifiers of the nodes that it joins.
pub struct TrussMember<T> {
    matrix: Matrix<T>,
    nodes: Vec<usize>,
}

impl<T> View for TrussMember<T> {
    type V = MemberModel<T>;

    closed spec fn view(&self) -> MemberModel<T> {
        MemberModel { local: self.matrix@, nodes: self.nodes@ }
    }
}

/// Why a member with these nodes has no place among `total_nodes` nodes, if
/// it has none: it does not name two nodes; or one of them is not among
/// `1, ..., total_nodes`; or the two are one node.
pub open spec fn member_fault(nodes: Seq<usize>, total_nodes: nat) -> Option<TrussError> {
    if nodes.len() != 2 {
        Some(TrussError::InvalidShape)
    } else if !in_range(nodes[0] as int, total_nodes as int) || !in_range(
        nodes[1] as int,
        total_nodes as int,
    ) {
        Some(TrussError::UnknownNode)
    } else if nodes[0] == nodes[1] {
        Some(TrussError::DuplicateNode)
    } else {
        None
    }
}

/// The square grid of `size` rows that holds cell `(p, q)` of `local` in
/// row `dofs[p]` and column `dofs[q]`, for the sixteen pairs `(p, q)`, and
/// zero in every other cell.
pub open spec fn scattered<T: Scalar>(local: Seq<Seq<T>>, dofs: Seq<int>, size: nat) -> Seq<
    Seq<T>,
> {
    Seq::new(
        size,
        |i: int|
            Seq::new(
                size,
                |j: int|
                    match (slot(dofs, i), slot(dofs, j)) {
                        (Some(p), Some(q)) => local[p][q],
                        _ => T::zero_spec(),
                    },
            ),
    )
}

/// The contribution of a member to the global matrix of a structure of
/// `total_nodes` nodes: its local matrix, scattered to the degrees of
/// freedom of its two nodes.
pub open spec fn expanded<T: Scalar>(member: MemberModel<T>, total_nodes: nat) -> Seq<Seq<T>> {
    scattered(
        member.local,
        member_dofs(member.nodes[0] as int, member.nodes[1] as int),
        2 * total_nodes,
    )
}

/// The position of the global index `i` among the indices of a member.
fn find_slot(dofs: &[usize; 4], i: usize) -> (r: Option<usize>)
    ensures
        match slot(as_ints(dofs@), i as int) {
            Some(p) => r == Some(p as usize) && 0 <= p < 4,
            None => r is None,
        },
{
    if dofs[0] == i {
        Some(0)
    } else if dofs[1] == i {
        Some(1)
    } else if dofs[2] == i {
        Some(2)
    } else if dofs[3] == i {
        Some(3)
    } else {
        None
    }
}

impl<T> TrussMember<T> {
    #[verifier::type_invariant]
    spec fn well_formed(&self) -> bool {
        self.matrix@.len() == 4 && symmetric(self.matrix@)
    }
}

impl<T: Scalar> TrussMember<T> {
    /// A member with the spring constant `spring_constant` (modulus times
    /// area over length) whose direction has the cosine `cos` and the sine
    /// `sin`, between the nodes `nodes`.
    pub fn create_single(spring_constant: T, cos: T, sin: T, nodes: Vec<usize>) -> (r:
        TrussMember<T>)
        ensures
            r@.local == single_stiffness(spring_constant, cos, sin),
            r@.nodes == nodes@,
    {
        proof {
            lemma_single_stiffness_symmetric(spring_constant, cos, sin);
        }
        TrussMember { matrix: Matrix::stiffness_single(spring_constant, cos, sin), nodes }
    }

    /// A member whose two nodes have directions of their own: `(cos1, sin1)`
    /// for the first node and `(cos2, sin2)` for the second.
    pub fn create_double(
        spring_constant: T,
        cos1: T,
        sin1: T,
        cos2: T,
        sin2: T,
        nodes: Vec<usize>,
    ) -> (r: TrussMember<T>)
        ensures
            r@.local == double_stiffness(spring_constant, cos1, sin1, cos2, sin2),
            r@.nodes == nodes@,
    {
        proof {
            lemma_double_stiffness_symmetric(spring_constant, cos1, sin1, cos2, sin2);
        }
        TrussMember {
            matrix: Matrix::stiffness_dbl(spring_constant, cos1, sin1, cos2, sin2),
            nodes,
        }
    }

    /// The local stiffness matrix.
    pub fn matrix(&self) -> (r: &Matrix<T>)
        ensures
            r@ == self@.local,
            r@.len() == 4,
            symmetric(r@),
    {
        proof {
            use_type_invariant(self);
        }
        &self.matrix
    }

    /// The identifiers of the nodes that the member joins.
    pub fn nodes(&self) -> (r: &Vec<usize>)
        ensures
            r@ == self@.nodes,
    {
        &self.nodes
    }

    /// The contribution of the member to the global matrix of a structure of
    /// `total_nodes` nodes: a square matrix of `2 * total_nodes` rows that
    /// holds the cells of the local matrix at the degrees of freedom of the
    /// member's nodes, and zero elsewhere.
    ///
    /// Fails with `InvalidShape` unless the member names two nodes, else with
    /// `UnknownNode` unless both are among `1, ..., total_nodes`, else with
    /// `DuplicateNode` if the two are one node.
    pub fn expand_to_global(&self, total_nodes: usize) -> (r: Result<Matrix<T>, TrussError>)
        requires
            2 * total_nodes <= usize::MAX,
        ensures
            match member_fault(self@.nodes, total_nodes as nat) {
                Some(e) => r == Err::<Matrix<T>, TrussError>(e),
                None => r is Ok && r->Ok_0@ == expanded(self@, total_nodes as nat),
            },
            r is Ok ==> has_shape(r->Ok_0@, 2 * total_nodes as nat, 2 * total_nodes as nat),
            r is Ok ==> symmetric(r->Ok_0@),
            r is Ok ==> forall|p: int, q: int|
                0 <= p < 4 && 0 <= q < 4 ==> r->Ok_0@[member_dofs(
                    self@.nodes[0] as int,
                    self@.nodes[1] as int,
                )[p]][member_dofs(self@.nodes[0] as int, self@.nodes[1] as int)[q]]
                    == self@.local[p][q],
    {
        proof {
            use_type_invariant(self);
        }
        if self.nodes.len() != 2 {
            return Err(TrussError::InvalidShape);
        }
        let dofs = match dof_indices(self.nodes[0], self.nodes[1], total_nodes) {
            Ok(dofs) => dofs,
            Err(e) => {
                return Err(e);
            },
        };
        let size = 2 * total_nodes;
        let ghost local = self.matrix@;
        let ghost indices = member_dofs(self.nodes@[0] as int, self.nodes@[1] as int);
        proof {
            lemma_member_dofs(self.nodes@[0] as int, self.nodes@[1] as int, total_nodes as int);
            lemma_scattered(
                local,
                self.nodes@[0] as int,
                self.nodes@[1] as int,
                total_nodes as nat,
            );
        }
        let mut data: Vec<Vec<T>> = Vec::new();
        let mut i: usize = 0;
        while i < size
            invariant
                i <= size,
                self.well_formed(),
                local == self.matrix@,
                indices == as_ints(dofs@),
                data@.len() == i,
                forall|k: int|
                    0 <= k < i ==> (#[trigger] data@[k])@ == scattered(
                        local,
                        indices,
                        size as nat,
                    )[k],
            decreases size - i,
        {
            let row_slot = find_slot(&dofs, i);
            let mut row: Vec<T> = Vec::new();
            let mut j: usize = 0;
            while j < size
                invariant
                    j <= size,
                    i < size,
                    self.well_formed(),
                    local == self.matrix@,
                    indices == as_ints(dofs@),
                    match slot(indices, i as int) {
                        Some(p) => row_slot == Some(p as usize) && 0 <= p < 4,
                        None => row_slot is None,
                    },
                    row@.len() == j,
                    forall|k: int|
                        0 <= k < j ==> row@[k] == scattered(
                            local,
                            indices,
                            size as nat,
                        )[i as int][k],
                decreases size - j,
            {
                let cell = match (row_slot, find_slot(&dofs, j)) {
                    (Some(p), Some(q)) => *self.matrix.cell(p, q),
                    _ => T::zero(),
                };
                row.push(cell);
                j += 1;
            }
            assert(row@ =~= scattered(local, indices, size as nat)[i as int]);
            data.push(row);
            i += 1;
        }
        assert(rows_of(data@) =~= scattered(local, indices, size as nat));
        assert(is_matrix(rows_of(data@))) by {
            assert(rows_of(data@)[0].len() == size);
        }
        Matrix::from(data)
    }
}

/// Scattering places every cell of the local matrix at the degrees of
/// freedom of its row and column, and nothing anywhere else; and the
/// scattered grid of a symmetric matrix is symmetric.
pub proof fn lemma_scattered<T: Scalar>(
    local: Seq<Seq<T>>,
    first: int,
    second: int,
    total_nodes: nat,
)
    requires
        in_range(first, total_nodes as int),
        in_range(second, total_nodes as int),
        first != second,
    ensures
        has_shape(
            scattered(local, member_dofs(first, second), 2 * total_nodes),
            2 * total_nodes,
            2 * total_nodes,
        ),
        forall|p: int, q: int|
            0 <= p < 4 && 0 <= q < 4 ==> scattered(
                local,
                member_dofs(first, second),
                2 * total_nodes,
            )[member_dofs(first, second)[p]][member_dofs(first, second)[q]] == local[p][q],
        forall|i: int, j: int|
            0 <= i < 2 * total_nodes && 0 <= j < 2 * total_nodes && (slot(
                member_dofs(first, second),
                i,
            ) is None || slot(member_dofs(first, second), j) is None) ==> scattered(
                local,
                member_dofs(first, second),
                2 * total_nodes,
            )[i][j] == T::zero_spec(),
        local.len() == 4 && symmetric(local) ==> symmetric(
            scattered(local, member_dofs(first, second), 2 * total_nodes),
        ),
{
    lemma_member_dofs(first, second, total_nodes as int);
}

} // verus!
