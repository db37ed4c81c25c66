//! From the nodes of a member to its rows and columns in the global matrix.

use vstd::prelude::*;
use crate::error::TrussError;

verus! {

/// Whether `id` names one of the nodes `1, ..., total_nodes`.
pub open spec fn in_range(id: int, total_nodes: int) -> bool {
    1 <= id <= total_nodes
}

/// The two degrees of freedom of node `id`, horizontal first: `2 id - 2`
/// and `2 id - 1`.
pub open spec fn node_dofs(id: int) -> Seq<int> {
    seq![2 * id - 2, 2 * id - 1]
}

/// The four global indices of a member between the nodes `first` and
/// `second`: the degrees of freedom of the smaller node, then those of the
/// larger one. Entry `p` is the global row and column of local row and
/// column `p`.
pub open spec fn member_dofs(first: int, second: int) -> Seq<int> {
    if first <= second {
        node_dofs(first) + node_dofs(second)
    } else {
        node_dofs(second) + node_dofs(first)
    }
}

/// The local index that the global index `i` has in `dofs`, if it has one.
pub open spec fn slot(dofs: Seq<int>, i: int) -> Option<int> {
    if dofs[0] == i {
        Some(0)
    } else if dofs[1] == i {
        Some(1)
    } else if dofs[2] == i {
        Some(2)
    } else if dofs[3] == i {
        Some(3)
    } else {
        None
    }
}

/// The indices of the degrees of freedom, as mathematical integers.
pub open spec fn as_ints(dofs: Seq<usize>) -> Seq<int> {
    dofs.map_values(|d: usize| d as int)
}

/// The global indices of a member between two distinct nodes of a
/// structure of `total_nodes` nodes, whichever of the two is given first.
///
/// Fails with `UnknownNode` when one of the nodes is not among
/// `1, ..., total_nodes`, else with `DuplicateNode` when the two are one node.
pub fn dof_indices(first: usize, second: usize, total_nodes: usize) -> (r: Result<
    [usize; 4],
    TrussError,
>)
    requires
        2 * total_nodes <= usize::MAX,
    ensures
        !in_range(first as int, total_nodes as int) || !in_range(second as int, total_nodes as int)
            ==> r == Err::<[usize; 4], TrussError>(TrussError::UnknownNode),
        in_range(first as int, total_nodes as int) && in_range(second as int, total_nodes as int)
            && first == second ==> r == Err::<[usize; 4], TrussError>(TrussError::DuplicateNode),
        in_range(first as int, total_nodes as int) && in_range(second as int, total_nodes as int)
            && first != second ==> r is Ok && as_ints(r->Ok_0@) == member_dofs(
            first as int,
            second as int,
        ),
{
    if first < 1 || first > total_nodes || second < 1 || second > total_nodes {
        return Err(TrussError::UnknownNode);
    }
    if first == second {
        return Err(TrussError::DuplicateNode);
    }
    let low = if first < second {
        first
    } else {
        second
    };
    let high = if first < second {
        second
    } else {
        first
    };
    let dofs = [2 * low - 2, 2 * low - 1, 2 * high - 2, 2 * high - 1];
    assert(as_ints(dofs@) =~= member_dofs(first as int, second as int));
    Ok(dofs)
}

/// The four indices of a member are distinct, lie below twice the number of
/// nodes, and each has its own position as its slot.
pub proof fn lemma_member_dofs(first: int, second: int, total_nodes: int)
    requires
        in_range(first, total_nodes),
        in_range(second, total_nodes),
        first != second,
    ensures
        member_dofs(first, second).len() == 4,
        forall|p: int|
            0 <= p < 4 ==> 0 <= #[trigger] member_dofs(first, second)[p] < 2 * total_nodes,
        forall|p: int, q: int|
            0 <= p < 4 && 0 <= q < 4 && p != q ==> member_dofs(first, second)[p] != member_dofs(
                first,
                second,
            )[q],
        forall|p: int|
            0 <= p < 4 ==> slot(
                member_dofs(first, second),
                #[trigger] member_dofs(first, second)[p],
            ) == Some(p),
        member_dofs(first, second) == member_dofs(second, first),
{
}

} // verus!
