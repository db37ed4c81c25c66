//! Structures, and the assembly of their global stiffness matrix.

use vstd::prelude::*;
use crate::error::TrussError;
use crate::grid::{has_shape, sum, symmetric, zeros};
use crate::matrix::Matrix;
use crate::member::{expanded, member_fault, MemberModel, TrussMember};
use crate::scalar::Scalar;

verus! {

/// What a structure is, mathematically: its members in their order, and the
/// identifiers of its nodes.
pub struct StructureModel<T> {
    pub members: Seq<MemberModel<T>>,
    pub nodes: Seq<usize>,
}

/// A truss: members, and the nodes that they may join. A structure of `n`
/// nodes has `2 n` degrees of freedom.
pub struct TrussStructure<T> {
    members: Vec<TrussMember<T>>,
    nodes: Vec<usize>,
}

impl<T> View for TrussStructure<T> {
    type V = StructureModel<T>;

    closed spec fn view(&self) -> StructureModel<T> {
        StructureModel {
            members: self.members@.map_values(|m: TrussMember<T>| m@),
            nodes: self.nodes@,
        }
    }
}

/// Why a member with the nodes `member_nodes` has no place in a structure
/// with the nodes `nodes`, if it has none: it does not name two nodes; or it
/// names one that the structure does not have, or one that is not among
/// `1, ..., nodes.len()`; or its two nodes are one.
pub open spec fn fault_in(member_nodes: Seq<usize>, nodes: Seq<usize>) -> Option<TrussError> {
    if member_nodes.len() == 2 && !(nodes.contains(member_nodes[0]) && nodes.contains(
        member_nodes[1],
    )) {
        Some(TrussError::UnknownNode)
    } else {
        member_fault(member_nodes, nodes.len())
    }
}

/// The fault of the first of the first `n` members that has one.
pub open spec fn first_fault<T>(
    members: Seq<MemberModel<T>>,
    nodes: Seq<usize>,
    n: nat,
) -> Option<TrussError>
    decreases n,
{
    if n == 0 {
        None
    } else {
        match first_fault(members, nodes, (n - 1) as nat) {
            Some(e) => Some(e),
            None => fault_in(members[n - 1].nodes, nodes),
        }
    }
}

/// Why a structure has no global stiffness matrix, if it has none: a node
/// identifier occurs twice (`DuplicateNode`); or there is no node at all
/// (`InvalidShape`); or a member has no place in it, and then the fault of
/// the first such member.
pub open spec fn structure_fault<T>(s: StructureModel<T>) -> Option<TrussError> {
    if !s.nodes.no_duplicates() {
        Some(TrussError::DuplicateNode)
    } else if s.nodes.len() == 0 {
        Some(TrussError::InvalidShape)
    } else {
        first_fault(s.members, s.nodes, s.members.len())
    }
}

/// The global matrix after the first `n` members: zero in every cell to
/// begin with, and with each member its contribution added cell by cell.
pub open spec fn assembled<T: Scalar>(
    members: Seq<MemberModel<T>>,
    total_nodes: nat,
    n: nat,
) -> Seq<Seq<T>>
    decreases n,
{
    if n == 0 {
        zeros(2 * total_nodes, 2 * total_nodes)
    } else {
        sum(
            expanded(members[n - 1], total_nodes),
            assembled(members, total_nodes, (n - 1) as nat),
        )
    }
}

/// What the first `n` members contribute to cell `(i, j)` of the global
/// matrix, added up: each member's contribution plus that of those before it.
pub open spec fn contributions<T: Scalar>(
    members: Seq<MemberModel<T>>,
    total_nodes: nat,
    i: int,
    j: int,
    n: nat,
) -> T
    decreases n,
{
    if n == 0 {
        T::zero_spec()
    } else {
        expanded(members[n - 1], total_nodes)[i][j].add_spec(
            contributions(members, total_nodes, i, j, (n - 1) as nat),
        )
    }
}

/// The global stiffness matrix of a structure.
pub open spec fn global_stiffness<T: Scalar>(s: StructureModel<T>) -> Seq<Seq<T>> {
    assembled(s.members, s.nodes.len(), s.members.len())
}

/// Whether `id` is among `nodes`.
fn has_node(nodes: &Vec<usize>, id: usize) -> (b: bool)
    ensures
        b == nodes@.contains(id),
{
    let mut i: usize = 0;
    while i < nodes.len()
        invariant
            i <= nodes@.len(),
            forall|k: int| 0 <= k < i ==> nodes@[k] != id,
        decreases nodes@.len() - i,
    {
        if nodes[i] == id {
            return true;
        }
        i += 1;
    }
    false
}

/// Whether no identifier occurs twice among `nodes`.
fn all_distinct(nodes: &Vec<usize>) -> (b: bool)
    ensures
        b == nodes@.no_duplicates(),
{
    let mut i: usize = 0;
    while i < nodes.len()
        invariant
            i <= nodes@.len(),
            forall|a: int, b: int| 0 <= a < b < nodes@.len() && b < i ==> nodes@[a] != nodes@[b],
        decreases nodes@.len() - i,
    {
        let mut j: usize = 0;
        while j < i
            invariant
                j <= i < nodes@.len(),
                forall|a: int| 0 <= a < j ==> nodes@[a] != nodes@[i as int],
            decreases i - j,
        {
            if nodes[j] == nodes[i] {
                return false;
            }
            j += 1;
        }
        i += 1;
    }
    true
}

impl<T> TrussStructure<T> {
    #[verifier::type_invariant]
    spec fn well_formed(&self) -> bool {
        2 * self.nodes@.len() <= usize::MAX
    }
}

impl<T: Scalar> TrussStructure<T> {
    /// A structure of these members and nodes. Nothing is checked here:
    /// what is wrong with them, `global_stiffness_matrix` reports.
    pub fn new(members: Vec<TrussMember<T>>, nodes: Vec<usize>) -> (r: TrussStructure<T>)
        requires
            2 * nodes@.len() <= usize::MAX,
        ensures
            r@.members == members@.map_values(|m: TrussMember<T>| m@),
            r@.nodes == nodes@,
    {
        TrussStructure { members, nodes }
    }

    /// The global stiffness matrix: a square matrix with two rows for every
    /// node, in which cell `(i, j)` is the sum of what the members contribute
    /// at the degrees of freedom `i` and `j`.
    ///
    /// Fails with `DuplicateNode` when a node identifier occurs twice, with
    /// `InvalidShape` when there is no node, and else with the fault of the
    /// first member that has no place in the structure.
    pub fn global_stiffness_matrix(&self) -> (r: Result<Matrix<T>, TrussError>)
        ensures
            match structure_fault(self@) {
                Some(e) => r == Err::<Matrix<T>, TrussError>(e),
                None => r is Ok && r->Ok_0@ == global_stiffness(self@),
            },
            r is Ok ==> has_shape(r->Ok_0@, 2 * self@.nodes.len(), 2 * self@.nodes.len()),
            r is Ok ==> forall|i: int, j: int|
                0 <= i < 2 * self@.nodes.len() && 0 <= j < 2 * self@.nodes.len()
                    ==> #[trigger] r->Ok_0@[i][j] == contributions(
                    self@.members,
                    self@.nodes.len(),
                    i,
                    j,
                    self@.members.len(),
                ),
            r is Ok ==> symmetric(r->Ok_0@),
            r is Ok && self@.members.len() == 0 ==> r->Ok_0@ == zeros::<T>(
                2 * self@.nodes.len(),
                2 * self@.nodes.len(),
            ),
    {
        proof {
            use_type_invariant(self);
        }
        if !all_distinct(&self.nodes) {
            return Err(TrussError::DuplicateNode);
        }
        let total_nodes = self.nodes.len();
        let mut gsm = match Matrix::zeros(total_nodes * 2, total_nodes * 2) {
            Ok(m) => m,
            Err(e) => {
                return Err(e);
            },
        };
        let ghost model = self@;
        let mut n: usize = 0;
        while n < self.members.len()
            invariant
                n <= self.members@.len(),
                model == self@,
                total_nodes == self.nodes@.len(),
                total_nodes >= 1,
                2 * total_nodes <= usize::MAX,
                model.nodes.no_duplicates(),
                first_fault(model.members, model.nodes, n as nat) is None,
                gsm@ == assembled(model.members, total_nodes as nat, n as nat),
                has_shape(gsm@, 2 * total_nodes as nat, 2 * total_nodes as nat),
                symmetric(gsm@),
            decreases self.members@.len() - n,
        {
            let member = &self.members[n];
            assert(member@ == model.members[n as int]);
            let member_nodes = member.nodes();
            if member_nodes.len() == 2 && !(has_node(&self.nodes, member_nodes[0]) && has_node(
                &self.nodes,
                member_nodes[1],
            )) {
                proof {
                    lemma_first_fault_stays(
                        model.members,
                        model.nodes,
                        n as nat + 1,
                        model.members.len(),
                    );
                }
                return Err(TrussError::UnknownNode);
            }
            let member_matrix = match member.expand_to_global(total_nodes) {
                Ok(m) => m,
                Err(e) => {
                    proof {
                        lemma_first_fault_stays(
                            model.members,
                            model.nodes,
                            n as nat + 1,
                            model.members.len(),
                        );
                    }
                    return Err(e);
                },
            };
            gsm = match member_matrix.add(&gsm) {
                Ok(m) => m,
                Err(e) => {
                    return Err(e);
                },
            };
            n += 1;
        }
        proof {
            lemma_assembled_cells(model.members, total_nodes as nat, model.members.len());
        }
        Ok(gsm)
    }
}

/// The matrix assembled from the first `n` members has two rows and two
/// columns for every node, and each of its cells is the sum of what these
/// members contribute to it.
pub proof fn lemma_assembled_cells<T: Scalar>(
    members: Seq<MemberModel<T>>,
    total_nodes: nat,
    n: nat,
)
    ensures
        has_shape(assembled(members, total_nodes, n), 2 * total_nodes, 2 * total_nodes),
        forall|i: int, j: int|
            0 <= i < 2 * total_nodes && 0 <= j < 2 * total_nodes ==> #[trigger] assembled(
                members,
                total_nodes,
                n,
            )[i][j] == contributions(members, total_nodes, i, j, n),
    decreases n,
{
    if n > 0 {
        lemma_assembled_cells(members, total_nodes, (n - 1) as nat);
        let own = expanded(members[n - 1], total_nodes);
        if total_nodes > 0 {
            assert(own[0].len() == 2 * total_nodes);
        }
    }
}

/// Once one of the first `n` members has a fault, that fault is the first
/// among any larger number of members.
pub proof fn lemma_first_fault_stays<T>(
    members: Seq<MemberModel<T>>,
    nodes: Seq<usize>,
    n: nat,
    m: nat,
)
    requires
        n <= m,
        first_fault(members, nodes, n) is Some,
    ensures
        first_fault(members, nodes, m) == first_fault(members, nodes, n),
    decreases m - n,
{
    if n < m {
        lemma_first_fault_stays(members, nodes, n, (m - 1) as nat);
    }
}

/// No member among the first `n` has a fault exactly when the first fault
/// among them is none.
pub proof fn lemma_no_fault<T>(members: Seq<MemberModel<T>>, nodes: Seq<usize>, n: nat)
    ensures
        first_fault(members, nodes, n) is None <==> forall|k: int|
            0 <= k < n ==> fault_in(#[trigger] members[k].nodes, nodes) is None,
    decreases n,
{
    if n > 0 {
        lemma_no_fault(members, nodes, (n - 1) as nat);
        if first_fault(members, nodes, n) is None {
            assert forall|k: int| 0 <= k < n implies fault_in(
                #[trigger] members[k].nodes,
                nodes,
            ) is None by {
                if k < n - 1 {
                } else {
                    assert(k == n - 1);
                }
            }
        }
    }
}

/// What the first `n` members contribute to a cell depends on these members
/// only.
proof fn lemma_contributions_prefix<T: Scalar>(
    a: Seq<MemberModel<T>>,
    b: Seq<MemberModel<T>>,
    total_nodes: nat,
    i: int,
    j: int,
    n: nat,
)
    requires
        n <= a.len(),
        n <= b.len(),
        forall|k: int| 0 <= k < n ==> a[k] == b[k],
    ensures
        contributions(a, total_nodes, i, j, n) == contributions(b, total_nodes, i, j, n),
    decreases n,
{
    if n > 0 {
        lemma_contributions_prefix(a, b, total_nodes, i, j, (n - 1) as nat);
    }
}

/// What all members contribute to a cell is what member `k` contributes,
/// plus what the others do.
proof fn lemma_contributions_without<T: Scalar>(
    members: Seq<MemberModel<T>>,
    total_nodes: nat,
    i: int,
    j: int,
    k: int,
)
    requires
        0 <= k < members.len(),
    ensures
        contributions(members, total_nodes, i, j, members.len()) == expanded(
            members[k],
            total_nodes,
        )[i][j].add_spec(
            contributions(members.remove(k), total_nodes, i, j, (members.len() - 1) as nat),
        ),
    decreases members.len(),
{
    let n = members.len();
    let front = members.drop_last();
    let last = expanded(members[n - 1], total_nodes)[i][j];
    lemma_contributions_prefix(members, front, total_nodes, i, j, (n - 1) as nat);
    if k == n - 1 {
        assert(members.remove(k) =~= front);
    } else {
        let rest = members.remove(k);
        let own = expanded(members[k], total_nodes)[i][j];
        let others = contributions(front.remove(k), total_nodes, i, j, (n - 2) as nat);
        lemma_contributions_without(front, total_nodes, i, j, k);
        assert(rest.drop_last() =~= front.remove(k));
        assert(rest[n - 2] == members[n - 1]);
        lemma_contributions_prefix(rest, front.remove(k), total_nodes, i, j, (n - 2) as nat);
        // last + (own + others) == own + (last + others)
        T::lemma_add_associates(last, own, others);
        T::lemma_add_commutes(last, own);
        T::lemma_add_associates(own, last, others);
    }
}

/// What members contribute to a cell does not depend on their order.
proof fn lemma_contributions_any_order<T: Scalar>(
    a: Seq<MemberModel<T>>,
    b: Seq<MemberModel<T>>,
    total_nodes: nat,
    i: int,
    j: int,
)
    requires
        a.to_multiset() == b.to_multiset(),
    ensures
        a.len() == b.len(),
        contributions(a, total_nodes, i, j, a.len()) == contributions(
            b,
            total_nodes,
            i,
            j,
            b.len(),
        ),
    decreases a.len(),
{
    a.to_multiset_ensures();
    b.to_multiset_ensures();
    if a.len() > 0 {
        let n = a.len();
        let x = a[n - 1];
        assert(a.contains(x));
        assert(a.to_multiset().count(x) > 0);
        assert(b.to_multiset().count(x) > 0);
        assert(b.contains(x));
        let k = choose|k: int| 0 <= k < b.len() && b[k] == x;
        let front = a.drop_last();
        assert(front =~= a.remove(n - 1));
        lemma_contributions_any_order(front, b.remove(k), total_nodes, i, j);
        lemma_contributions_prefix(a, front, total_nodes, i, j, (n - 1) as nat);
        lemma_contributions_without(b, total_nodes, i, j, k);
    }
}

/// The global stiffness matrix does not depend on the order of the members:
/// two structures with the same nodes and the same members, in whatever
/// order, have the same matrix, and either both have a fault or neither.
pub proof fn lemma_assembly_in_any_order<T: Scalar>(a: StructureModel<T>, b: StructureModel<T>)
    requires
        a.nodes == b.nodes,
        a.members.to_multiset() == b.members.to_multiset(),
    ensures
        global_stiffness(a) == global_stiffness(b),
        structure_fault(a) is None <==> structure_fault(b) is None,
{
    let total_nodes = a.nodes.len();
    a.members.to_multiset_ensures();
    b.members.to_multiset_ensures();
    lemma_assembled_cells(a.members, total_nodes, a.members.len());
    lemma_assembled_cells(b.members, total_nodes, b.members.len());
    assert forall|i: int, j: int|
        0 <= i < 2 * total_nodes && 0 <= j < 2 * total_nodes implies #[trigger] global_stiffness(
        a,
    )[i][j] == global_stiffness(b)[i][j] by {
        lemma_contributions_any_order(a.members, b.members, total_nodes, i, j);
    }
    assert(global_stiffness(a) =~~= global_stiffness(b));
    lemma_no_fault(a.members, a.nodes, a.members.len());
    lemma_no_fault(b.members, b.nodes, b.members.len());
    assert forall|k: int| 0 <= k < a.members.len() implies b.members.contains(
        #[trigger] a.members[k],
    ) by {
        assert(a.members.contains(a.members[k]));
        assert(a.members.to_multiset().count(a.members[k]) > 0);
        assert(b.members.to_multiset().count(a.members[k]) > 0);
    }
    assert forall|k: int| 0 <= k < b.members.len() implies a.members.contains(
        #[trigger] b.members[k],
    ) by {
        assert(b.members.contains(b.members[k]));
        assert(b.members.to_multiset().count(b.members[k]) > 0);
        assert(a.members.to_multiset().count(b.members[k]) > 0);
    }
}

} // verus!
