use truss::dof::dof_indices;
use truss::error::TrussError;
use truss::matrix::Matrix;
use truss::member::TrussMember;
use truss::stiffness::truss_matrix;
use truss::structure::TrussStructure;

fn three_four_five() -> Vec<Vec<i64>> {
    vec![
        vec![9, 12, -9, -12],
        vec![12, 16, -12, -16],
        vec![-9, -12, 9, 12],
        vec![-12, -16, 12, 16],
    ]
}

#[test]
fn dof_indices_of_nodes_one_and_three() {
    assert_eq!(dof_indices(1, 3, 3), Ok([0, 1, 4, 5]));
}

#[test]
fn dof_indices_do_not_depend_on_the_order_of_the_nodes() {
    assert_eq!(dof_indices(3, 1, 3), Ok([0, 1, 4, 5]));
    assert_eq!(dof_indices(2, 3, 3), Ok([2, 3, 4, 5]));
    assert_eq!(dof_indices(3, 2, 3), Ok([2, 3, 4, 5]));
    assert_eq!(dof_indices(1, 2, 2), Ok([0, 1, 2, 3]));
}

#[test]
fn dof_indices_reject_nodes_out_of_range() {
    assert_eq!(dof_indices(0, 1, 3), Err(TrussError::UnknownNode));
    assert_eq!(dof_indices(1, 0, 3), Err(TrussError::UnknownNode));
    assert_eq!(dof_indices(1, 4, 3), Err(TrussError::UnknownNode));
    assert_eq!(dof_indices(99, 1, 3), Err(TrussError::UnknownNode));
    assert_eq!(dof_indices(4, 4, 3), Err(TrussError::UnknownNode));
    assert_eq!(dof_indices(1, 2, 0), Err(TrussError::UnknownNode));
}

#[test]
fn dof_indices_reject_one_node_given_twice() {
    assert_eq!(dof_indices(2, 2, 3), Err(TrussError::DuplicateNode));
}

#[test]
fn truss_matrix_of_a_three_four_five_direction() {
    assert_eq!(truss_matrix(1i64, 3, 4), three_four_five());
}

#[test]
fn truss_matrix_scales_by_the_spring_constant() {
    assert_eq!(
        truss_matrix(2i64, 1, 0),
        vec![vec![2, 0, -2, 0], vec![0, 0, 0, 0], vec![-2, 0, 2, 0], vec![0, 0, 0, 0]]
    );
}

#[test]
fn stiffness_single_is_symmetric_with_rows_and_columns_that_add_up_to_zero() {
    let k = Matrix::stiffness_single(7i64, 5, -12);
    assert_eq!(k.rows(), 4);
    assert_eq!(k.cols(), 4);
    let cells = k.data();
    for i in 0..4 {
        for j in 0..4 {
            assert_eq!(cells[i][j], cells[j][i]);
        }
        let row: i64 = (0..4).map(|j| cells[i][j]).sum();
        let column: i64 = (0..4).map(|j| cells[j][i]).sum();
        assert_eq!(row, 0);
        assert_eq!(column, 0);
    }
    assert_eq!(cells[0], vec![175, -420, -175, 420]);
}

#[test]
fn stiffness_dbl_with_one_direction_is_stiffness_single() {
    let single = Matrix::stiffness_single(2i64, 3, 4);
    let double = Matrix::stiffness_dbl(2i64, 3, 4, 3, 4);
    assert_eq!(single.data(), double.data());
}

#[test]
fn stiffness_dbl_couples_the_two_directions() {
    let k = Matrix::stiffness_dbl(1i64, 1, 2, 3, 5);
    assert_eq!(
        k.data(),
        &vec![
            vec![1, 2, -3, -5],
            vec![2, 4, -6, -10],
            vec![-3, -6, 9, 15],
            vec![-5, -10, 15, 25],
        ]
    );
}

#[test]
fn create_single_keeps_matrix_and_nodes() {
    let member = TrussMember::create_single(1i64, 3, 4, vec![1, 3]);
    assert_eq!(member.matrix().data(), &three_four_five());
    assert_eq!(member.nodes(), &vec![1, 3]);
}

#[test]
fn create_double_keeps_matrix_and_nodes() {
    let member = TrussMember::create_double(1i64, 1, 2, 3, 5, vec![2, 1]);
    assert_eq!(member.matrix().data(), Matrix::stiffness_dbl(1i64, 1, 2, 3, 5).data());
    assert_eq!(member.nodes(), &vec![2, 1]);
}

#[test]
fn expand_to_global_places_the_sixteen_cells() {
    let member = TrussMember::create_single(1i64, 3, 4, vec![1, 3]);
    let global = member.expand_to_global(3).unwrap();
    assert_eq!(
        global.data(),
        &vec![
            vec![9, 12, 0, 0, -9, -12],
            vec![12, 16, 0, 0, -12, -16],
            vec![0, 0, 0, 0, 0, 0],
            vec![0, 0, 0, 0, 0, 0],
            vec![-9, -12, 0, 0, 9, 12],
            vec![-12, -16, 0, 0, 12, 16],
        ]
    );
}

#[test]
fn expand_to_global_conserves_the_local_cells() {
    let member = TrussMember::create_double(1i64, 1, 2, 3, 5, vec![2, 4]);
    let global = member.expand_to_global(5).unwrap();
    let dofs = dof_indices(2, 4, 5).unwrap();
    let local = member.matrix().data();
    let mut populated = 0;
    for i in 0..10 {
        for j in 0..10 {
            let p = dofs.iter().position(|d| *d == i);
            let q = dofs.iter().position(|d| *d == j);
            match (p, q) {
                (Some(p), Some(q)) => {
                    populated += 1;
                    assert_eq!(global.get(i, j), Some(&local[p][q]));
                }
                _ => assert_eq!(global.get(i, j), Some(&0)),
            }
        }
    }
    assert_eq!(populated, 16);
}

#[test]
fn expand_to_global_does_not_depend_on_the_order_of_the_nodes() {
    let forward = TrussMember::create_single(1i64, 3, 4, vec![1, 3]);
    let backward = TrussMember::create_single(1i64, 3, 4, vec![3, 1]);
    assert_eq!(
        forward.expand_to_global(3).unwrap().data(),
        backward.expand_to_global(3).unwrap().data()
    );
}

#[test]
fn expand_to_global_rejects_what_is_no_pair_of_nodes() {
    let one = TrussMember::create_single(1i64, 3, 4, vec![1]);
    assert_eq!(one.expand_to_global(3).err(), Some(TrussError::InvalidShape));
    let three = TrussMember::create_single(1i64, 3, 4, vec![1, 2, 3]);
    assert_eq!(three.expand_to_global(3).err(), Some(TrussError::InvalidShape));
    let unknown = TrussMember::create_single(1i64, 3, 4, vec![1, 4]);
    assert_eq!(unknown.expand_to_global(3).err(), Some(TrussError::UnknownNode));
    let zero = TrussMember::create_single(1i64, 3, 4, vec![0, 1]);
    assert_eq!(zero.expand_to_global(3).err(), Some(TrussError::UnknownNode));
    let twice = TrussMember::create_single(1i64, 3, 4, vec![2, 2]);
    assert_eq!(twice.expand_to_global(3).err(), Some(TrussError::DuplicateNode));
    let twice_unknown = TrussMember::create_single(1i64, 3, 4, vec![7, 7]);
    assert_eq!(twice_unknown.expand_to_global(3).err(), Some(TrussError::UnknownNode));
}

#[test]
fn global_stiffness_matrix_adds_up_the_members() {
    let members = vec![
        TrussMember::create_single(1i64, 3, 4, vec![1, 3]),
        TrussMember::create_single(2i64, 1, 0, vec![1, 2]),
    ];
    let structure = TrussStructure::new(members, vec![1, 2, 3]);
    let global = structure.global_stiffness_matrix().unwrap();
    assert_eq!(
        global.data(),
        &vec![
            vec![11, 12, -2, 0, -9, -12],
            vec![12, 16, 0, 0, -12, -16],
            vec![-2, 0, 2, 0, 0, 0],
            vec![0, 0, 0, 0, 0, 0],
            vec![-9, -12, 0, 0, 9, 12],
            vec![-12, -16, 0, 0, 12, 16],
        ]
    );
}

#[test]
fn global_stiffness_matrix_adds_members_between_the_same_nodes() {
    let members = vec![
        TrussMember::create_single(1i64, 3, 4, vec![1, 2]),
        TrussMember::create_single(1i64, 3, 4, vec![2, 1]),
    ];
    let structure = TrussStructure::new(members, vec![2, 1]);
    let global = structure.global_stiffness_matrix().unwrap();
    assert_eq!(
        global.data(),
        &vec![
            vec![18, 24, -18, -24],
            vec![24, 32, -24, -32],
            vec![-18, -24, 18, 24],
            vec![-24, -32, 24, 32],
        ]
    );
}

#[test]
fn global_stiffness_matrix_is_symmetric() {
    let members = vec![
        TrussMember::create_double(3i64, 1, 2, 3, 5, vec![2, 3]),
        TrussMember::create_double(5i64, 2, -7, 1, 4, vec![1, 2]),
        TrussMember::create_single(7i64, -3, 4, vec![1, 3]),
    ];
    let structure = TrussStructure::new(members, vec![1, 2, 3]);
    let global = structure.global_stiffness_matrix().unwrap();
    assert_eq!(global.rows(), 6);
    assert_eq!(global.cols(), 6);
    assert_eq!(global.transpose().data(), global.data());
}

#[test]
fn global_stiffness_matrix_without_members_is_zero() {
    let structure = TrussStructure::<i64>::new(vec![], vec![1, 2, 3]);
    let global = structure.global_stiffness_matrix().unwrap();
    assert_eq!(global.data(), Matrix::<i64>::zeros(6, 6).unwrap().data());
}

#[test]
fn global_stiffness_matrix_rejects_an_unknown_node() {
    let members = vec![TrussMember::create_single(1i64, 3, 4, vec![1, 99])];
    let structure = TrussStructure::new(members, vec![1, 2, 3]);
    assert_eq!(structure.global_stiffness_matrix().err(), Some(TrussError::UnknownNode));
}

#[test]
fn global_stiffness_matrix_rejects_a_node_that_is_not_listed() {
    let members = vec![TrussMember::create_single(1i64, 3, 4, vec![1, 3])];
    let structure = TrussStructure::new(members, vec![1, 2, 5]);
    assert_eq!(structure.global_stiffness_matrix().err(), Some(TrussError::UnknownNode));
}

#[test]
fn global_stiffness_matrix_rejects_a_listed_node_beyond_the_number_of_nodes() {
    let members = vec![TrussMember::create_single(1i64, 3, 4, vec![1, 5])];
    let structure = TrussStructure::new(members, vec![1, 2, 5]);
    assert_eq!(structure.global_stiffness_matrix().err(), Some(TrussError::UnknownNode));
}

#[test]
fn global_stiffness_matrix_rejects_a_repeated_node() {
    let members = vec![TrussMember::create_single(1i64, 3, 4, vec![1, 2])];
    let structure = TrussStructure::new(members, vec![1, 2, 2]);
    assert_eq!(structure.global_stiffness_matrix().err(), Some(TrussError::DuplicateNode));
}

#[test]
fn global_stiffness_matrix_rejects_a_member_between_a_node_and_itself() {
    let members = vec![TrussMember::create_single(1i64, 3, 4, vec![2, 2])];
    let structure = TrussStructure::new(members, vec![1, 2, 3]);
    assert_eq!(structure.global_stiffness_matrix().err(), Some(TrussError::DuplicateNode));
}

#[test]
fn global_stiffness_matrix_rejects_a_member_without_two_nodes() {
    let members = vec![TrussMember::create_single(1i64, 3, 4, vec![1, 2, 3])];
    let structure = TrussStructure::new(members, vec![1, 2, 3]);
    assert_eq!(structure.global_stiffness_matrix().err(), Some(TrussError::InvalidShape));
}

#[test]
fn global_stiffness_matrix_rejects_a_structure_without_nodes() {
    let structure = TrussStructure::<i64>::new(vec![], vec![]);
    assert_eq!(structure.global_stiffness_matrix().err(), Some(TrussError::InvalidShape));
}

#[test]
fn global_stiffness_matrix_reports_the_first_faulty_member() {
    let members = vec![
        TrussMember::create_single(1i64, 3, 4, vec![1, 2]),
        TrussMember::create_single(1i64, 3, 4, vec![3, 3]),
        TrussMember::create_single(1i64, 3, 4, vec![1, 99]),
    ];
    let structure = TrussStructure::new(members, vec![1, 2, 3]);
    assert_eq!(structure.global_stiffness_matrix().err(), Some(TrussError::DuplicateNode));
}

#[test]
fn global_stiffness_matrix_does_not_depend_on_the_order_of_the_members() {
    let build = |order: [usize; 3]| {
        let mut members = Vec::new();
        for which in order {
            members.push(match which {
                0 => TrussMember::create_double(3i64, 1, 2, 3, 5, vec![2, 3]),
                1 => TrussMember::create_double(5i64, 2, -7, 1, 4, vec![1, 2]),
                _ => TrussMember::create_single(7i64, -3, 4, vec![1, 3]),
            });
        }
        TrussStructure::new(members, vec![1, 2, 3]).global_stiffness_matrix().unwrap()
    };
    let first = build([0, 1, 2]);
    assert_eq!(build([2, 1, 0]).data(), first.data());
    assert_eq!(build([1, 2, 0]).data(), first.data());
    assert_eq!(build([1, 0, 2]).data(), first.data());
}
