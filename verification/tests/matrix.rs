use truss::error::TrussError;
use truss::matrix::Matrix;

fn matrix(rows: Vec<Vec<i64>>) -> Matrix<i64> {
    Matrix::from(rows).unwrap()
}

#[test]
fn zeros_has_the_shape_and_only_zeros() {
    let m = Matrix::<i64>::zeros(2, 3).unwrap();
    assert_eq!(m.rows(), 2);
    assert_eq!(m.cols(), 3);
    assert_eq!(m.data(), &vec![vec![0, 0, 0], vec![0, 0, 0]]);
}

#[test]
fn zeros_of_one_cell() {
    let m = Matrix::<i64>::zeros(1, 1).unwrap();
    assert_eq!(m.data(), &vec![vec![0]]);
}

#[test]
fn zeros_rejects_an_empty_shape() {
    assert_eq!(Matrix::<i64>::zeros(0, 3).err(), Some(TrussError::InvalidShape));
    assert_eq!(Matrix::<i64>::zeros(3, 0).err(), Some(TrussError::InvalidShape));
    assert_eq!(Matrix::<i64>::zeros(0, 0).err(), Some(TrussError::InvalidShape));
}

#[test]
fn value_fills_every_cell() {
    let m = Matrix::value(3, 2, 7i64).unwrap();
    assert_eq!(m.rows(), 3);
    assert_eq!(m.cols(), 2);
    assert_eq!(m.data(), &vec![vec![7, 7], vec![7, 7], vec![7, 7]]);
}

#[test]
fn value_rejects_an_empty_shape() {
    assert_eq!(Matrix::value(0, 2, 7i64).err(), Some(TrussError::InvalidShape));
    assert_eq!(Matrix::value(2, 0, 7i64).err(), Some(TrussError::InvalidShape));
}

#[test]
fn from_keeps_the_rows() {
    let m = matrix(vec![vec![1, 2, 3], vec![4, 5, 6]]);
    assert_eq!(m.rows(), 2);
    assert_eq!(m.cols(), 3);
    assert_eq!(m.get(0, 0), Some(&1));
    assert_eq!(m.get(1, 2), Some(&6));
    assert_eq!(m.get(2, 0), None);
    assert_eq!(m.get(0, 3), None);
}

#[test]
fn from_rejects_rows_of_unequal_length() {
    let ragged = Matrix::from(vec![vec![1i64, 2], vec![3]]);
    assert_eq!(ragged.err(), Some(TrussError::InvalidShape));
    let longer = Matrix::from(vec![vec![1i64], vec![2, 3]]);
    assert_eq!(longer.err(), Some(TrussError::InvalidShape));
}

#[test]
fn from_rejects_no_rows_and_empty_rows() {
    assert_eq!(Matrix::<i64>::from(vec![]).err(), Some(TrussError::InvalidShape));
    assert_eq!(Matrix::<i64>::from(vec![vec![], vec![]]).err(), Some(TrussError::InvalidShape));
}

#[test]
fn add_adds_cell_by_cell() {
    let a = matrix(vec![vec![1, 2], vec![3, 4]]);
    let b = matrix(vec![vec![10, 20], vec![30, 40]]);
    assert_eq!(a.add(&b).unwrap().data(), &vec![vec![11, 22], vec![33, 44]]);
    assert_eq!(a.data(), &vec![vec![1, 2], vec![3, 4]]);
}

#[test]
fn add_commutes() {
    let a = matrix(vec![vec![1, -2, 3], vec![4, 5, -6]]);
    let b = matrix(vec![vec![7, 8, 9], vec![-1, 0, 1]]);
    assert_eq!(a.add(&b).unwrap().data(), b.add(&a).unwrap().data());
}

#[test]
fn subtract_subtracts_cell_by_cell() {
    let a = matrix(vec![vec![1, 2], vec![3, 4]]);
    let b = matrix(vec![vec![10, 20], vec![30, 40]]);
    assert_eq!(b.subtract(&a).unwrap().data(), &vec![vec![9, 18], vec![27, 36]]);
    assert_eq!(a.subtract(&b).unwrap().data(), &vec![vec![-9, -18], vec![-27, -36]]);
}

#[test]
fn dot_product_multiplies_cell_by_cell() {
    let a = matrix(vec![vec![1, 2], vec![3, 4]]);
    let b = matrix(vec![vec![10, 20], vec![30, 40]]);
    assert_eq!(a.dot_product(&b).unwrap().data(), &vec![vec![10, 40], vec![90, 160]]);
}

#[test]
fn cellwise_operations_reject_other_shapes() {
    let a = matrix(vec![vec![1, 2], vec![3, 4]]);
    let wide = matrix(vec![vec![1, 2, 3], vec![4, 5, 6]]);
    let tall = matrix(vec![vec![1, 2], vec![3, 4], vec![5, 6]]);
    assert_eq!(a.add(&wide).err(), Some(TrussError::ShapeMismatch));
    assert_eq!(a.add(&tall).err(), Some(TrussError::ShapeMismatch));
    assert_eq!(a.subtract(&wide).err(), Some(TrussError::ShapeMismatch));
    assert_eq!(a.subtract(&tall).err(), Some(TrussError::ShapeMismatch));
    assert_eq!(a.dot_product(&wide).err(), Some(TrussError::ShapeMismatch));
    assert_eq!(a.dot_product(&tall).err(), Some(TrussError::ShapeMismatch));
}

#[test]
fn multiply_is_the_matrix_product() {
    let a = matrix(vec![vec![1, 2, 3], vec![4, 5, 6]]);
    let b = matrix(vec![vec![7, 8], vec![9, 10], vec![11, 12]]);
    let p = a.multiply(&b).unwrap();
    assert_eq!(p.rows(), 2);
    assert_eq!(p.cols(), 2);
    assert_eq!(p.data(), &vec![vec![58, 64], vec![139, 154]]);
}

#[test]
fn multiply_rejects_operands_that_do_not_fit() {
    let a = matrix(vec![vec![1, 2, 3], vec![4, 5, 6]]);
    assert_eq!(a.multiply(&a).err(), Some(TrussError::ShapeMismatch));
}

#[test]
fn multiply_by_the_identity_changes_nothing() {
    let a = matrix(vec![vec![1, 2, 3], vec![4, 5, 6]]);
    let identity = matrix(vec![vec![1, 0, 0], vec![0, 1, 0], vec![0, 0, 1]]);
    assert_eq!(a.multiply(&identity).unwrap().data(), a.data());
}

#[test]
fn transpose_swaps_rows_and_columns() {
    let a = matrix(vec![vec![1, 2, 3], vec![4, 5, 6]]);
    let t = a.transpose();
    assert_eq!(t.rows(), 3);
    assert_eq!(t.cols(), 2);
    assert_eq!(t.data(), &vec![vec![1, 4], vec![2, 5], vec![3, 6]]);
}

#[test]
fn transpose_twice_gives_the_matrix_back() {
    let a = matrix(vec![vec![1, 2, 3], vec![4, 5, 6]]);
    assert_eq!(a.transpose().transpose().data(), a.data());
    let row = matrix(vec![vec![9, 8, 7, 6]]);
    assert_eq!(row.transpose().transpose().data(), row.data());
}

#[test]
fn map_applies_the_function_to_every_cell() {
    let a = matrix(vec![vec![1, 2, 3], vec![4, 5, 6]]);
    let doubled = a.map(|v| v * 2);
    assert_eq!(doubled.data(), &vec![vec![2, 4, 6], vec![8, 10, 12]]);
    let parity = a.map(|v| v % 2 == 0);
    assert_eq!(parity.data(), &vec![vec![false, true, false], vec![true, false, true]]);
}

#[test]
fn integers_wrap_around() {
    let a = matrix(vec![vec![i64::MAX]]);
    let b = matrix(vec![vec![1]]);
    assert_eq!(a.add(&b).unwrap().data(), &vec![vec![i64::MIN]]);
}

#[test]
fn to_string_aligns_the_cells() {
    let a = matrix(vec![vec![1, -25], vec![325, 4]]);
    let text = a.map(|v| format!("{}", v)).to_string();
    assert_eq!(text, "|   1  | -25  |\n| 325  |   4  |");
}

#[test]
fn to_string_of_one_cell() {
    let a = matrix(vec![vec![42]]);
    assert_eq!(a.map(|v| format!("{}", v)).to_string(), "| 42  |");
}

#[test]
fn to_string_with_three_decimals() {
    let a = Matrix::from(vec![vec![1.0f64, -2.5], vec![3.25, 4.0]]).unwrap();
    let text = a.map(|v| format!("{:.3}", v)).to_string();
    assert_eq!(text, "|  1.000  | -2.500  |\n|  3.250  |  4.000  |");
}

fn table_by_formatting(matrix: &Vec<Vec<f64>>, units: &str) -> String {
    let max_width = matrix.iter().flatten().fold(0, |max, val| {
        let width = format!("{:.1}", val).len();
        max.max(width)
    });
    let dash_line = format!(" {}", "-".repeat((max_width + units.len() + 6) * matrix[0].len() - 1));
    let mut text = format!("\nTruss Matrix:\n{}\n", dash_line);
    for row in matrix.iter() {
        let line = format!(
            "| {} |",
            row.iter()
                .map(|val| format!("{:>width$.1} ({})", val, units, width = max_width))
                .collect::<Vec<_>>()
                .join(" | ")
        );
        text.push_str(&format!("{}\n{}\n", line, dash_line));
    }
    text.push_str("\n");
    text
}

#[test]
fn to_string_with_dashes_draws_the_table() {
    let rows = vec![vec![10.8f64, -14.4], vec![-14.4, 19.2]];
    let m = Matrix::from(rows.clone()).unwrap();
    let text = m.map(|v| format!("{:.1}", v)).to_string_with_dashes("kN/mm");
    let dashes = " -------------------------------";
    let expected = format!(
        "\nTruss Matrix:\n{d}\n{first}\n{d}\n{second}\n{d}\n\n",
        d = dashes,
        first = "|  10.8 (kN/mm) | -14.4 (kN/mm) |",
        second = "| -14.4 (kN/mm) |  19.2 (kN/mm) |"
    );
    assert_eq!(text, expected);
    assert_eq!(text, table_by_formatting(&rows, "kN/mm"));
}

#[test]
fn to_string_with_dashes_of_one_column_and_no_units() {
    let rows = vec![vec![1.0f64], vec![-22.25], vec![333.0]];
    let m = Matrix::from(rows.clone()).unwrap();
    let text = m.map(|v| format!("{:.1}", v)).to_string_with_dashes("");
    assert_eq!(text, table_by_formatting(&rows, ""));
}

#[test]
fn to_string_is_the_grid_of_three_decimals() {
    let rows = vec![vec![10.8f64, -14.4, 0.0], vec![-14.4, 19.2, 123456.789]];
    let m = Matrix::from(rows.clone()).unwrap();
    let max_width = rows.iter().flatten().fold(0, |max, val| {
        let width = format!("{:.3}", val).len();
        max.max(width)
    });
    let lines: Vec<String> = rows
        .iter()
        .map(|row| {
            format!(
                "| {} |",
                row.iter()
                    .map(|val| format!("{:>width$.3} ", val, width = max_width))
                    .collect::<Vec<_>>()
                    .join(" | ")
            )
        })
        .collect();
    assert_eq!(m.map(|v| format!("{:.3}", v)).to_string(), lines.join("\n"));
}

#[test]
fn random_centers_the_draws_row_after_row() {
    let draws = vec![0i64, 1, 2, 3, 4, 5];
    let m = Matrix::random(2, 3, &draws).unwrap();
    assert_eq!(m.data(), &vec![vec![-1, 1, 3], vec![5, 7, 9]]);
    let n = Matrix::random(3, 2, &draws).unwrap();
    assert_eq!(n.data(), &vec![vec![-1, 1], vec![3, 5], vec![7, 9]]);
}

#[test]
fn random_rejects_draws_that_do_not_fill_the_shape() {
    let draws = vec![0i64, 1, 2, 3, 4, 5];
    assert_eq!(Matrix::random(2, 2, &draws).err(), Some(TrussError::InvalidShape));
    assert_eq!(Matrix::random(7, 1, &draws).err(), Some(TrussError::InvalidShape));
    assert_eq!(Matrix::random(0, 3, &draws).err(), Some(TrussError::InvalidShape));
    assert_eq!(Matrix::random(3, 0, &draws).err(), Some(TrussError::InvalidShape));
    assert_eq!(Matrix::random(0, 0, &Vec::<i64>::new()).err(), Some(TrussError::InvalidShape));
    assert_eq!(Matrix::random(usize::MAX, 2, &draws).err(), Some(TrussError::InvalidShape));
}
