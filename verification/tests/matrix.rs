use tv_sweep::matrix::{GradientField, Matrix};

fn grid(rows: &[&[i64]]) -> Matrix {
    Matrix::from_rows(rows.iter().map(|r| r.to_vec()).collect()).unwrap()
}

/// The sum over all places of the product of the two samples there.
fn inner(a: &Matrix, b: &Matrix) -> i128 {
    let mut total: i128 = 0;
    for i in 0..a.height() {
        for j in 0..a.width() {
            total += a.get(i, j).unwrap() as i128 * b.get(i, j).unwrap() as i128;
        }
    }
    total
}

/// A grid of samples drawn from a fixed linear congruential sequence.
fn scrambled(height: usize, width: usize, seed: u64) -> Matrix {
    let mut state = seed;
    let mut rows = Vec::new();
    for _ in 0..height {
        let mut row = Vec::new();
        for _ in 0..width {
            state = state.wrapping_mul(6364136223846793005).wrapping_add(1442695040888963407);
            row.push(((state >> 33) % 511) as i64 - 255);
        }
        rows.push(row);
    }
    Matrix::from_rows(rows).unwrap()
}

#[test]
fn from_rows_keeps_shape_and_samples() {
    let m = grid(&[&[1, 2, 3], &[4, 5, 6]]);
    assert_eq!(m.height(), 2);
    assert_eq!(m.width(), 3);
    assert_eq!(m.get(0, 0), Some(1));
    assert_eq!(m.get(1, 2), Some(6));
    assert_eq!(m.to_rows(), vec![vec![1, 2, 3], vec![4, 5, 6]]);
}

#[test]
fn from_rows_refuses_ragged_rows() {
    assert!(Matrix::from_rows(vec![vec![1, 2], vec![3]]).is_none());
    assert!(Matrix::from_rows(vec![vec![], vec![3]]).is_none());
    assert!(Matrix::from_rows(vec![vec![1], vec![2, 3], vec![4]]).is_none());
}

#[test]
fn from_rows_of_nothing_is_the_empty_grid() {
    let m = Matrix::from_rows(Vec::new()).unwrap();
    assert_eq!((m.height(), m.width()), (0, 0));
    let n = Matrix::from_rows(vec![vec![], vec![]]).unwrap();
    assert_eq!((n.height(), n.width()), (2, 0));
}

#[test]
fn get_outside_the_grid_is_none() {
    let m = grid(&[&[1, 2], &[3, 4]]);
    assert_eq!(m.get(2, 0), None);
    assert_eq!(m.get(0, 2), None);
    assert_eq!(m.get(usize::MAX, usize::MAX), None);
}

#[test]
fn new_is_zero_everywhere() {
    let m = Matrix::new(2, 3);
    assert_eq!(m.to_rows(), vec![vec![0, 0, 0], vec![0, 0, 0]]);
}

#[test]
fn uniform_holds_one_value() {
    let m = Matrix::uniform(3, 2, -7);
    assert_eq!((m.height(), m.width()), (3, 2));
    assert_eq!(m.to_rows(), vec![vec![-7, -7], vec![-7, -7], vec![-7, -7]]);
    assert_eq!(Matrix::uniform(0, 5, 1).to_rows(), Vec::<Vec<i64>>::new());
}

#[test]
fn gradient_takes_forward_differences() {
    let m = grid(&[&[1, 4, 9], &[2, 3, 5], &[10, 20, 40]]);
    let g = m.gradient().unwrap();
    assert_eq!(g.dx().to_rows(), vec![vec![3, 5, 0], vec![1, 2, 0], vec![10, 20, 0]]);
    assert_eq!(g.dy().to_rows(), vec![vec![1, -1, -4], vec![8, 17, 35], vec![0, 0, 0]]);
}

#[test]
fn gradient_of_a_single_sample_is_zero() {
    let g = grid(&[&[42]]).gradient().unwrap();
    assert_eq!(g.dx().to_rows(), vec![vec![0]]);
    assert_eq!(g.dy().to_rows(), vec![vec![0]]);
}

#[test]
fn gradient_of_a_single_row_has_no_column_part() {
    let g = grid(&[&[5, 7, 4]]).gradient().unwrap();
    assert_eq!(g.dx().to_rows(), vec![vec![2, -3, 0]]);
    assert_eq!(g.dy().to_rows(), vec![vec![0, 0, 0]]);
}

#[test]
fn gradient_of_a_uniform_grid_is_zero() {
    let g = Matrix::uniform(3, 4, 10).gradient().unwrap();
    assert_eq!(g.dx().to_rows(), Matrix::new(3, 4).to_rows());
    assert_eq!(g.dy().to_rows(), Matrix::new(3, 4).to_rows());
}

#[test]
fn gradient_that_does_not_fit_is_none() {
    assert!(grid(&[&[i64::MIN, i64::MAX]]).gradient().is_none());
    assert!(grid(&[&[i64::MAX], &[-2]]).gradient().is_none());
    assert!(grid(&[&[i64::MAX], &[-1]]).gradient().is_some());
    assert!(grid(&[&[i64::MAX, i64::MIN]]).gradient().is_none());
    assert!(grid(&[&[-1, i64::MAX]]).gradient().is_none());
    assert!(grid(&[&[0, i64::MAX]]).gradient().is_some());
    assert!(grid(&[&[0, i64::MIN]]).gradient().is_some());
    assert!(grid(&[&[1, i64::MIN]]).gradient().is_none());
}

#[test]
fn divergence_takes_backward_differences() {
    let dx = grid(&[&[1, 2, 3], &[4, 5, 6], &[7, 8, 9]]);
    let dy = grid(&[&[10, 20, 30], &[40, 50, 60], &[70, 80, 90]]);
    let field = GradientField::new(dx, dy).unwrap();
    // Along rows: first column keeps the sample, the last takes minus its
    // left neighbour; along columns likewise with rows.
    assert_eq!(
        field.divergence().unwrap().to_rows(),
        vec![
            vec![1 + 10, 1 + 20, -2 + 30],
            vec![4 + 30, 1 + 30, -5 + 30],
            vec![7 - 40, 1 - 50, -8 - 60],
        ]
    );
}

#[test]
fn divergence_of_a_single_sample_is_zero() {
    let field = GradientField::new(grid(&[&[3]]), grid(&[&[-8]])).unwrap();
    assert_eq!(field.divergence().unwrap().to_rows(), vec![vec![0]]);
}

#[test]
fn divergence_of_the_zero_field_is_zero() {
    let field = GradientField::zeros(2, 5);
    assert_eq!(field.divergence().unwrap().to_rows(), Matrix::new(2, 5).to_rows());
}

#[test]
fn divergence_that_does_not_fit_is_none() {
    let dx = grid(&[&[i64::MAX, 0], &[0, 0]]);
    let dy = grid(&[&[1, 0], &[0, 0]]);
    assert!(GradientField::new(dx, dy).unwrap().divergence().is_none());
    // In the last column the left neighbour is subtracted from 0.
    let dx = grid(&[&[i64::MIN, 0], &[0, 0]]);
    let dy = grid(&[&[0, 0], &[0, 0]]);
    assert!(GradientField::new(dx, dy).unwrap().divergence().is_none());
    let dx = grid(&[&[i64::MAX, 0], &[0, 0]]);
    let dy = grid(&[&[0, 0], &[0, 0]]);
    assert_eq!(
        GradientField::new(dx, dy).unwrap().divergence().unwrap().to_rows(),
        vec![vec![i64::MAX, -i64::MAX], vec![0, 0]]
    );
    let dx = grid(&[&[i64::MAX - 1, 0, 0], &[0, 0, 0]]);
    let dy = grid(&[&[1, 0, 0], &[0, 0, 0]]);
    assert!(GradientField::new(dx, dy).unwrap().divergence().is_some());
}

#[test]
fn field_components_must_share_a_shape() {
    assert!(GradientField::new(Matrix::new(2, 3), Matrix::new(3, 2)).is_none());
    assert!(GradientField::new(Matrix::new(2, 3), Matrix::new(2, 4)).is_none());
    assert!(GradientField::new(Matrix::new(2, 3), Matrix::new(2, 3)).is_some());
}

#[test]
fn divergence_is_the_negative_adjoint_of_the_gradient() {
    for (height, width, seed) in [(1, 1, 1), (1, 6, 2), (5, 1, 3), (2, 2, 4), (4, 7, 5), (9, 3, 6)] {
        let u = scrambled(height, width, seed);
        let dx = scrambled(height, width, seed + 100);
        let dy = scrambled(height, width, seed + 200);
        let gradient = u.gradient().unwrap();
        let lhs = inner(gradient.dx(), &dx) + inner(gradient.dy(), &dy);
        let divergence = GradientField::new(dx, dy).unwrap().divergence().unwrap();
        assert_eq!(lhs, -inner(&u, &divergence), "{} x {}", height, width);
    }
}

#[test]
fn adjoint_identity_on_a_worked_example() {
    let u = grid(&[&[1, 2], &[3, 5]]);
    let dx = grid(&[&[1, 1], &[2, 2]]);
    let dy = grid(&[&[3, 4], &[5, 6]]);
    let gradient = u.gradient().unwrap();
    // dx of u is [[1, 0], [2, 0]], dy of u is [[2, 3], [0, 0]].
    assert_eq!(inner(gradient.dx(), &dx) + inner(gradient.dy(), &dy), 1 + 4 + 6 + 12);
    let divergence = GradientField::new(dx, dy).unwrap().divergence().unwrap();
    assert_eq!(divergence.to_rows(), vec![vec![4, 3], vec![-1, -6]]);
    assert_eq!(inner(&u, &divergence), -23);
}

#[test]
fn plus_and_minus_work_cell_by_cell() {
    let a = grid(&[&[1, 2], &[3, 4]]);
    let b = grid(&[&[10, 20], &[30, 40]]);
    assert_eq!(a.plus(&b).unwrap().to_rows(), vec![vec![11, 22], vec![33, 44]]);
    assert_eq!(a.minus(&b).unwrap().to_rows(), vec![vec![-9, -18], vec![-27, -36]]);
    assert_eq!(b.minus(&a).unwrap().to_rows(), vec![vec![9, 18], vec![27, 36]]);
}

#[test]
fn plus_and_minus_refuse_other_shapes() {
    let a = Matrix::new(2, 3);
    assert!(a.plus(&Matrix::new(3, 2)).is_none());
    assert!(a.minus(&Matrix::new(2, 2)).is_none());
    assert!(a.plus(&Matrix::new(2, 3)).is_some());
}

#[test]
fn plus_and_minus_that_do_not_fit_are_none() {
    let top = grid(&[&[i64::MAX]]);
    let one = grid(&[&[1]]);
    let bottom = grid(&[&[i64::MIN]]);
    assert!(top.plus(&one).is_none());
    assert!(bottom.minus(&one).is_none());
    assert_eq!(top.minus(&one).unwrap().to_rows(), vec![vec![i64::MAX - 1]]);
    assert_eq!(bottom.plus(&one).unwrap().to_rows(), vec![vec![i64::MIN + 1]]);
}

#[test]
fn minus_itself_is_zero() {
    let a = scrambled(3, 3, 9);
    assert_eq!(a.minus(&a).unwrap().to_rows(), Matrix::new(3, 3).to_rows());
}

#[test]
fn scale_multiplies_every_sample() {
    let a = grid(&[&[1, -2], &[3, 0]]);
    assert_eq!(a.scale(-3).unwrap().to_rows(), vec![vec![-3, 6], vec![-9, 0]]);
    assert_eq!(a.scale(0).unwrap().to_rows(), vec![vec![0, 0], vec![0, 0]]);
    assert_eq!(a.scale(1).unwrap().to_rows(), a.to_rows());
}

#[test]
fn scale_that_does_not_fit_is_none() {
    assert!(grid(&[&[i64::MAX]]).scale(2).is_none());
    assert!(grid(&[&[i64::MIN]]).scale(-1).is_none());
    assert!(grid(&[&[1, i64::MAX / 2 + 1]]).scale(2).is_none());
    assert_eq!(grid(&[&[i64::MIN]]).scale(1).unwrap().to_rows(), vec![vec![i64::MIN]]);
    assert_eq!(grid(&[&[i64::MAX / 2]]).scale(2).unwrap().to_rows(), vec![vec![i64::MAX - 1]]);
}

#[test]
fn norm_squared_sums_the_squares() {
    assert_eq!(grid(&[&[1, -2], &[3, 4]]).norm_squared(), Some(30));
    assert_eq!(Matrix::new(4, 4).norm_squared(), Some(0));
    assert_eq!(Matrix::uniform(2, 2, 10).norm_squared(), Some(400));
    assert_eq!(Matrix::new(0, 0).norm_squared(), Some(0));
}

#[test]
fn norm_squared_of_extreme_samples() {
    let square = (i64::MIN as i128 * i64::MIN as i128) as u128;
    assert_eq!(grid(&[&[i64::MIN]]).norm_squared(), Some(square));
    assert_eq!(grid(&[&[i64::MIN, i64::MIN, i64::MIN]]).norm_squared(), Some(3 * square));
    // Four such squares are 2^128, one more than fits.
    assert_eq!(grid(&[&[i64::MIN, i64::MIN], &[i64::MIN, i64::MIN]]).norm_squared(), None);
    assert_eq!(
        grid(&[&[i64::MIN, i64::MIN], &[i64::MIN, i64::MAX]]).norm_squared(),
        Some(3 * square + (i64::MAX as u128) * (i64::MAX as u128))
    );
}
