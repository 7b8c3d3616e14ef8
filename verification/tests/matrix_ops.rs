use optimath::{ConstIndex, Matrix, Modeled, Vector};
use rand::{thread_rng, Rng};

fn random_matrix<const M: usize, const N: usize>(lo: i32, hi: i32) -> Matrix<i32, M, N> {
    let mut rng = thread_rng();
    let mut cols: Vec<Vector<i32, M>> = Vec::new();
    for _ in 0..N {
        let mut col: Vec<i32> = Vec::new();
        for _ in 0..M {
            col.push(rng.gen_range(lo..hi));
        }
        cols.push(Vector::try_from_vec(col).unwrap());
    }
    Vector::try_from_vec(cols).unwrap()
}

fn matrix_from<const M: usize, const N: usize>(cols: Vec<Vec<i32>>) -> Matrix<i32, M, N> {
    let mut out: Vec<Vector<i32, M>> = Vec::new();
    for col in cols {
        out.push(Vector::try_from_vec(col).unwrap());
    }
    Vector::try_from_vec(out).unwrap()
}

#[test]
fn matrix_multiply() {
    let a: Matrix<i32, 2, 3> = random_matrix(0, 100);
    let b: Matrix<i32, 3, 4> = random_matrix(0, 100);

    let _c: Matrix<i32, 2, 4> = a.matrix_multiply(&b);
}

#[test]
fn matrix_multiply_reference() {
    // 2x3 times 3x4, checked cell by cell against the naive triple loop
    let a: Matrix<i32, 2, 3> = matrix_from(vec![vec![1, 2], vec![3, 4], vec![5, 6]]);
    let b: Matrix<i32, 3, 4> = matrix_from(vec![
        vec![1, 0, 2],
        vec![0, 1, 3],
        vec![4, 5, 6],
        vec![7, 8, 9],
    ]);
    let c: Matrix<i32, 2, 4> = a.matrix_multiply(&b);
    for row in 0..2 {
        for col in 0..4 {
            let mut expected = 0;
            for k in 0..3 {
                expected += a.get(k).get(row) * b.get(col).get(k);
            }
            assert_eq!(*c.get(col).get(row), expected);
        }
    }
}

#[test]
fn transpose_bounds() {
    let a: Matrix<i32, 2, 3> = matrix_from(vec![vec![0, 1], vec![10, 11], vec![20, 21]]);
    println!("origin matrix: {:?}", a);
    let a2 = a.transpose().materialize().transpose().materialize();

    assert!(a.el_eq(&a2));
}

#[test]
fn transpose_involution_rectangular() {
    let wide: Matrix<i32, 1, 2> = matrix_from(vec![vec![1], vec![2]]);
    let wide2 = wide.transpose().materialize().transpose().materialize();
    assert!(wide.el_eq(&wide2));

    let tall: Matrix<i32, 2, 1> = matrix_from(vec![vec![1, 2]]);
    let tall2 = tall.transpose().materialize().transpose().materialize();
    assert!(tall.el_eq(&tall2));
}

#[test]
fn transpose_materialize_swaps() {
    let a: Matrix<i32, 2, 3> = matrix_from(vec![vec![0, 1], vec![10, 11], vec![20, 21]]);
    let t: Matrix<i32, 3, 2> = a.transpose().materialize();
    for i in 0..2 {
        for j in 0..3 {
            assert_eq!(*a.get(j).get(i), *t.get(i).get(j));
        }
    }
}

#[test]
fn vector_plus_row_view() {
    let a: Matrix<i32, 2, 3> = matrix_from(vec![vec![1, 2], vec![3, 4], vec![5, 6]]);
    let t = a.transpose();
    // row 0 of the matrix, i.e. column 0 of the transpose: [1, 3, 5]
    let row0 = t.i(0);
    let x = Vector::<i32, 3>::try_from_vec(vec![10, 20, 30]).unwrap();
    let s = x.add(&row0);
    assert_eq!(*s.get(0), 11);
    assert_eq!(*s.get(1), 23);
    assert_eq!(*s.get(2), 35);
}

#[test]
fn dot_product_values() {
    let a = Vector::<i32, 3>::try_from_vec(vec![1, 2, 3]).unwrap();
    let b = Vector::<i32, 3>::try_from_vec(vec![4, 5, 6]).unwrap();
    assert_eq!(a.dot(&b), 32);
}

#[test]
fn view_dot_product() {
    // row 0 of the transposed view of a 2x3 matrix against a length-3 vector
    let a: Matrix<i32, 2, 3> = matrix_from(vec![vec![1, 2], vec![3, 4], vec![5, 6]]);
    let t = a.transpose();
    let row0 = t.i(0);
    let x = Vector::<i32, 3>::try_from_vec(vec![1, 1, 1]).unwrap();
    // row 0 across the columns is [1, 3, 5]
    assert_eq!(row0.dot(&x), 9);
}
