use optimath::{Matrix, Modeled, Vector};
use rand::{thread_rng, Rng};

fn random_u32_matrix<const M: usize, const N: usize>() -> Matrix<u32, M, N> {
    let mut rng = thread_rng();
    let mut cols: Vec<Vector<u32, M>> = Vec::new();
    for _ in 0..N {
        let mut col: Vec<u32> = Vec::new();
        for _ in 0..M {
            col.push(rng.gen());
        }
        cols.push(Vector::try_from_vec(col).unwrap());
    }
    Vector::try_from_vec(cols).unwrap()
}

#[test]
fn ser_de_test() {
    let matrix: Matrix<u32, 20, 40> = random_u32_matrix();

    let buf = matrix.serialize();
    assert_eq!(buf.len(), 20 * 40 * 4);

    let decoded = Matrix::<u32, 20, 40>::deserialize(&buf).unwrap();
    assert!(matrix.el_eq(&decoded));
}

#[test]
fn codec_known_bytes() {
    let v = Vector::<u32, 2>::try_from_vec(vec![1, 0x01020304]).unwrap();
    let bytes = v.serialize();
    assert_eq!(bytes, vec![1, 0, 0, 0, 4, 3, 2, 1]);
    let back = Vector::<u32, 2>::deserialize(&bytes).unwrap();
    assert!(back.el_eq(&v));
}

#[test]
fn round_trip_vector() {
    let mut rng = thread_rng();
    let mut items: Vec<u32> = Vec::new();
    for _ in 0..10 {
        items.push(rng.gen());
    }
    let v = Vector::<u32, 10>::try_from_vec(items).unwrap();
    let bytes = v.serialize();
    let back = Vector::<u32, 10>::deserialize(&bytes).unwrap();
    assert!(back.el_eq(&v));
}

#[test]
fn decode_short_buffer_fails() {
    let v = Vector::<u32, 3>::try_from_vec(vec![1, 2, 3]).unwrap();
    let mut bytes = v.serialize();
    bytes.pop();
    assert!(Vector::<u32, 3>::deserialize(&bytes).is_none());
}

#[test]
fn decode_long_buffer_fails() {
    let v = Vector::<u32, 3>::try_from_vec(vec![1, 2, 3]).unwrap();
    let mut bytes = v.serialize();
    bytes.push(0);
    assert!(Vector::<u32, 3>::deserialize(&bytes).is_none());
}

#[test]
fn matrix_decode_wrong_size_fails() {
    let matrix: Matrix<u32, 2, 2> = random_u32_matrix();
    let mut bytes = matrix.serialize();
    bytes.pop();
    assert!(Matrix::<u32, 2, 2>::deserialize(&bytes).is_none());
}
