use optimath::{ConstIterator, Modeled, Stupidity, VAdd, Vector};
use rand::{thread_rng, Rng};

const TESTLEN: usize = 777;

fn random_vector(lo: i32, hi: i32) -> Vector<i32, TESTLEN> {
    let mut rng = thread_rng();
    let mut items: Vec<i32> = Vec::new();
    for _ in 0..TESTLEN {
        items.push(rng.gen_range(lo..hi));
    }
    Vector::try_from_vec(items).unwrap()
}

#[test]
fn default_is_default() {
    let m = Vector::<i32, TESTLEN>::default();
    for i in 0..TESTLEN {
        assert_eq!(*m.get(i), i32::default());
    }
}

#[test]
fn operations() {
    let a = random_vector(1, 1000);
    let b = random_vector(1, 1000);

    let add = a.add(&b);
    let sub = a.sub(&b);
    let mul = a.mul(&b);
    let div = a.div(&b);

    for i in 0..TESTLEN {
        assert_eq!(a.get(i) + b.get(i), *add.get(i));
        assert_eq!(a.get(i) - b.get(i), *sub.get(i));
        assert_eq!(a.get(i) * b.get(i), *mul.get(i));
        assert_eq!(a.get(i) / b.get(i), *div.get(i));
    }
}

#[test]
fn assignment_operations() {
    let a = random_vector(1, 1000);
    let b = random_vector(1, 1000);

    let mut add = a.dup();
    add.add_assign(&b);

    let mut sub = a.dup();
    sub.sub_assign(&b);

    let mut mul = a.dup();
    mul.mul_assign(&b);

    let mut div = a.dup();
    div.div_assign(&b);

    for i in 0..TESTLEN {
        assert_eq!(a.get(i) + b.get(i), *add.get(i));
        assert_eq!(a.get(i) - b.get(i), *sub.get(i));
        assert_eq!(a.get(i) * b.get(i), *mul.get(i));
        assert_eq!(a.get(i) / b.get(i), *div.get(i));
    }
}

#[test]
fn elementwise_exact_values() {
    let a = Vector::<i32, 4>::try_from_vec(vec![6, -7, 7, -8]).unwrap();
    let b = Vector::<i32, 4>::try_from_vec(vec![3, 2, -2, -2]).unwrap();

    let add = a.add(&b);
    assert_eq!(*add.get(0), 9);
    assert_eq!(*add.get(1), -5);
    assert_eq!(*add.get(2), 5);
    assert_eq!(*add.get(3), -10);

    let sub = a.sub(&b);
    assert_eq!(*sub.get(0), 3);
    assert_eq!(*sub.get(1), -9);
    assert_eq!(*sub.get(2), 9);
    assert_eq!(*sub.get(3), -6);

    let mul = a.mul(&b);
    assert_eq!(*mul.get(0), 18);
    assert_eq!(*mul.get(1), -14);
    assert_eq!(*mul.get(2), -14);
    assert_eq!(*mul.get(3), 16);

    // division truncates toward zero on signed operands
    let div = a.div(&b);
    assert_eq!(*div.get(0), 2);
    assert_eq!(*div.get(1), -3);
    assert_eq!(*div.get(2), -3);
    assert_eq!(*div.get(3), 4);
}

#[test]
fn default_fill_u32() {
    let m = Vector::<u32, 5>::default();
    for i in 0..5 {
        assert_eq!(*m.get(i), 0u32);
    }
}

#[test]
fn compound_assignment_matches_plain() {
    let a = random_vector(1, 1000);
    let b = random_vector(1, 1000);
    let sum = a.add(&b);
    let mut x = a.dup();
    x.add_assign(&b);
    assert!(x.el_eq(&sum));
}

#[test]
fn matrix_elementwise_add() {
    // a matrix is a vector of vectors, so it inherits the arithmetic
    let col = |v: Vec<i32>| Vector::<i32, 2>::try_from_vec(v).unwrap();
    let a = Vector::<Vector<i32, 2>, 2>::try_from_vec(vec![col(vec![1, 2]), col(vec![3, 4])])
        .unwrap();
    let b = Vector::<Vector<i32, 2>, 2>::try_from_vec(vec![col(vec![10, 20]), col(vec![30, 40])])
        .unwrap();
    let c = a.add(&b);
    assert_eq!(*c.get(0).get(0), 11);
    assert_eq!(*c.get(0).get(1), 22);
    assert_eq!(*c.get(1).get(0), 33);
    assert_eq!(*c.get(1).get(1), 44);
}

#[test]
fn vadd_lazy_sum() {
    let a = Vector::<i32, 3>::try_from_vec(vec![1, 2, 3]).unwrap();
    let b = Vector::<i32, 3>::try_from_vec(vec![10, 20, 30]).unwrap();
    let plain = a.add(&b);
    let lazy = VAdd::new(&a, &b);
    let mut it = ConstIterator::new(lazy);
    for i in 0..3 {
        assert_eq!(it.next().unwrap(), *plain.get(i));
    }
    assert_eq!(it.next(), None);
}

#[test]
fn fast_path_agrees_with_generic() {
    // 777 is not a multiple of the lane width, so both whole chunks and
    // the leftover are exercised
    let a = random_vector(1, 1000);
    let b = random_vector(1, 1000);
    let generic = a.add(&b);
    let fast = a.add_chunked(&b);
    assert!(generic.el_eq(&fast));
    for i in 0..TESTLEN {
        assert_eq!(*generic.get(i), *fast.get(i));
    }
}

#[test]
fn build_with_fn_ascending() {
    let v = Vector::<i32, 5>::build_with_fn(|i| (i as i32) * 2);
    for i in 0..5 {
        assert_eq!(*v.get(i), (i as i32) * 2);
    }
}
