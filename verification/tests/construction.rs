use optimath::{ConstIterator, Modeled, Vecc, Vector};
use rand::{thread_rng, Rng};
use std::cell::Cell;
use std::rc::Rc;

#[test]
fn const_iter() {
    let mut rng = thread_rng();
    let mut items: Vec<i32> = Vec::new();
    for _ in 0..40 {
        items.push(rng.gen_range(0..100));
    }
    let a = Vector::<i32, 40>::try_from_vec(items.clone()).unwrap();
    let mut iter = ConstIterator::new(&a);
    let mut s: i32 = 0;
    while let Some(x) = iter.next() {
        s += x;
    }
    let expected: i32 = items.iter().sum();
    assert_eq!(s, expected);
}

#[test]
fn base_build() {
    let a: Vecc<usize, 77> = Vecc::from_iter((0..77usize).collect()).unwrap();
    for i in 0..77 {
        assert_eq!(*a.get(i), i);
    }
}

#[test]
fn i32_build() {
    let a: Vecc<i32, 77> = Vecc::from_iter((0..77).collect()).unwrap();
    for i in 0..77 {
        assert_eq!(*a.get(i), i as i32);
    }
}

#[test]
fn experimental_f32_build() {
    let a: Vecc<f32, 77> = Vecc::from_iter((0..77).map(|v| v as f32).collect()).unwrap();
    for i in 0..77 {
        assert_eq!(*a.get(i), i as f32);
    }
}

#[test]
fn layout_f32_build() {
    let a: Vecc<f32, 77> = Vecc::from_iter((0..77).map(|v| v as f32).collect()).unwrap();
    assert_eq!(*a.get(76), 76.0f32);
}

#[test]
fn construction_arity() {
    assert!(Vector::<i32, 5>::try_from_vec(vec![1, 2, 3, 4]).is_none());
    assert!(Vector::<i32, 5>::try_from_vec(vec![1, 2, 3, 4, 5, 6]).is_none());
    let v = Vector::<i32, 5>::try_from_vec(vec![1, 2, 3, 4, 5]).unwrap();
    for i in 0..5 {
        assert_eq!(*v.get(i), (i as i32) + 1);
    }
}

#[test]
fn vecc_arity() {
    assert!(Vecc::<i32, 77>::from_iter((0..76).collect()).is_none());
    assert!(Vecc::<i32, 77>::from_iter((0..78).collect()).is_none());
}

#[test]
fn into_iter_order() {
    let v = Vector::<i32, 5>::try_from_vec(vec![10, 20, 30, 40, 50]).unwrap();
    let mut it = v.into_iter();
    for expected in [10, 20, 30, 40, 50] {
        assert_eq!(it.next(), Some(expected));
    }
    assert_eq!(it.next(), None);
    assert_eq!(it.next(), None);
}

struct DropTally {
    value: usize,
    drops: Rc<Cell<usize>>,
}

impl Drop for DropTally {
    fn drop(&mut self) {
        self.drops.set(self.drops.get() + 1);
    }
}

#[test]
fn iterator_drop_cleanup() {
    let drops = Rc::new(Cell::new(0usize));
    let mut items: Vec<DropTally> = Vec::new();
    for value in 0..5 {
        items.push(DropTally { value, drops: Rc::clone(&drops) });
    }
    let v = Vector::<DropTally, 5>::try_from_vec(items).unwrap();
    let mut it = v.into_iter();
    let first = it.next().unwrap();
    let second = it.next().unwrap();
    assert_eq!(first.value, 0);
    assert_eq!(second.value, 1);
    assert_eq!(drops.get(), 0);
    // abandoning the iterator destroys the three un-yielded elements,
    // exactly once each, and does not touch the two already yielded
    drop(it);
    assert_eq!(drops.get(), 3);
    drop(first);
    drop(second);
    assert_eq!(drops.get(), 5);
}

#[test]
fn ascend_wraps_once() {
    let v = Vector::<i32, 3>::try_from_vec(vec![7, 8, 9]).unwrap();
    let w = v.dup().ascend();
    assert!(w.get(0).el_eq(&v));
}
