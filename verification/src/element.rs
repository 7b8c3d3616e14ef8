use vstd::prelude::*;

verus! {

/// A value with a mathematical model (its deep view) and a well-formedness
/// condition that every operation of this library preserves. Scalars are
/// always well formed; a fixed-capacity vector is well formed when it holds
/// exactly its declared number of well-formed elements.
pub trait Modeled: DeepView + Sized {
    spec fn wf(&self) -> bool;

    /// An explicit copy that preserves the model.
    fn dup(&self) -> (r: Self)
        requires
            self.wf(),
        ensures
            r.wf(),
            r.deep_view() == self.deep_view(),
    ;

    /// Model equality, decided executably.
    fn el_eq(&self, other: &Self) -> (r: bool)
        requires
            self.wf(),
            other.wf(),
        ensures
            r == (self.deep_view() == other.deep_view()),
    ;
}

/// Truncating integer division (rounds toward zero), as the machine performs
/// it on signed operands, expressed over Euclidean division on `int`.
pub open spec fn div_trunc(a: int, b: int) -> int {
    if a >= 0 {
        a / b
    } else {
        -((-a) / b)
    }
}

/// An element type of a vector: it says on which pairs of models each of the
/// four arithmetic operations is defined, what the operation yields, and it
/// carries an executable operation proved against that model. A vector of
/// elements is itself an element, so matrices and higher tensors inherit the
/// arithmetic.
pub trait Element: Modeled {
    spec fn can_add(a: Self::V, b: Self::V) -> bool;

    spec fn add_model(a: Self::V, b: Self::V) -> Self::V;

    spec fn can_sub(a: Self::V, b: Self::V) -> bool;

    spec fn sub_model(a: Self::V, b: Self::V) -> Self::V;

    spec fn can_mul(a: Self::V, b: Self::V) -> bool;

    spec fn mul_model(a: Self::V, b: Self::V) -> Self::V;

    spec fn can_div(a: Self::V, b: Self::V) -> bool;

    spec fn div_model(a: Self::V, b: Self::V) -> Self::V;

    spec fn default_model() -> Self::V;

    fn el_add(&self, other: &Self) -> (r: Self)
        requires
            self.wf(),
            other.wf(),
            Self::can_add(self.deep_view(), other.deep_view()),
        ensures
            r.wf(),
            r.deep_view() == Self::add_model(self.deep_view(), other.deep_view()),
    ;

    fn el_sub(&self, other: &Self) -> (r: Self)
        requires
            self.wf(),
            other.wf(),
            Self::can_sub(self.deep_view(), other.deep_view()),
        ensures
            r.wf(),
            r.deep_view() == Self::sub_model(self.deep_view(), other.deep_view()),
    ;

    fn el_mul(&self, other: &Self) -> (r: Self)
        requires
            self.wf(),
            other.wf(),
            Self::can_mul(self.deep_view(), other.deep_view()),
        ensures
            r.wf(),
            r.deep_view() == Self::mul_model(self.deep_view(), other.deep_view()),
    ;

    fn el_div(&self, other: &Self) -> (r: Self)
        requires
            self.wf(),
            other.wf(),
            Self::can_div(self.deep_view(), other.deep_view()),
        ensures
            r.wf(),
            r.deep_view() == Self::div_model(self.deep_view(), other.deep_view()),
    ;

    /// The value a default-filled vector is filled with.
    fn default_val() -> (r: Self)
        ensures
            r.wf(),
            r.deep_view() == Self::default_model(),
    ;
}

impl Modeled for i32 {
    open spec fn wf(&self) -> bool {
        true
    }

    fn dup(&self) -> (r: Self) {
        *self
    }

    fn el_eq(&self, other: &Self) -> (r: bool) {
        *self == *other
    }
}

impl Element for i32 {
    open spec fn can_add(a: i32, b: i32) -> bool {
        i32::MIN <= a + b <= i32::MAX
    }

    open spec fn add_model(a: i32, b: i32) -> i32 {
        (a + b) as i32
    }

    open spec fn can_sub(a: i32, b: i32) -> bool {
        i32::MIN <= a - b <= i32::MAX
    }

    open spec fn sub_model(a: i32, b: i32) -> i32 {
        (a - b) as i32
    }

    open spec fn can_mul(a: i32, b: i32) -> bool {
        i32::MIN <= a * b <= i32::MAX
    }

    open spec fn mul_model(a: i32, b: i32) -> i32 {
        (a * b) as i32
    }

    open spec fn can_div(a: i32, b: i32) -> bool {
        b != 0 && !(a == i32::MIN && b == -1)
    }

    open spec fn div_model(a: i32, b: i32) -> i32 {
        div_trunc(a as int, b as int) as i32
    }

    open spec fn default_model() -> i32 {
        0
    }

    fn el_add(&self, other: &Self) -> (r: Self) {
        *self + *other
    }

    fn el_sub(&self, other: &Self) -> (r: Self) {
        *self - *other
    }

    fn el_mul(&self, other: &Self) -> (r: Self) {
        *self * *other
    }

    fn el_div(&self, other: &Self) -> (r: Self) {
        *self / *other
    }

    fn default_val() -> (r: Self) {
        0
    }
}

impl Modeled for u32 {
    open spec fn wf(&self) -> bool {
        true
    }

    fn dup(&self) -> (r: Self) {
        *self
    }

    fn el_eq(&self, other: &Self) -> (r: bool) {
        *self == *other
    }
}

impl Element for u32 {
    open spec fn can_add(a: u32, b: u32) -> bool {
        a + b <= u32::MAX
    }

    open spec fn add_model(a: u32, b: u32) -> u32 {
        (a + b) as u32
    }

    open spec fn can_sub(a: u32, b: u32) -> bool {
        b <= a
    }

    open spec fn sub_model(a: u32, b: u32) -> u32 {
        (a - b) as u32
    }

    open spec fn can_mul(a: u32, b: u32) -> bool {
        a * b <= u32::MAX
    }

    open spec fn mul_model(a: u32, b: u32) -> u32 {
        (a * b) as u32
    }

    open spec fn can_div(a: u32, b: u32) -> bool {
        b != 0
    }

    open spec fn div_model(a: u32, b: u32) -> u32 {
        (a as int / b as int) as u32
    }

    open spec fn default_model() -> u32 {
        0
    }

    fn el_add(&self, other: &Self) -> (r: Self) {
        *self + *other
    }

    fn el_sub(&self, other: &Self) -> (r: Self) {
        *self - *other
    }

    fn el_mul(&self, other: &Self) -> (r: Self) {
        *self * *other
    }

    fn el_div(&self, other: &Self) -> (r: Self) {
        *self / *other
    }

    fn default_val() -> (r: Self) {
        0
    }
}

} // verus!
