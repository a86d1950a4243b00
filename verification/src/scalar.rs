//! The numbers that geometry is computed in.
//!
//! The keyboard lays its keys out in whatever number type its host draws with.
//! What is proved of a layout is proved for every such type: the results are the
//! stated expressions, with each operation evaluated by the type itself.

use vstd::prelude::*;

verus! {

/// A number type that geometry can be computed in.
///
/// Nothing is asked of the operations but that they return.
pub trait Scalar: Copy {
    /// The number `n`.
    fn from_u32(n: u32) -> Self;

    /// The sum of `self` and `other`.
    fn plus(self, other: Self) -> Self;

    /// `self` less `other`.
    fn minus(self, other: Self) -> Self;

    /// The product of `self` and `other`.
    fn times(self, other: Self) -> Self;

    /// `self` divided by `other`.
    fn over(self, other: Self) -> Self;

    /// The larger of `self` and `other`.
    fn larger(self, other: Self) -> Self;

    /// Whether `self` is above zero.
    fn is_positive(self) -> bool;

    /// The whole number that is nearest to `self`.
    fn rounded(self) -> u32;
}

/// The operations of a number type, as functions.
#[verifier::reject_recursive_types(N)]
pub struct Arithmetic<N> {
    pub from_u32: spec_fn(u32) -> N,
    pub plus: spec_fn(N, N) -> N,
    pub minus: spec_fn(N, N) -> N,
    pub times: spec_fn(N, N) -> N,
    pub over: spec_fn(N, N) -> N,
    pub larger: spec_fn(N, N) -> N,
    pub is_positive: spec_fn(N) -> bool,
    pub rounded: spec_fn(N) -> u32,
}

/// Whether each operation of `N` returns what `m` says, whenever it returns.
///
/// Contracts speak of every `m` that computes as `N` does. There is one exactly
/// when the operations of `N` depend on their arguments alone.
pub open spec fn computes<N: Scalar>(m: Arithmetic<N>) -> bool {
    &&& forall|n: u32, r: N| call_ensures(N::from_u32, (n,), r) ==> r == (m.from_u32)(n)
    &&& forall|a: N, b: N, r: N| call_ensures(N::plus, (a, b), r) ==> r == (m.plus)(a, b)
    &&& forall|a: N, b: N, r: N| call_ensures(N::minus, (a, b), r) ==> r == (m.minus)(a, b)
    &&& forall|a: N, b: N, r: N| call_ensures(N::times, (a, b), r) ==> r == (m.times)(a, b)
    &&& forall|a: N, b: N, r: N| call_ensures(N::over, (a, b), r) ==> r == (m.over)(a, b)
    &&& forall|a: N, b: N, r: N| call_ensures(N::larger, (a, b), r) ==> r == (m.larger)(a, b)
    &&& forall|a: N, r: bool| call_ensures(N::is_positive, (a,), r) ==> r == (m.is_positive)(a)
    &&& forall|a: N, r: u32| call_ensures(N::rounded, (a,), r) ==> r == (m.rounded)(a)
}

impl<N> Arithmetic<N> {
    /// The number zero.
    pub open spec fn zero(self) -> N {
        (self.from_u32)(0)
    }

    /// The sum of a list, added up from its first number to its last.
    pub open spec fn sum(self, s: Seq<N>) -> N {
        s.fold_left(self.zero(), self.plus)
    }

    /// The largest number of a list, and not less than zero.
    pub open spec fn largest(self, s: Seq<N>) -> N {
        s.fold_left(self.zero(), self.larger)
    }
}

/// A rectangle: its upper left corner and its extent.
#[derive(Debug, Clone, Copy)]
pub struct Rect<N> {
    pub x: N,
    pub y: N,
    pub width: N,
    pub height: N,
}

impl<N> Rect<N> {
    /// The right edge.
    pub open spec fn right_edge(self, m: Arithmetic<N>) -> N {
        (m.plus)(self.x, self.width)
    }

    /// The bottom edge.
    pub open spec fn bottom_edge(self, m: Arithmetic<N>) -> N {
        (m.plus)(self.y, self.height)
    }

    /// The rectangle scaled by `f` about the origin.
    pub open spec fn scaled(self, m: Arithmetic<N>, f: N) -> Rect<N> {
        Rect {
            x: (m.times)(self.x, f),
            y: (m.times)(self.y, f),
            width: (m.times)(self.width, f),
            height: (m.times)(self.height, f),
        }
    }
}

impl<N: Scalar> Rect<N> {
    /// The right edge: where the rectangle ends.
    pub fn right(&self) -> (edge: N)
        ensures
            forall|m: Arithmetic<N>| #[trigger] computes(m) ==> edge == self.right_edge(m),
    {
        self.x.plus(self.width)
    }

    /// The bottom edge.
    pub fn bottom(&self) -> (edge: N)
        ensures
            forall|m: Arithmetic<N>| #[trigger] computes(m) ==> edge == self.bottom_edge(m),
    {
        self.y.plus(self.height)
    }
}

/// Scale a layout-unit rect into surface-local coordinates.
pub fn scale_rect<N: Scalar>(r: Rect<N>, f: N) -> (scaled: Rect<N>)
    ensures
        forall|m: Arithmetic<N>| #[trigger] computes(m) ==> scaled == r.scaled(m, f),
{
    Rect {
        x: r.x.times(f),
        y: r.y.times(f),
        width: r.width.times(f),
        height: r.height.times(f),
    }
}

} // verus!
