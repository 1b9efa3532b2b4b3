//! Transformations that wrap one unit of work into another, and their stacks.
use vstd::prelude::*;

verus! {

/// A transformation from a unit of work `S` to the unit `Self::Service`.
///
/// `wraps` is the relation between what is handed in and what comes out; it is
/// all that a router knows of a transformation. A transformation that does not
/// state it claims nothing of what it produces.
pub trait Layer<S> {
    /// The unit of work that this transformation produces.
    type Service;

    /// Whether `outer` may be what this transformation makes of `inner`.
    open spec fn wraps(&self, inner: S, outer: Self::Service) -> bool {
        true
    }

    /// Wraps `inner`.
    fn layer(&self, inner: S) -> (outer: Self::Service)
        ensures
            self.wraps(inner, outer),
    ;
}

/// The empty stack: it hands the unit back as it is.
impl<S> Layer<S> for () {
    type Service = S;

    open spec fn wraps(&self, inner: S, outer: S) -> bool {
        outer == inner
    }

    fn layer(&self, inner: S) -> (outer: S) {
        inner
    }
}

/// A stack of two: the second component wraps first, so the first is outermost.
impl<S, L1, L2> Layer<S> for (L1, L2) where L2: Layer<S>, L1: Layer<L2::Service> {
    type Service = L1::Service;

    open spec fn wraps(&self, inner: S, outer: L1::Service) -> bool {
        exists|mid: L2::Service| #[trigger] self.1.wraps(inner, mid) && self.0.wraps(mid, outer)
    }

    fn layer(&self, inner: S) -> (outer: L1::Service) {
        let mid = self.1.layer(inner);
        self.0.layer(mid)
    }
}

/// A stack of three, outermost first.
impl<S, L1, L2, L3> Layer<S> for (L1, L2, L3) where
    L3: Layer<S>,
    L2: Layer<L3::Service>,
    L1: Layer<L2::Service>,
 {
    type Service = L1::Service;

    open spec fn wraps(&self, inner: S, outer: L1::Service) -> bool {
        exists|low: L3::Service, mid: L2::Service| #[trigger]
            self.2.wraps(inner, low) && #[trigger] self.1.wraps(low, mid) && self.0.wraps(
                mid,
                outer,
            )
    }

    fn layer(&self, inner: S) -> (outer: L1::Service) {
        let low = self.2.layer(inner);
        let mid = self.1.layer(low);
        self.0.layer(mid)
    }
}

/// A borrowed transformation wraps as the transformation itself does.
impl<'a, S, L: Layer<S>> Layer<S> for &'a L {
    type Service = L::Service;

    open spec fn wraps(&self, inner: S, outer: L::Service) -> bool {
        (**self).wraps(inner, outer)
    }

    fn layer(&self, inner: S) -> (outer: L::Service) {
        (**self).layer(inner)
    }
}

} // verus!
