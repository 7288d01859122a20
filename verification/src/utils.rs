//! The smaller and the larger of two values in one call, and the mapping
//! of a value that is either borrowed or owned.

use vstd::prelude::*;
use std::borrow::Cow;
use std::cmp::Ordering;
use vstd::std_specs::cmp::{PartialOrdIs, PartialOrdSpec};

verus! {

/// For values that may be beyond compare.
pub trait PartialOrdExt: PartialOrd<Self> + Sized {
    /// The two values, the smaller first, or nothing if they cannot be
    /// compared. Equal values come out with `right` first.
    fn partial_min_max<'a>(&'a self, right: &'a Self) -> (r: Option<(&'a Self, &'a Self)>)
        ensures
            Self::obeys_partial_cmp_spec() ==> match r {
                None => self.partial_cmp_spec(right) is None,
                Some(pair) => self.partial_cmp_spec(right) is Some && pair == (if self.is_lt(
                    right,
                ) {
                    (self, right)
                } else {
                    (right, self)
                }),
            },
    ;
}

/// For values that can always be compared.
pub trait OrdExt: Ord + PartialOrdExt {
    /// The two values, the smaller first. Equal values come out with
    /// `right` first.
    fn min_max<'a>(&'a self, right: &'a Self) -> (r: (&'a Self, &'a Self))
        ensures
            Self::obeys_partial_cmp_spec() ==> r == (if self.is_lt(right) {
                (self, right)
            } else {
                (right, self)
            }),
    ;
}

impl<N: PartialOrd<N>> PartialOrdExt for N {
    fn partial_min_max<'a>(&'a self, right: &'a Self) -> (r: Option<(&'a Self, &'a Self)>) {
        match self.partial_cmp(right) {
            None => None,
            Some(Ordering::Less) => Some((self, right)),
            Some(_) => Some((right, self)),
        }
    }
}

impl<N: Ord> OrdExt for N {
    fn min_max<'a>(&'a self, right: &'a Self) -> (r: (&'a Self, &'a Self)) {
        if self < right {
            (self, right)
        } else {
            (right, self)
        }
    }
}

/// Mapping a `Cow` by one of two functions, as it is borrowed or owned.
pub trait CowExt<'a, T: ?Sized + ToOwned + 'a>: Sized {
    /// What is mapped.
    spec fn subject(self) -> Cow<'a, T>;

    /// Maps what is borrowed to something borrowed, by `b`, and what is
    /// owned to something owned, by `o`.
    fn map_ref_or_owned<'b, U: ?Sized + ToOwned, B, O>(self, b: B, o: O) -> (r: Cow<'b, U>) where
        B: FnOnce(&'a T) -> &'b U,
        O: FnOnce(T::Owned) -> U::Owned,

        requires
            match self.subject() {
                Cow::Borrowed(x) => b.requires((x,)),
                Cow::Owned(x) => o.requires((x,)),
            },
        ensures
            match self.subject() {
                Cow::Borrowed(x) => r matches Cow::Borrowed(y) && b.ensures((x,), y),
                Cow::Owned(x) => r matches Cow::Owned(y) && o.ensures((x,), y),
            },
    ;

    /// Maps what is borrowed by `b` and what is owned by `o`.
    fn map_to_cow<'b, U: ?Sized + ToOwned, B, O>(self, b: B, o: O) -> (r: Cow<'b, U>) where
        B: FnOnce(&'a T) -> Cow<'b, U>,
        O: FnOnce(T::Owned) -> Cow<'b, U>,

        requires
            match self.subject() {
                Cow::Borrowed(x) => b.requires((x,)),
                Cow::Owned(x) => o.requires((x,)),
            },
        ensures
            match self.subject() {
                Cow::Borrowed(x) => b.ensures((x,), r),
                Cow::Owned(x) => o.ensures((x,), r),
            },
    ;
}

impl<'a, T: ?Sized + ToOwned> CowExt<'a, T> for Cow<'a, T> {
    open spec fn subject(self) -> Cow<'a, T> {
        self
    }

    fn map_ref_or_owned<'b, U: ?Sized + ToOwned, B, O>(self, b: B, o: O) -> (r: Cow<'b, U>) where
        B: FnOnce(&'a T) -> &'b U,
        O: FnOnce(T::Owned) -> U::Owned,
     {
        match self {
            Cow::Borrowed(borrow) => Cow::Borrowed(b(borrow)),
            Cow::Owned(owned) => Cow::Owned(o(owned)),
        }
    }

    fn map_to_cow<'b, U: ?Sized + ToOwned, B, O>(self, b: B, o: O) -> (r: Cow<'b, U>) where
        B: FnOnce(&'a T) -> Cow<'b, U>,
        O: FnOnce(T::Owned) -> Cow<'b, U>,
     {
        match self {
            Cow::Borrowed(borrow) => b(borrow),
            Cow::Owned(owned) => o(owned),
        }
    }
}

} // verus!
