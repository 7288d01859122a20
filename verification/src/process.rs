//! A status that tells an observer of each change.

use vstd::prelude::*;

verus! {

/// Holds a status and, if one was given, an observer that is called with
/// every new status.
pub struct StatusObserver<T, F> {
    inner: T,
    on_changed: Option<F>,
}

impl<T, F> StatusObserver<T, F> {
    /// The status held.
    pub closed spec fn status(&self) -> T {
        self.inner
    }

    /// The observer, if one was given.
    pub closed spec fn observer(&self) -> Option<F> {
        self.on_changed
    }

    /// Holds `inner`, with no observer.
    pub fn new(inner: T) -> (r: Self)
        ensures
            r.status() == inner,
            r.observer() is None,
    {
        StatusObserver { inner, on_changed: None }
    }

    /// Gives the observer that is called with every new status, in place
    /// of the one before.
    pub fn on_changed(&mut self, f: F)
        ensures
            final(self).status() == old(self).status(),
            final(self).observer() == Some(f),
    {
        self.on_changed = Some(f);
    }

    /// The status held.
    pub fn get(&self) -> (status: &T)
        ensures
            *status == self.status(),
    {
        &self.inner
    }
}

impl<T, E, F: Fn(&T) -> Result<(), E>> StatusObserver<T, F> {
    /// Takes `status` as the new status and tells the observer, whose
    /// answer is handed back. Without an observer the answer is `Ok`.
    pub fn change(&mut self, status: T) -> (r: Result<(), E>)
        requires
            old(self).observer() matches Some(f) ==> f.requires((&status,)),
        ensures
            final(self).status() == status,
            final(self).observer() == old(self).observer(),
            match old(self).observer() {
                Some(f) => f.ensures((&status,), r),
                None => r is Ok,
            },
    {
        self.inner = status;
        match &self.on_changed {
            Some(on_changed) => on_changed(&self.inner),
            None => Ok(()),
        }
    }
}

} // verus!
