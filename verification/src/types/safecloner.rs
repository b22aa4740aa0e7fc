use std::ops::Deref;
use std::sync::Arc;
use vstd::prelude::*;

verus! {

/// Number of `Arc` pointers to the allocation of `arc` (`Arc::strong_count`).
/// The count depends on the other holders, so only its lower bound is stated.
#[verifier::external_body]
fn arc_strong_count<T>(arc: &Arc<T>) -> (r: usize)
    ensures
        r >= 1,
{
    Arc::strong_count(arc)
}

/// Another pointer to the same allocation (`Arc::clone`): it reads the same value.
#[verifier::external_body]
fn arc_share<T>(arc: &Arc<T>) -> (r: Arc<T>)
    ensures
        *r == **arc,
{
    Arc::clone(arc)
}

/// Mutable access to the value of `arc` (`Arc::make_mut`): when other pointers
/// share the allocation, the value is cloned into a fresh one first.
#[verifier::external_body]
fn arc_make_mut<T: Clone>(arc: &mut Arc<T>) -> (r: &mut T)
    ensures
        *r == **old(arc) || cloned::<T>(**old(arc), *r),
        **final(arc) == *final(r),
{
    Arc::make_mut(arc)
}

/// Copy-on-write handle: a reader (`R`) never sees later writes made through
/// the writer (`Rw`) it was cloned from.
pub enum SafeCloner<T> where T: Clone {
    R(Arc<T>),
    Rw(Arc<T>),
}

impl<T> SafeCloner<T> where T: Clone {
    /// The value the handle reads.
    pub open spec fn value(&self) -> T {
        match self {
            SafeCloner::R(arc) => **arc,
            SafeCloner::Rw(arc) => **arc,
        }
    }

    pub fn new(t: T) -> (r: Self)
        ensures
            r is Rw,
            r.value() == t,
    {
        SafeCloner::Rw(Arc::new(t))
    }

    pub fn clone_read(&self) -> (r: Self)
        ensures
            r is R,
            r.value() == self.value(),
    {
        match self {
            SafeCloner::R(arc) => SafeCloner::R(arc_share(arc)),
            SafeCloner::Rw(arc) => SafeCloner::R(arc_share(arc)),
        }
    }

    pub fn strong_count(&self) -> (r: usize)
        ensures
            r >= 1,
    {
        match self {
            SafeCloner::R(arc) => arc_strong_count(arc),
            SafeCloner::Rw(arc) => arc_strong_count(arc),
        }
    }

    pub fn get(&self) -> (r: &T)
        ensures
            *r == self.value(),
    {
        match self {
            SafeCloner::R(arc) => &**arc,
            SafeCloner::Rw(arc) => &**arc,
        }
    }

    pub fn get_mut(&mut self) -> (r: &mut T)
        requires
            *old(self) is Rw,
        ensures
            *r == old(self).value() || cloned::<T>(old(self).value(), *r),
            *final(self) is Rw,
            final(self).value() == *final(r),
    {
        match self {
            SafeCloner::R(_) => vstd::pervasive::unreached(),
            SafeCloner::Rw(arc) => arc_make_mut(arc),
        }
    }
}

impl<T: Clone> Deref for SafeCloner<T> {
    type Target = T;

    fn deref(&self) -> (r: &T)
        ensures
            *r == self.value(),
    {
        self.get()
    }
}

} // verus!
