//! The admission budget: a fixed number of permits that all traversals
//! share, held in tokio's semaphore.
//!
//! Verus does not read tokio. What this module says about it is taken on
//! trust from tokio's source, and it is little: whether a request for permits
//! is granted depends on what other tasks hold at that moment, so nothing is
//! claimed about it.

use std::sync::Arc;
use tokio::sync::{OwnedSemaphorePermit, Semaphore};
use vstd::prelude::*;

verus! {

/// tokio's semaphore, opaque to the verifier.
#[verifier::external_type_specification]
#[verifier::external_body]
pub struct ExSemaphore(Semaphore);

/// A number of permits taken from a semaphore, given back when the value is
/// dropped. Opaque to the verifier.
#[verifier::external_type_specification]
#[verifier::external_body]
pub struct ExOwnedSemaphorePermit(OwnedSemaphorePermit);

/// The largest number of permits that a budget can hold.
pub open spec fn max_permits() -> int {
    (usize::MAX / 8) as int
}

/// Trusted: `Semaphore::new` returns a semaphore; it panics above
/// `Semaphore::MAX_PERMITS`, which is `usize::MAX >> 3`, and such a number is
/// left out.
#[verifier::external_body]
fn semaphore_new(permits: usize) -> (semaphore: Arc<Semaphore>)
    requires
        permits <= max_permits(),
{
    Arc::new(Semaphore::new(permits))
}

/// Trusted: `Semaphore::try_acquire_many_owned` returns at once, with the
/// permits or without. It panics above `Semaphore::MAX_PERMITS`, and such a
/// number is left out. Which of the two comes back depends on the permits
/// that are out at that moment: nothing is claimed of it.
#[verifier::external_body]
fn semaphore_try_acquire(semaphore: &Arc<Semaphore>, n: u32) -> (permit: Option<
    OwnedSemaphorePermit,
>)
    requires
        n <= max_permits(),
{
    semaphore.clone().try_acquire_many_owned(n).ok()
}

/// The budget of fetches that may be in flight at one time, over all
/// traversals that share it.
pub struct AdmissionBudget {
    semaphore: Arc<Semaphore>,
    capacity: usize,
}

impl AdmissionBudget {
    /// The number of permits that the budget was made with.
    pub closed spec fn capacity_spec(&self) -> usize {
        self.capacity
    }

    /// A budget of `permits` permits, or of the largest number that a budget
    /// can hold where `permits` is beyond it.
    pub fn new(permits: usize) -> (budget: AdmissionBudget)
        ensures
            budget.capacity_spec() == if permits <= max_permits() {
                permits as int
            } else {
                max_permits()
            },
    {
        let capacity = if permits <= usize::MAX / 8 {
            permits
        } else {
            usize::MAX / 8
        };
        AdmissionBudget { semaphore: semaphore_new(capacity), capacity }
    }

    #[verifier::when_used_as_spec(capacity_spec)]
    pub fn capacity(&self) -> (n: usize)
        ensures
            n == self.capacity_spec(),
    {
        self.capacity
    }

    /// Asks for `n` permits at once, without waiting. More permits than the
    /// budget was made with are never granted, for no more can ever be free.
    /// Whether fewer are granted depends on what is out at that moment.
    pub fn try_admit(&self, n: u32) -> (permit: Option<OwnedSemaphorePermit>)
        ensures
            n > self.capacity() ==> permit is None,
            n > max_permits() ==> permit is None,
    {
        if n as usize > self.capacity || n as usize > usize::MAX / 8 {
            None
        } else {
            semaphore_try_acquire(&self.semaphore, n)
        }
    }

    /// A second handle on the same budget.
    pub fn share(&self) -> (budget: AdmissionBudget)
        ensures
            budget.capacity_spec() == self.capacity_spec(),
    {
        AdmissionBudget { semaphore: self.semaphore.clone(), capacity: self.capacity }
    }
}

} // verus!
