//! The handles by which a parked thread is woken, and what is taken on
//! trust about them.

use crossbeam::sync::Parker;
use crossbeam::sync::Unparker;
use vstd::prelude::*;

verus! {

/// `crossbeam::sync::Parker`: the handle on which a thread parks itself.
/// Nothing inside it is visible here.
#[verifier::external_type_specification]
#[verifier::external_body]
pub struct ExParker(Parker);

/// `crossbeam::sync::Unparker`: the handle by which another thread wakes
/// the one parked on the matching `Parker`. Nothing inside it is visible
/// here.
#[verifier::external_type_specification]
#[verifier::external_body]
pub struct ExUnparker(Unparker);

/// `Parker::new`: a parker whose token is not available. Nothing is claimed
/// of it.
#[verifier::external_body]
pub(crate) fn parker_new() -> (parker: Parker) {
    Parker::new()
}

/// `Parker::unparker`, cloned: a handle that wakes the thread parked on
/// `parker`. Nothing is claimed of it.
#[verifier::external_body]
pub(crate) fn unparker_of(parker: &Parker) -> (unparker: Unparker) {
    parker.unparker().clone()
}

/// `Unparker::unpark`: makes the token available, which wakes the thread
/// parked on the matching parker or lets its next `park` return at once.
/// It returns nothing, and nothing is claimed of it.
#[verifier::external_body]
pub(crate) fn unpark(unparker: &Unparker) {
    unparker.unpark()
}

} // verus!
