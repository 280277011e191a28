//! Ownership slots for engine-native handles. A slot is emptied by `close` and
//! every later operation on it fails with `ClosedResource`, never a silent no-op.

use std::sync::Arc;
use vstd::prelude::*;

verus! {

/// Why an operation on a resource handle was refused.
#[derive(Debug, Clone, Copy, PartialEq, Eq, Structural)]
pub enum HandleError {
    /// The handle was closed before.
    ClosedResource,
    /// Closing a shared handle while other holders still reference it.
    NotSoleOwner,
}

/// Relies on std's `Arc::try_unwrap`: it hands back the value when the given
/// reference was the only one, and the reference itself otherwise.
#[verifier::external_body]
fn arc_try_unwrap<T>(a: Arc<T>) -> (r: Result<T, Arc<T>>)
    ensures
        match r {
            Ok(t) => t == *a,
            Err(b) => *b == *a,
        },
{
    Arc::try_unwrap(a)
}

/// Relies on std's `Arc::clone`: a new reference to the same value.
#[verifier::external_body]
fn arc_share<T>(a: &Arc<T>) -> (r: Arc<T>)
    ensures
        *r == **a,
{
    Arc::clone(a)
}

/// The result of any operation on a handle whose slot is `slot`: the handle's
/// value while it is open, `ClosedResource` once it is closed.
pub open spec fn access<T>(slot: Option<T>) -> Result<T, HandleError> {
    match slot {
        Some(t) => Ok(t),
        None => Err(HandleError::ClosedResource),
    }
}

/// What closing a shared slot returns: `ClosedResource` when it was already
/// closed; otherwise the value when this reference was the last one
/// (`sole`), and `NotSoleOwner` when other references remain.
pub open spec fn shared_close_result<T>(slot: Option<T>, sole: bool) -> Result<T, HandleError> {
    match slot {
        None => Err(HandleError::ClosedResource),
        Some(t) => if sole {
            Ok(t)
        } else {
            Err(HandleError::NotSoleOwner)
        },
    }
}

/// A slot shared among several holders (a session). Each holder has its own
/// `Shared`; the engine handle lives until the last holder closes it.
pub struct Shared<T> {
    slot: Option<Arc<T>>,
}

impl<T> Shared<T> {
    /// The handle's value while open, `None` once closed.
    pub closed spec fn slot(&self) -> Option<T> {
        match self.slot {
            Some(a) => Some(*a),
            None => None,
        }
    }

    pub fn new(t: T) -> (r: Shared<T>)
        ensures
            r.slot() == Some(t),
    {
        Shared { slot: Some(Arc::new(t)) }
    }

    pub fn is_open(&self) -> (r: bool)
        ensures
            r == (self.slot() is Some),
    {
        self.slot.is_some()
    }

    /// A new holder of the same handle; fails on a closed handle.
    pub fn share(&self) -> (r: Result<Shared<T>, HandleError>)
        ensures
            match r {
                Ok(s) => s.slot() == self.slot() && self.slot() is Some,
                Err(e) => access(self.slot()) == Err::<T, HandleError>(e),
            },
    {
        match &self.slot {
            Some(a) => Ok(Shared { slot: Some(arc_share(a)) }),
            None => Err(HandleError::ClosedResource),
        }
    }

    /// The handle's value, or `ClosedResource`.
    pub fn try_ref(&self) -> (r: Result<&T, HandleError>)
        ensures
            match r {
                Ok(t) => access(self.slot()) == Ok::<T, HandleError>(*t),
                Err(e) => access(self.slot()) == Err::<T, HandleError>(e),
            },
    {
        match &self.slot {
            Some(a) => Ok(&**a),
            None => Err(HandleError::ClosedResource),
        }
    }

    /// Empties the slot. Hands back the value when this holder was the last
    /// one, so that the caller can tear the engine handle down; otherwise the
    /// handle survives through the other holders. Either way this holder is
    /// closed afterwards.
    pub fn close(&mut self) -> (r: Result<T, HandleError>)
        ensures
            final(self).slot() is None,
            exists|sole: bool| r == shared_close_result(old(self).slot(), sole),
    {
        let taken = self.slot.take();
        match taken {
            None => Err(HandleError::ClosedResource),
            Some(a) => match arc_try_unwrap(a) {
                Ok(t) => {
                    assert(Ok::<T, HandleError>(t) == shared_close_result(old(self).slot(), true));
                    Ok(t)
                },
                Err(_) => {
                    assert(Err::<T, HandleError>(HandleError::NotSoleOwner) == shared_close_result(old(self).slot(), false));
                    Err(HandleError::NotSoleOwner)
                },
            },
        }
    }
}

/// A slot with a single owner (a subscriber or a queryable).
pub struct Exclusive<T> {
    slot: Option<T>,
}

impl<T> Exclusive<T> {
    pub closed spec fn slot(&self) -> Option<T> {
        self.slot
    }

    pub fn new(t: T) -> (r: Exclusive<T>)
        ensures
            r.slot() == Some(t),
    {
        Exclusive { slot: Some(t) }
    }

    pub fn is_open(&self) -> (r: bool)
        ensures
            r == (self.slot() is Some),
    {
        self.slot.is_some()
    }

    /// The handle's value, or `ClosedResource`.
    pub fn try_ref(&self) -> (r: Result<&T, HandleError>)
        ensures
            match r {
                Ok(t) => access(self.slot()) == Ok::<T, HandleError>(*t),
                Err(e) => access(self.slot()) == Err::<T, HandleError>(e),
            },
    {
        match &self.slot {
            Some(t) => Ok(t),
            None => Err(HandleError::ClosedResource),
        }
    }

    /// Empties the slot and hands the value over for teardown. Closing is not
    /// retried: whatever the teardown does, the slot stays empty.
    pub fn close(&mut self) -> (r: Result<T, HandleError>)
        ensures
            final(self).slot() is None,
            r == access(old(self).slot()),
    {
        match self.slot.take() {
            Some(t) => Ok(t),
            None => Err(HandleError::ClosedResource),
        }
    }
}

/// Once a slot has been emptied by `close`, by whichever outcome, every later
/// operation on it fails with `ClosedResource`, and so does a second `close`,
/// whether or not other holders remain.
pub proof fn lemma_closed_slot_refuses_all<T>()
    ensures
        access::<T>(None) == Err::<T, HandleError>(HandleError::ClosedResource),
        forall|sole: bool|
            shared_close_result::<T>(None, sole) == Err::<T, HandleError>(HandleError::ClosedResource),
{
}

} // verus!
