//! Shared, independently lockable ownership of one sub-engine.
//!
//! A slot is an `Arc` around a spin lock around the engine, tagged with the
//! kind of engine it was made for. The lock and its guard come from the
//! `spin` crate; what this module says of them is taken on trust and is kept
//! to what a slot needs: make a lock, take it, reach the engine behind the
//! guard. Nothing is known of an engine behind a lock, so none of these
//! promises anything about it.

use std::ops::DerefMut;
use std::sync::Arc;
use vstd::prelude::*;
use crate::engine::{Engine, EngineKind, RootHandle};
use crate::journal::{launched, shut_down, updated, Call};

verus! {

/// `spin::relax::Spin`, the strategy a `spin::mutex::Mutex` waits with
/// unless told otherwise. Carried in the lock's type only.
#[verifier::external_type_specification]
#[verifier::external_body]
pub struct ExSpin(spin::relax::Spin);

/// `spin::mutex::Mutex`, a lock that owns the value it guards. Opaque.
#[verifier::external_type_specification]
#[verifier::external_body]
#[verifier::reject_recursive_types(T)]
#[verifier::reject_recursive_types(R)]
pub struct ExMutex<T: ?Sized, R>(spin::mutex::Mutex<T, R>);

/// `spin::mutex::MutexGuard`, the proof that a lock is held. Dropping it
/// releases the lock. Opaque.
#[verifier::external_type_specification]
#[verifier::external_body]
#[verifier::reject_recursive_types(T)]
pub struct ExMutexGuard<'a, T: 'a + ?Sized>(spin::mutex::MutexGuard<'a, T>);

/// `spin::mutex::Mutex::new` wraps a value in an unlocked lock. Nothing is
/// claimed of the lock it returns.
pub assume_specification<T, R>[ spin::mutex::Mutex::<T, R>::new ](value: T) -> (made: spin::mutex::Mutex<
    T,
    R,
>)
;

/// `spin::mutex::Mutex::lock` waits until the lock is free, takes it and
/// hands out the guard. It returns only once whoever holds the lock has let
/// go of it: a caller that keeps a guard of its own and then has the same lock
/// taken on the same thread waits for ever. Nothing is claimed of the guard.
#[verifier::external_body]
fn lock<'a, T>(slot: &'a spin::mutex::Mutex<T>) -> (guard: spin::mutex::MutexGuard<
    'a,
    T,
>) {
    slot.lock()
}

/// `DerefMut::deref_mut` of `spin::mutex::MutexGuard` gives the guarded
/// value for as long as the guard is borrowed. Nothing is claimed of the
/// value.
#[verifier::external_body]
fn engine_mut<'g, 'a, T>(guard: &'g mut spin::mutex::MutexGuard<'a, T>) -> (engine: &'g mut T) {
    guard.deref_mut()
}

/// `Arc::clone` makes another pointer to the same allocation, so the new
/// handle is the one it was made from.
#[verifier::external_body]
fn another_handle<T>(handle: &Arc<spin::mutex::Mutex<T>>) -> (other: Arc<spin::mutex::Mutex<T>>)
    ensures
        other == *handle,
{
    Arc::clone(handle)
}

/// One sub-engine in shared, lockable ownership, with the kind it stands for.
///
/// Every call is a critical section of its own: the lock is taken, the engine
/// is called once, and the lock is released before the call returns. Each
/// call comes back with its journal entry, made out under the kind of the
/// slot.
#[verifier::reject_recursive_types(E)]
pub(crate) struct Slot<E: Engine> {
    kind: EngineKind,
    engine: Arc<spin::mutex::Mutex<E>>,
}

impl<E: Engine> Slot<E> {
    /// The kind of engine the slot was made for.
    pub(crate) closed spec fn kind(&self) -> EngineKind {
        self.kind
    }

    /// The shared lock that holds the engine.
    pub(crate) closed spec fn shared(&self) -> Arc<spin::mutex::Mutex<E>> {
        self.engine
    }

    /// Puts `engine` into a new slot of its own, as the engine of `kind`.
    pub(crate) fn new(kind: EngineKind, engine: E) -> (slot: Self)
        ensures
            slot.kind() == kind,
    {
        Slot { kind, engine: Arc::new(spin::mutex::Mutex::new(engine)) }
    }

    /// Another handle to the lock that holds the engine.
    pub(crate) fn share(&self) -> (shared: Arc<spin::mutex::Mutex<E>>)
        ensures
            shared == self.shared(),
    {
        another_handle(&self.engine)
    }

    /// Launches the engine. Beside the outcome comes the journal entry for
    /// the call.
    pub(crate) fn launch(&self) -> (res: (Result<(), ()>, Ghost<Call>))
        ensures
            res.1@ == launched(self.kind(), res.0),
    {
        let mut guard = lock(&self.engine);
        let outcome = engine_mut(&mut guard).launch();
        (outcome, Ghost(launched(self.kind(), outcome)))
    }

    /// Shuts the engine down. Beside the outcome comes the journal entry for
    /// the call.
    pub(crate) fn shutdown(&self) -> (res: (Result<(), ()>, Ghost<Call>))
        ensures
            res.1@ == shut_down(self.kind(), res.0),
    {
        let mut guard = lock(&self.engine);
        let outcome = engine_mut(&mut guard).shutdown();
        (outcome, Ghost(shut_down(self.kind(), outcome)))
    }

    /// Updates the engine with a fresh handle. Beside the outcome comes
    /// whether the engine asked for a stop through the handle, and the
    /// journal entry for the call.
    pub(crate) fn update(&self) -> (res: (Result<(), ()>, bool, Ghost<Call>))
        ensures
            res.2@ == updated(self.kind(), res.0, res.1),
    {
        let mut handle = RootHandle::new();
        let mut guard = lock(&self.engine);
        let outcome = engine_mut(&mut guard).update(&mut handle);
        let stop = handle.is_stop_requested();
        (outcome, stop, Ghost(updated(self.kind(), outcome, stop)))
    }
}

} // verus!
