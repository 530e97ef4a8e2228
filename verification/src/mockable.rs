use vstd::prelude::*;

use crate::identity::get_mock_id;
use crate::mock::Mock;
use crate::mock::Slot;
use crate::mock_result::MockResult;
use crate::store::MockStore;
use std::any::TypeId;

verus! {

/// The outcome of consulting a registry in state `m` for the identity
/// `target` with the intercepted arguments `input`: the installed
/// behavior's signal when one is installed and free, and `Continue`
/// with the arguments untouched when the identity has no entry or its
/// entry is already in use (the reentrancy guard failing open).
pub open spec fn consult_result<I, M: Mock<I>>(
    m: Map<TypeId, Slot<M>>,
    target: TypeId,
    input: I,
) -> MockResult<I, M::Output> {
    if m.contains_key(target) {
        match m[target] {
            Slot::Installed(b) => b.signal(input),
            Slot::InUse => MockResult::Continue(input),
        }
    } else {
        MockResult::Continue(input)
    }
}

/// The registry state after consulting `m` for `target` with `input`:
/// an installed behavior is replaced by its successor state, and a
/// missing or in-use entry leaves the registry untouched.
pub open spec fn consult_post<I, M: Mock<I>>(
    m: Map<TypeId, Slot<M>>,
    target: TypeId,
    input: I,
) -> Map<TypeId, Slot<M>> {
    if m.contains_key(target) {
        match m[target] {
            Slot::Installed(b) => m.insert(target, Slot::Installed(b.post(input))),
            Slot::InUse => m,
        }
    } else {
        m
    }
}

/// Installs `mock` as the replacement behavior for the callable with
/// identity `target`, in the execution context owned by `store`.
/// Unconditionally replaces any earlier installation for the same
/// identity: the last write wins.
pub fn install_override<M>(store: &mut MockStore<M>, target: TypeId, mock: M)
    requires
        old(store).wf(),
    ensures
        final(store).wf(),
        final(store)@ == old(store)@.insert(target, Slot::Installed(mock)),
{
    store.install(target, mock);
}

/// Consults the registry at the entry of an intercepted function.
///
/// If a behavior is installed for `target` and not already mid-invocation,
/// it is invoked exclusively with the intercepted arguments and its
/// `MockResult` is returned; the entry is marked in use for the whole
/// invocation and afterwards holds the behavior's successor state.
/// Otherwise the arguments come back unchanged in `Continue`, telling
/// the intercepted function to run its real body.
pub fn consult<I, M: Mock<I>>(store: &mut MockStore<M>, target: TypeId, input: I) -> (r:
    MockResult<I, M::Output>)
    requires
        old(store).wf(),
    ensures
        final(store).wf(),
        r == consult_result(old(store)@, target, input),
        final(store)@ == consult_post(old(store)@, target, input),
{
    match store.lookup_and_borrow(target) {
        None => MockResult::Continue(input),
        Some(mut m) => {
            let r = m.call_mock(input);
            store.restore(target, m);
            proof {
                assert(store@ =~= consult_post(old(store)@, target, input));
            }
            r
        },
    }
}

/// Trait for setting up mocks on callables.
///
/// It is implemented for every function and closure of up to three
/// arguments, so its methods can be called on any such callable. The
/// identity a callable resolves to is derived from its static type and
/// is opaque to the verifier, so these methods promise only that they
/// installed or consulted *some* identity; the fully pinned-down
/// contracts are on [`install_override`] and [`consult`], which take
/// the identity explicitly.
pub trait Mockable<I>: Sized {
    type Output;

    /// The identity under which this callable's mocks are registered.
    fn mock_id(&self) -> TypeId;

    /// Installs `mock` for this callable in the given execution
    /// context; the last installation wins.
    fn mock_safe<M: Mock<I, Output = Self::Output>>(&self, store: &mut MockStore<M>, mock: M)
        requires
            old(store).wf(),
        ensures
            final(store).wf(),
            exists|id: TypeId| final(store)@ == old(store)@.insert(id, Slot::Installed(mock)),
    {
        let id = self.mock_id();
        install_override(store, id, mock);
        proof {
            assert(store@ == old(store)@.insert(id, Slot::Installed(mock)));
        }
    }

    /// Consults the execution context for this callable with the
    /// intercepted arguments.
    fn call_mock<M: Mock<I, Output = Self::Output>>(&self, store: &mut MockStore<M>, input: I) -> (r:
        MockResult<I, Self::Output>)
        requires
            old(store).wf(),
        ensures
            final(store).wf(),
            exists|id: TypeId|
                r == consult_result(old(store)@, id, input) && final(store)@ == consult_post(
                    old(store)@,
                    id,
                    input,
                ),
    {
        let id = self.mock_id();
        let r = consult(store, id, input);
        proof {
            assert(r == consult_result(old(store)@, id, input) && store@ == consult_post(
                old(store)@,
                id,
                input,
            ));
        }
        r
    }
}

impl<O, F: Fn() -> O> Mockable<()> for F {
    type Output = O;

    fn mock_id(&self) -> TypeId {
        get_mock_id(self)
    }
}

impl<I1, O, F: Fn(I1) -> O> Mockable<(I1,)> for F {
    type Output = O;

    fn mock_id(&self) -> TypeId {
        get_mock_id(self)
    }
}

impl<I1, I2, O, F: Fn(I1, I2) -> O> Mockable<(I1, I2)> for F {
    type Output = O;

    fn mock_id(&self) -> TypeId {
        get_mock_id(self)
    }
}

impl<I1, I2, I3, O, F: Fn(I1, I2, I3) -> O> Mockable<(I1, I2, I3)> for F {
    type Output = O;

    fn mock_id(&self) -> TypeId {
        get_mock_id(self)
    }
}

} // verus!
