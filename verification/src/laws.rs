use vstd::prelude::*;

use crate::mock::Mock;
use crate::mock::Slot;
use crate::mock_result::MockResult;
use crate::mockable::consult_post;
use crate::mockable::consult_result;
use std::any::TypeId;

verus! {

/// No-mock transparency: for a callable with no installed override,
/// consulting the registry yields `Continue` carrying the arguments
/// unmodified, and leaves the registry untouched — indistinguishable
/// from the interception mechanism not being present.
pub proof fn no_mock_transparency<I, M: Mock<I>>(m: Map<TypeId, Slot<M>>, target: TypeId, input: I)
    requires
        !m.contains_key(target),
    ensures
        consult_result(m, target, input) == MockResult::<I, M::Output>::Continue(input),
        consult_post(m, target, input) == m,
{
}

/// Override precedence: once a behavior is installed for a callable,
/// consulting invokes exactly that behavior — the result is the
/// behavior's own signal, and the entry advances to the behavior's
/// successor state.
pub proof fn override_precedence<I, M: Mock<I>>(
    m: Map<TypeId, Slot<M>>,
    target: TypeId,
    b: M,
    input: I,
)
    requires
        m.contains_key(target),
        m[target] == Slot::Installed(b),
    ensures
        consult_result(m, target, input) == b.signal(input),
        consult_post(m, target, input) == m.insert(target, Slot::Installed(b.post(input))),
{
}

/// Last write wins: installing `b1` and then `b2` for the same callable
/// leaves a registry in which only `b2` exists, so only `b2` is ever
/// invoked afterwards.
pub proof fn last_write_wins<I, M: Mock<I>>(
    m: Map<TypeId, Slot<M>>,
    target: TypeId,
    b1: M,
    b2: M,
    input: I,
)
    ensures
        m.insert(target, Slot::Installed(b1)).insert(target, Slot::Installed(b2)) == m.insert(
            target,
            Slot::Installed(b2),
        ),
        consult_result(
            m.insert(target, Slot::Installed(b1)).insert(target, Slot::Installed(b2)),
            target,
            input,
        ) == b2.signal(input),
{
    assert(m.insert(target, Slot::Installed(b1)).insert(target, Slot::Installed(b2)) =~= m.insert(
        target,
        Slot::Installed(b2),
    ));
}

/// Per-identity isolation: installing a behavior for one callable
/// changes neither the result nor the entry of a consultation for any
/// other callable, however similar their signatures.
pub proof fn per_identity_isolation<I, M: Mock<I>>(
    m: Map<TypeId, Slot<M>>,
    f_id: TypeId,
    g_id: TypeId,
    b: M,
    input: I,
)
    requires
        f_id != g_id,
    ensures
        consult_result(m.insert(f_id, Slot::Installed(b)), g_id, input) == consult_result(
            m,
            g_id,
            input,
        ),
        consult_post(m.insert(f_id, Slot::Installed(b)), g_id, input) == consult_post(
            m,
            g_id,
            input,
        ).insert(f_id, Slot::Installed(b)),
{
    let mf = m.insert(f_id, Slot::Installed(b));
    if m.contains_key(g_id) {
        assert(mf[g_id] == m[g_id]);
        match m[g_id] {
            Slot::Installed(bg) => {
                assert(mf.insert(g_id, Slot::Installed(bg.post(input))) =~= m.insert(
                    g_id,
                    Slot::Installed(bg.post(input)),
                ).insert(f_id, Slot::Installed(b)));
            },
            Slot::InUse => {
            },
        }
    }
}

/// Context teardown: once an execution context has ended, a fresh
/// context carries no trace of it — consulting an empty registry always
/// falls through to the original body, as if no mock was ever
/// installed.
pub proof fn context_teardown<I, M: Mock<I>>(target: TypeId, input: I)
    ensures
        consult_result(Map::<TypeId, Slot<M>>::empty(), target, input) == MockResult::<
            I,
            M::Output,
        >::Continue(input),
        consult_post(Map::<TypeId, Slot<M>>::empty(), target, input) == Map::<
            TypeId,
            Slot<M>,
        >::empty(),
{
}

/// Reentrancy fails open: while a behavior for a callable is
/// mid-invocation its entry is marked in use, and a consultation for
/// the same identity that happens inside that invocation yields
/// `Continue` — the original body runs — rather than re-entering the
/// behavior or deadlocking. The registry is left untouched.
pub proof fn reentrancy_fail_open<I, M: Mock<I>>(m: Map<TypeId, Slot<M>>, target: TypeId, input: I)
    requires
        m.contains_key(target),
        m[target] == Slot::<M>::InUse,
    ensures
        consult_result(m, target, input) == MockResult::<I, M::Output>::Continue(input),
        consult_post(m, target, input) == m,
{
}

} // verus!
