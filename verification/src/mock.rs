use vstd::prelude::*;

use crate::mock_result::MockResult;
use std::any::TypeId;

verus! {

/// How a registry entry currently holds its replacement behavior.
#[derive(Debug)]
pub enum Slot<M> {
    /// The behavior is present and may be taken for an invocation.
    Installed(M),
    /// The behavior has been taken exclusively for an invocation that has
    /// not yet finished. A lookup that finds this state fails open: the
    /// intercepted call falls through to the original body instead of
    /// re-entering the behavior.
    InUse,
}

/// One registry entry: a replacement behavior slot tagged with the
/// identity of the callable it replaces. The tag is what keeps entries
/// for distinct callables apart inside one store.
#[derive(Debug)]
pub struct MockContainer<M> {
    pub id: TypeId,
    pub slot: Slot<M>,
}

/// A replacement behavior for an intercepted callable taking the
/// argument tuple `I`.
///
/// A behavior is stateful: each invocation may change its captured
/// state. Its observable behavior is pinned down by two specification
/// functions: [`Mock::signal`], the `MockResult` the next invocation
/// produces, and [`Mock::post`], the state it leaves behind. Every
/// invocation is deterministic in the behavior's own state and the
/// arguments.
pub trait Mock<I>: Sized {
    type Output;

    /// The outcome an invocation produces in state `self` with `input`.
    spec fn signal(&self, input: I) -> MockResult<I, Self::Output>;

    /// The behavior's state after an invocation in state `self` with `input`.
    spec fn post(&self, input: I) -> Self;

    /// Invokes the behavior once with the intercepted arguments.
    fn call_mock(&mut self, input: I) -> (r: MockResult<I, Self::Output>)
        ensures
            r == old(self).signal(input),
            *final(self) == old(self).post(input),
    ;

    /// Invokes the behavior and unwraps the short-circuit value.
    ///
    /// Only callable when the behavior is known to short-circuit: on an
    /// input the behavior would pass through, there is no value to hand
    /// back.
    fn fake_call(&mut self, input: I) -> (r: Self::Output)
        requires
            old(self).signal(input) is Return,
        ensures
            MockResult::<I, Self::Output>::Return(r) == old(self).signal(input),
            *final(self) == old(self).post(input),
    {
        match self.call_mock(input) {
            MockResult::Return(r) => r,
            MockResult::Continue(_) => vstd::pervasive::unreached(),
        }
    }

    /// Wraps the behavior into a registry entry for the callable whose
    /// identity is `target`. The explicit tag is the checked replacement
    /// for erased storage: an entry can only ever be read back under the
    /// identity it was built for.
    fn into_mock_container(self, target: TypeId) -> (r: MockContainer<Self>)
        ensures
            r.id == target,
            r.slot == Slot::Installed(self),
    {
        MockContainer { id: target, slot: Slot::Installed(self) }
    }
}

/// Marker capability carried by every behavior that can be stored in a
/// registry. Storage in this crate is statically typed per behavior
/// type, so every [`Mock`] qualifies; the associated `Output` names the
/// result type the storage discipline preserves.
pub trait SafeMock<I> {
    type Output;
}

impl<I, M: Mock<I>> SafeMock<I> for M {
    type Output = M::Output;
}

} // verus!
