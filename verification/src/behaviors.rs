use vstd::prelude::*;

use crate::mock::Mock;
use crate::mock::Slot;
use crate::mock_result::MockResult;
use crate::mockable::consult_post;
use crate::mockable::consult_result;
use core::marker::PhantomData;
use std::any::TypeId;

verus! {

/// A no-operation replacement: every invocation lets the original body
/// run with the arguments unchanged. Installing it is observably
/// identical to installing nothing, apart from the invocation itself
/// having happened.
pub struct AlwaysContinue<O> {
    marker: PhantomData<O>,
}

impl<O> AlwaysContinue<O> {
    pub fn new() -> (r: Self) {
        AlwaysContinue { marker: PhantomData }
    }
}

impl<I, O> Mock<I> for AlwaysContinue<O> {
    type Output = O;

    open spec fn signal(&self, input: I) -> MockResult<I, O> {
        MockResult::Continue(input)
    }

    open spec fn post(&self, _input: I) -> Self {
        *self
    }

    fn call_mock(&mut self, input: I) -> (r: MockResult<I, O>) {
        MockResult::Continue(input)
    }
}

/// An installed [`AlwaysContinue`] behaves identically to nothing being
/// installed: the consultation yields `Continue` with the arguments
/// unmodified and the registry is left as it was — the only difference
/// is that the behavior itself was invoked.
pub proof fn no_op_behavior_is_transparent<I, O>(
    m: Map<TypeId, Slot<AlwaysContinue<O>>>,
    target: TypeId,
    input: I,
)
    requires
        m.contains_key(target),
        m[target] is Installed,
    ensures
        consult_result(m, target, input) == MockResult::<I, O>::Continue(input),
        consult_post(m, target, input) == m,
{
    match m[target] {
        Slot::Installed(b) => {
            assert(m.insert(target, Slot::Installed(b.post(input))) =~= m);
        },
        Slot::InUse => {
        },
    }
}

/// A replacement that always short-circuits the intercepted call with
/// the stored value, whatever the arguments.
pub struct AlwaysReturn<O> {
    pub value: O,
}

impl<I, O: Copy> Mock<I> for AlwaysReturn<O> {
    type Output = O;

    open spec fn signal(&self, _input: I) -> MockResult<I, O> {
        MockResult::Return(self.value)
    }

    open spec fn post(&self, _input: I) -> Self {
        *self
    }

    fn call_mock(&mut self, _input: I) -> (r: MockResult<I, O>) {
        MockResult::Return(self.value)
    }
}

/// A sample one-argument behavior: an even argument small enough to
/// double without overflow is short-circuited with its double, and any
/// other argument continues unchanged to the original body.
pub struct DoubleIfEven {}

impl Mock<(u64,)> for DoubleIfEven {
    type Output = u64;

    open spec fn signal(&self, input: (u64,)) -> MockResult<(u64,), u64> {
        if input.0 % 2 == 0 && input.0 <= 0x7fff_ffff_ffff_ffff {
            MockResult::Return((2 * input.0) as u64)
        } else {
            MockResult::Continue(input)
        }
    }

    open spec fn post(&self, _input: (u64,)) -> Self {
        *self
    }

    fn call_mock(&mut self, input: (u64,)) -> (r: MockResult<(u64,), u64>) {
        if input.0 % 2 == 0 && input.0 <= 0x7fff_ffff_ffff_ffff {
            MockResult::Return(2 * input.0)
        } else {
            MockResult::Continue(input)
        }
    }
}

/// A counting replacement: passes every call through to the original
/// body unchanged, while keeping count of how often the intercepted
/// callable was reached. The count shows that a pass-through behavior
/// really was invoked, which nothing in the call's outcome reveals.
pub struct CountingContinue {
    pub calls: u64,
}

impl<I> Mock<I> for CountingContinue {
    type Output = u64;

    open spec fn signal(&self, input: I) -> MockResult<I, u64> {
        MockResult::Continue(input)
    }

    open spec fn post(&self, _input: I) -> Self {
        CountingContinue { calls: if self.calls < u64::MAX { (self.calls + 1) as u64 } else { self.calls } }
    }

    fn call_mock(&mut self, input: I) -> (r: MockResult<I, u64>) {
        if self.calls < u64::MAX {
            self.calls = self.calls + 1;
        }
        MockResult::Continue(input)
    }
}

} // verus!
