use vstd::prelude::*;

use std::any::Any;
use std::any::TypeId;

verus! {

/// Declares `std::any::TypeId` so that identities can appear in verified
/// signatures and fields. Values of it are opaque to the verifier.
#[verifier::external_type_specification]
#[verifier::external_body]
pub struct ExTypeId(TypeId);

/// Relies on `std::any::Any::type_id`, called on a closure defined
/// inside this generic function: each monomorphization has its own
/// closure type, so each distinct `T` receives its own identifier,
/// stable across calls within one program.
#[verifier::external_body]
fn type_token_of<T>(_target: T) -> TypeId {
    (|| ()).type_id()
}

/// Derives the registry key for a callable value.
///
/// The identity is derived from the callable's static type, not from
/// its value: all instances of the same named function share one
/// registry slot, and two distinct closures that happen to share a type
/// collapse into one identity. That is a deliberate limitation of the
/// type-based identity scheme.
pub fn get_mock_id<T>(target: T) -> TypeId {
    type_token_of(target)
}

/// Relies on `TypeId`'s `PartialEq`: two `TypeId` values compare equal
/// exactly when they are the same identifier.
#[verifier::external_body]
pub(crate) fn type_id_eq(a: &TypeId, b: &TypeId) -> (r: bool)
    ensures
        r == (a == b),
{
    a == b
}

} // verus!
