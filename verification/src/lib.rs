//! Runtime core of a function-interception (mocking) mechanism.
//!
//! A caller installs a *replacement behavior* for a specific callable,
//! scoped to one execution context (a [`store::MockStore`]), and
//! instrumented code later consults that context at function entry:
//! either the replacement runs and decides the outcome, or the call
//! falls through to the original body.
//!
//! The two-outcome protocol is [`mock_result::MockResult`]; behaviors
//! implement [`mock::Mock`]; identity of a callable is resolved by
//! [`identity::get_mock_id`]; the facade operations are
//! [`mockable::install_override`] and [`mockable::consult`].

pub mod behaviors;
pub mod identity;
pub mod laws;
pub mod mock;
pub mod mock_result;
pub mod mockable;
pub mod store;
