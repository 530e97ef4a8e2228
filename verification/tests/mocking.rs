use mocktopus::behaviors::AlwaysContinue;
use mocktopus::behaviors::AlwaysReturn;
use mocktopus::behaviors::CountingContinue;
use mocktopus::behaviors::DoubleIfEven;
use mocktopus::identity::get_mock_id;
use mocktopus::mock::Mock;
use mocktopus::mock::MockContainer;
use mocktopus::mock::Slot;
use mocktopus::mock_result::MockResult;
use mocktopus::mockable::consult;
use mocktopus::mockable::install_override;
use mocktopus::mockable::Mockable;
use mocktopus::store::MockStore;

fn zero_arg_f() -> u64 {
    5
}

fn zero_arg_g() -> u64 {
    6
}

fn one_arg(x: u64) -> u64 {
    x + 100
}

fn two_arg(x: u64, y: u64) -> u64 {
    x + y
}

#[test]
fn no_mock_transparency_returns_arguments_unchanged() {
    let id = get_mock_id(zero_arg_f);
    let mut store = MockStore::<AlwaysReturn<u64>>::new();
    let r = consult(&mut store, id, (String::from("untouched"), 7u64));
    assert_eq!(
        r,
        MockResult::Continue((String::from("untouched"), 7u64))
    );
}

#[test]
fn override_precedence_returns_mock_result() {
    let id = get_mock_id(zero_arg_f);
    let mut store = MockStore::new();
    install_override(&mut store, id, AlwaysReturn { value: 42u64 });
    let r = consult(&mut store, id, ());
    assert_eq!(r, MockResult::Return(42));
}

#[test]
fn last_write_wins() {
    let id = get_mock_id(zero_arg_f);
    let mut store = MockStore::new();
    install_override(&mut store, id, AlwaysReturn { value: 1u64 });
    install_override(&mut store, id, AlwaysReturn { value: 2u64 });
    let r = consult(&mut store, id, ());
    assert_eq!(r, MockResult::Return(2));
    let again = consult(&mut store, id, ());
    assert_eq!(again, MockResult::Return(2));
}

#[test]
fn per_identity_isolation_two_zero_arg_callables() {
    let f_id = get_mock_id(zero_arg_f);
    let g_id = get_mock_id(zero_arg_g);
    assert_ne!(f_id, g_id);
    let mut store = MockStore::new();
    install_override(&mut store, f_id, AlwaysReturn { value: 42u64 });
    assert_eq!(consult(&mut store, f_id, ()), MockResult::Return(42));
    assert_eq!(consult(&mut store, g_id, ()), MockResult::Continue(()));
}

#[test]
fn identity_depends_on_callable_type_not_signature() {
    // Same signature, distinct callables: distinct identities.
    assert_ne!(get_mock_id(zero_arg_f), get_mock_id(zero_arg_g));
    // The same callable resolves to the same identity every time.
    assert_eq!(get_mock_id(zero_arg_f), get_mock_id(zero_arg_f));
}

#[test]
fn context_teardown_leaves_no_trace() {
    let id = get_mock_id(zero_arg_f);
    {
        let mut first_context = MockStore::new();
        install_override(&mut first_context, id, AlwaysReturn { value: 9u64 });
        assert_eq!(consult(&mut first_context, id, ()), MockResult::Return(9));
    }
    let mut fresh_context = MockStore::<AlwaysReturn<u64>>::new();
    assert_eq!(consult(&mut fresh_context, id, ()), MockResult::Continue(()));
}

#[test]
fn reentrancy_guard_fails_open_while_borrowed() {
    let id = get_mock_id(zero_arg_f);
    let mut store = MockStore::new();
    install_override(&mut store, id, AlwaysReturn { value: 7u64 });
    assert!(!store.is_locked(id));

    // Take the behavior for an invocation: the entry is now in use, as
    // it is whenever the behavior itself is running. A consultation for
    // the same identity from inside that window falls through.
    let borrowed = store.lookup_and_borrow(id);
    assert!(borrowed.is_some());
    assert!(store.is_locked(id));
    assert_eq!(consult(&mut store, id, ()), MockResult::Continue(()));

    // A second exclusive borrow fails open as well.
    assert!(store.lookup_and_borrow(id).is_none());

    store.restore(id, borrowed.unwrap());
    assert!(!store.is_locked(id));
    assert_eq!(consult(&mut store, id, ()), MockResult::Return(7));
}

#[test]
fn install_during_borrow_wins_over_restore() {
    let id = get_mock_id(zero_arg_f);
    let mut store = MockStore::new();
    install_override(&mut store, id, AlwaysReturn { value: 1u64 });
    let borrowed = store.lookup_and_borrow(id).unwrap();
    // A fresh installation while the old behavior is out replaces the
    // entry outright; giving the old behavior back must not clobber it.
    install_override(&mut store, id, AlwaysReturn { value: 2u64 });
    store.restore(id, borrowed);
    assert_eq!(consult(&mut store, id, ()), MockResult::Return(2));
}

#[test]
fn double_if_even_scenario() {
    let id = get_mock_id(one_arg);
    let mut store = MockStore::new();
    install_override(&mut store, id, DoubleIfEven {});
    assert_eq!(consult(&mut store, id, (4u64,)), MockResult::Return(8));
    match consult(&mut store, id, (3u64,)) {
        MockResult::Continue(args) => {
            // The interception fell through: the real body runs with the
            // arguments carried back.
            assert_eq!(args, (3u64,));
            assert_eq!(one_arg(args.0), 103);
        }
        MockResult::Return(v) => panic!("expected fall-through, got Return({v})"),
    }
}

#[test]
fn always_continue_is_observably_a_no_op() {
    let id = get_mock_id(two_arg);
    let mut store = MockStore::new();
    install_override(&mut store, id, AlwaysContinue::<u64>::new());
    let r = consult(&mut store, id, (20u64, 3u64));
    assert_eq!(r, MockResult::Continue((20u64, 3u64)));
    match r {
        MockResult::Continue((x, y)) => assert_eq!(two_arg(x, y), 23),
        MockResult::Return(_) => unreachable!(),
    }
}

#[test]
fn counting_behavior_state_advances_between_calls() {
    let id = get_mock_id(zero_arg_f);
    let mut store = MockStore::new();
    install_override(&mut store, id, CountingContinue { calls: 0 });
    assert_eq!(consult(&mut store, id, ()), MockResult::Continue(()));
    assert_eq!(consult(&mut store, id, ()), MockResult::Continue(()));
    let behavior = store.lookup_and_borrow(id).unwrap();
    assert_eq!(behavior.calls, 2);
    store.restore(id, behavior);
}

#[test]
fn fake_call_unwraps_the_short_circuit_value() {
    let mut behavior = AlwaysReturn { value: 31u64 };
    let v: u64 = behavior.fake_call(());
    assert_eq!(v, 31);
}

#[test]
fn call_mock_invokes_the_behavior_directly() {
    let mut behavior = DoubleIfEven {};
    assert_eq!(behavior.call_mock((10u64,)), MockResult::Return(20));
    assert_eq!(behavior.call_mock((11u64,)), MockResult::Continue((11u64,)));
}

#[test]
fn into_mock_container_tags_the_entry() {
    let id = get_mock_id(zero_arg_f);
    let container: MockContainer<AlwaysReturn<u64>> =
        <AlwaysReturn<u64> as Mock<()>>::into_mock_container(AlwaysReturn { value: 5u64 }, id);
    assert_eq!(container.id, id);
    assert!(matches!(container.slot, Slot::Installed(AlwaysReturn { value: 5 })));
}

#[test]
fn mockable_facade_on_plain_functions() {
    let mut store = MockStore::new();
    zero_arg_f.mock_safe(&mut store, AlwaysReturn { value: 77u64 });
    assert_eq!(zero_arg_f.call_mock(&mut store, ()), MockResult::Return(77));
    // A different callable of the same signature is untouched.
    assert_eq!(zero_arg_g.call_mock(&mut store, ()), MockResult::Continue(()));
}

#[test]
fn mockable_facade_one_argument() {
    let mut store = MockStore::new();
    one_arg.mock_safe(&mut store, DoubleIfEven {});
    assert_eq!(one_arg.call_mock(&mut store, (6u64,)), MockResult::Return(12));
    assert_eq!(
        one_arg.call_mock(&mut store, (5u64,)),
        MockResult::Continue((5u64,))
    );
}
