use duchess::array::{JavaArray, JavaArrayExt};
use duchess::binding::{
    cached_class_descriptor, class_descriptor, Class, FindClass, JavaObject, Object,
};
use duchess::protocol::{JvmOp, Step};
use duchess::error::Error;
use duchess::exception::Throwable;
use duchess::reference::{
    as_local, assert_not_null, promote_to_global, AsJRef, Global, Handle, Local,
};
use duchess::runtime::Runtime;
use duchess::scope::{enter_scope, leave_scope};

#[test]
fn null_address_is_no_handle() {
    assert_eq!(Handle::from_raw(0), None);
    assert_eq!(Handle::from_raw(42).map(|h| h.as_raw()), Some(42));
    assert_eq!(Handle::from_raw(usize::MAX).map(|h| h.as_raw()), Some(usize::MAX));
}

#[test]
fn references_give_their_object_and_null_gives_none() {
    let handle = Handle::from_raw(12).unwrap();
    let local: Local<JavaArray<i8>> = Local::from_handle(handle);
    assert_eq!(local.as_jref(), Ok(handle));
    assert_eq!(Some(local).as_jref(), Ok(handle));
    let null: Option<Local<JavaArray<i8>>> = None;
    assert_eq!(null.as_jref(), Err(Error::NullDeref));
    let global: Global<JavaArray<i8>> = Global::from_handle(handle);
    assert_eq!(global.as_jref(), Ok(handle));
    assert_eq!((&global).as_jref(), Ok(handle));
}

#[test]
fn widening_keeps_the_reference() {
    let handle = Handle::from_raw(12).unwrap();
    let local: Local<JavaArray<i32>> = Local::from_handle(handle);
    let wide: Local<Object> = local.upcast();
    assert_eq!(wide.handle(), handle);
    let global: Global<Throwable> = Global::from_handle(handle);
    let wide: Global<Object> = global.upcast();
    assert_eq!(wide.handle(), handle);
}

#[test]
fn global_reference_is_on_record_until_it_is_released() {
    let mut jvm: Runtime<i8> = Runtime::new(4);
    let array = jvm.execute(JavaArray::from_native_slice(&[1i8, 2])).unwrap();
    let array = &array;
    let global: Global<JavaArray<i8>> = jvm.execute(promote_to_global(array)).unwrap();
    assert_eq!(global.handle(), array.handle());
    assert_eq!(jvm.globals(), vec![array.handle()]);
    assert_eq!(jvm.execute((&global).length()), Ok(2));
    assert_eq!(jvm.execute(global.release()), Ok(()));
    assert_eq!(jvm.globals(), vec![]);
    assert!(!jvm.faulted());
}

#[test]
fn release_of_what_is_not_on_record_is_a_fault_of_the_caller() {
    let mut jvm: Runtime<i8> = Runtime::new(4);
    let array = jvm.execute(JavaArray::from_native_slice(&[1i8, 2])).unwrap();
    let array = &array;
    let global: Global<JavaArray<i8>> = jvm.execute(promote_to_global(array)).unwrap();
    let forged: Global<JavaArray<i8>> = Global::from_handle(global.handle());
    assert_eq!(jvm.execute(global.release()), Ok(()));
    assert!(!jvm.faulted());
    assert_eq!(jvm.execute(forged.release()), Ok(()));
    assert!(jvm.faulted());
}

#[test]
fn release_takes_the_reference_that_was_made_last() {
    let mut jvm: Runtime<i8> = Runtime::new(4);
    let first = jvm.execute(JavaArray::from_native_slice(&[1i8])).unwrap();
    let first = &first;
    let second = jvm.execute(JavaArray::from_native_slice(&[2i8])).unwrap();
    let second = &second;
    let a: Global<JavaArray<i8>> = jvm.execute(promote_to_global(first)).unwrap();
    let _b: Global<JavaArray<i8>> = jvm.execute(promote_to_global(second)).unwrap();
    let _c: Global<JavaArray<i8>> = jvm.execute(promote_to_global(first)).unwrap();
    assert_eq!(jvm.globals(), vec![first.handle(), second.handle(), first.handle()]);
    assert_eq!(jvm.execute(a.release()), Ok(()));
    assert_eq!(jvm.globals(), vec![first.handle(), second.handle()]);
}

#[test]
fn global_reference_that_cannot_be_made_is_an_error() {
    let mut jvm: Runtime<i8> = Runtime::bounded(4, 4, 1);
    let array = jvm.execute(JavaArray::from_native_slice(&[1i8])).unwrap();
    let array = &array;
    let first: Result<Global<JavaArray<i8>>, Error> = jvm.execute(promote_to_global(array));
    assert!(first.is_ok());
    let second: Result<Global<JavaArray<i8>>, Error> = jvm.execute(promote_to_global(array));
    match second {
        Err(Error::JvmInternal(text)) => assert_eq!(text, "failed to create a global reference"),
        _ => panic!("expected an internal error"),
    }
    assert_eq!(jvm.globals(), vec![array.handle()]);
    assert!(!jvm.faulted());
}

#[test]
fn exhausted_table_of_local_references_is_an_error() {
    let mut jvm: Runtime<i8> = Runtime::bounded(4, 2, 4);
    let array = jvm.execute(JavaArray::from_native_slice(&[1i8])).unwrap();
    let array = &array;
    let global: Global<JavaArray<i8>> = jvm.execute(promote_to_global(array)).unwrap();
    let first: Local<JavaArray<i8>> = jvm.execute(as_local(&global)).unwrap();
    assert_eq!(first.handle(), array.handle());
    let second: Result<Local<JavaArray<i8>>, Error> = jvm.execute(as_local(&global));
    assert!(second.is_ok());
    assert_eq!(jvm.locals(), 2);
    let third: Result<Local<JavaArray<i8>>, Error> = jvm.execute(as_local(&global));
    match third {
        Err(Error::JvmInternal(text)) => {
            assert_eq!(text, "the table of local references is exhausted")
        },
        _ => panic!("expected an internal error"),
    }
    assert_eq!(jvm.locals(), 2);
    assert!(!jvm.faulted());
}

#[test]
fn null_cannot_be_promoted() {
    let mut jvm: Runtime<i8> = Runtime::new(4);
    let null: Option<Local<JavaArray<i8>>> = None;
    let result: Result<Global<JavaArray<i8>>, Error> = jvm.execute(promote_to_global(null));
    assert!(matches!(result, Err(Error::NullDeref)));
    assert_eq!(jvm.globals(), vec![]);
}

#[test]
fn class_of_the_arrays_resolves_under_its_descriptor() {
    let mut jvm: Runtime<i64> = Runtime::new(4);
    let class = jvm.execute(JavaArray::<i64>::class()).unwrap();
    assert_eq!(class.handle(), Runtime::<i64>::array_class());
    assert_eq!(class.handle().as_raw(), 5);
    assert_eq!(<JavaArray<i64> as JavaObject>::class_name(), "[J");
    let same = jvm.execute(FindClass::named("[J")).unwrap();
    assert_eq!(same.handle(), class.handle());
    assert!(!jvm.faulted());
}

#[test]
fn classes_resolve_by_name_to_the_first_of_that_name() {
    let mut jvm: Runtime<i8> = Runtime::new(4);
    let throwable = jvm.execute(class_descriptor::<Throwable>()).unwrap();
    assert_eq!(throwable.handle(), Runtime::<i8>::throwable_class());
    let root = Runtime::<i8>::throwable_class();
    let first = jvm.define_class("auth/HttpAuth", root).unwrap();
    let _second = jvm.define_class("auth/HttpAuth", root).unwrap();
    assert_eq!(jvm.execute(FindClass::named("auth/HttpAuth")).unwrap().handle(), first);
}

#[test]
fn class_that_is_not_there_is_a_failure() {
    let mut jvm: Runtime<i8> = Runtime::new(4);
    let result = jvm.execute(FindClass::named("auth/Missing"));
    match result {
        Err(Error::Thrown(thrown)) => assert_eq!(thrown.as_raw(), 8),
        _ => panic!("expected the exception for a missing class"),
    }
    assert_eq!(jvm.pending(), None);
    assert!(!jvm.faulted());
    let other: Runtime<i8> = Runtime::new(4);
    assert_eq!(other.pending(), None);
    assert_eq!(<Object as JavaObject>::class_name(), "java/lang/Object");
    assert_eq!(<Class as JavaObject>::class_name(), "java/lang/Class");
    assert_eq!(<Throwable as JavaObject>::class_name(), "java/lang/Throwable");
}

#[test]
fn class_that_is_null_without_an_exception_is_an_internal_error() {
    assert_eq!(
        Error::class_not_found("auth/Missing"),
        Error::JvmInternal("failed to find class `auth/Missing`".to_string())
    );
}

#[test]
fn null_where_none_may_be_is_refused() {
    let mut jvm: Runtime<i8> = Runtime::new(4);
    let array = jvm.execute(JavaArray::from_native_slice(&[1i8])).unwrap();
    let array = &array;
    let maybe: Option<Local<JavaArray<i8>>> = Some(Local::from_handle(array.handle()));
    let there: Local<JavaArray<i8>> = jvm.execute(assert_not_null(maybe)).unwrap();
    assert_eq!(there.handle(), array.handle());
    let null: Option<Local<JavaArray<i8>>> = None;
    let refused: Result<Local<JavaArray<i8>>, Error> = jvm.execute(assert_not_null(null));
    assert!(matches!(refused, Err(Error::NullDeref)));
    assert!(!jvm.faulted());
}

#[test]
fn class_that_was_resolved_is_not_asked_for_again() {
    let mut jvm: Runtime<i8> = Runtime::new(4);
    let mut known: Option<Global<Class>> = None;
    let first = jvm.execute(cached_class_descriptor::<Throwable>(&known)).unwrap();
    known = Some(jvm.execute(promote_to_global(&first)).unwrap());
    let again = cached_class_descriptor::<Throwable>(&known);
    match JvmOp::<i8>::step(again, None) {
        Step::Done(Ok(class)) => assert_eq!(class.handle(), first.handle()),
        _ => panic!("expected the class without a call"),
    }
}

#[test]
fn scope_takes_its_local_references_with_it() {
    let mut jvm: Runtime<i8> = Runtime::bounded(4, 8, 4);
    let array = jvm.execute(JavaArray::from_native_slice(&[1i8])).unwrap();
    let array = &array;
    let _outer: Local<JavaArray<i8>> = jvm.execute(as_local(array)).unwrap();
    assert_eq!(jvm.locals(), 1);
    assert_eq!(jvm.execute(enter_scope(4)), Ok(()));
    let _a: Local<JavaArray<i8>> = jvm.execute(as_local(array)).unwrap();
    let _b: Local<JavaArray<i8>> = jvm.execute(as_local(array)).unwrap();
    assert_eq!(jvm.locals(), 3);
    assert_eq!(jvm.execute(enter_scope(1)), Ok(()));
    let _c: Local<JavaArray<i8>> = jvm.execute(as_local(array)).unwrap();
    assert_eq!(jvm.execute(leave_scope()), Ok(()));
    assert_eq!(jvm.locals(), 3);
    assert_eq!(jvm.execute(leave_scope()), Ok(()));
    assert_eq!(jvm.locals(), 1);
    assert!(!jvm.faulted());
}

#[test]
fn scope_without_room_is_an_error_and_leaves_nothing_pending() {
    let mut jvm: Runtime<i8> = Runtime::bounded(4, 2, 4);
    match jvm.execute(enter_scope(3)) {
        Err(Error::JvmInternal(text)) => {
            assert_eq!(text, "the table of local references is exhausted")
        },
        _ => panic!("expected an internal error"),
    }
    assert_eq!(jvm.pending(), None);
    assert!(!jvm.faulted());
    assert_eq!(jvm.execute(enter_scope(2)), Ok(()));
    assert!(matches!(jvm.execute(enter_scope(0x8000_0000)), Err(Error::JvmInternal(_))));
    assert!(!jvm.faulted());
}

#[test]
fn closing_a_scope_that_is_not_open_is_a_fault_of_the_caller() {
    let mut jvm: Runtime<i8> = Runtime::new(4);
    assert_eq!(jvm.execute(leave_scope()), Ok(()));
    assert!(jvm.faulted());
}
