use duchess::array::{JavaArray, JavaArrayModificationExt};
use duchess::error::Error;
use duchess::exception::{Completion, GetMessage, Message, Raise, Throwable, TryCatch};
use duchess::reference::{Handle, Local};
use duchess::runtime::Runtime;

#[test]
fn first_declared_match_takes_the_exception() {
    let mut jvm: Runtime<i8> = Runtime::new(8);
    let array = jvm.execute(JavaArray::from_native_slice(&[1i8, 2])).unwrap();
    let array = &array;
    let failing = array.set_array_region(2, &[3]);
    let op = TryCatch::new(failing)
        .catch(Runtime::<i8>::out_of_memory_class())
        .catch(Runtime::<i8>::out_of_bounds_class())
        .catch(Runtime::<i8>::throwable_class());
    let thrown = Handle::from_raw(7).unwrap();
    assert_eq!(jvm.execute(op), Ok(Completion::Caught { branch: 1, thrown }));
    assert_eq!(
        jvm.asked(),
        vec![
            (thrown, Runtime::<i8>::out_of_memory_class()),
            (thrown, Runtime::<i8>::out_of_bounds_class()),
        ]
    );
    assert_eq!(jvm.pending(), None);
    assert!(!jvm.faulted());
}

#[test]
fn catch_of_an_ancestor_takes_what_a_later_catch_would_take() {
    let mut jvm: Runtime<i8> = Runtime::new(8);
    let array = jvm.execute(JavaArray::from_native_slice(&[1i8, 2])).unwrap();
    let array = &array;
    let op = TryCatch::new(array.set_array_region(5, &[3]))
        .catch(Runtime::<i8>::throwable_class())
        .catch(Runtime::<i8>::out_of_bounds_class());
    let thrown = Handle::from_raw(7).unwrap();
    assert_eq!(jvm.execute(op), Ok(Completion::Caught { branch: 0, thrown }));
    assert_eq!(jvm.asked(), vec![(thrown, Runtime::<i8>::throwable_class())]);
}

#[test]
fn what_returns_is_returned_and_nothing_is_asked() {
    let mut jvm: Runtime<i8> = Runtime::new(8);
    let array = jvm.execute(JavaArray::from_native_slice(&[1i8, 2])).unwrap();
    let array = &array;
    let op = TryCatch::new(array.set_array_region(1, &[3]))
        .catch(Runtime::<i8>::out_of_bounds_class());
    assert_eq!(jvm.execute(op), Ok(Completion::Returned(())));
    assert_eq!(jvm.asked(), vec![]);
    assert_eq!(jvm.elements(array.handle()), Some(vec![1, 3]));
}

#[test]
fn unmatched_exception_comes_back_with_its_message() {
    let mut jvm: Runtime<i8> = Runtime::new(8);
    let root = Runtime::<i8>::throwable_class();
    let denied = jvm.define_class("auth/AuthorizationExceptionDenied", root).unwrap();
    let unknown = jvm.define_class("auth/Unknown", root).unwrap();
    let thrown = jvm.new_throwable(unknown, Some("no such account".to_string())).unwrap();
    let raise = Raise { stage: duchess::exception::Raising::Target(throwable(thrown)) };
    let op = TryCatch::new(raise)
        .catch(denied)
        .catch(Runtime::<i8>::out_of_bounds_class());
    assert_eq!(
        jvm.execute(op),
        Err(Error::Uncaught { thrown, message: Some("no such account".to_string()) })
    );
    assert_eq!(
        jvm.asked(),
        vec![(thrown, denied), (thrown, Runtime::<i8>::out_of_bounds_class())]
    );
    assert_eq!(jvm.pending(), None);
    assert!(!jvm.faulted());
}

#[test]
fn unmatched_exception_without_catches_asks_nothing() {
    let mut jvm: Runtime<i8> = Runtime::new(8);
    let array = jvm.execute(JavaArray::from_native_slice(&[1i8])).unwrap();
    let array = &array;
    let op = TryCatch::new(array.set_array_region(1, &[3]));
    let thrown = Handle::from_raw(7).unwrap();
    assert_eq!(jvm.execute(op), Err(Error::Uncaught { thrown, message: None }));
    assert_eq!(jvm.asked(), vec![]);
}

#[test]
fn failed_authentication_is_caught_as_unauthenticated_with_its_message() {
    let mut jvm: Runtime<i8> = Runtime::new(8);
    let root = Runtime::<i8>::throwable_class();
    let authentication = jvm.define_class("auth/AuthenticationException", root).unwrap();
    let unauthenticated =
        jvm.define_class("auth/AuthenticationExceptionUnauthenticated", authentication).unwrap();
    let invalid_token =
        jvm.define_class("auth/AuthenticationExceptionInvalidSecurityToken", authentication)
            .unwrap();
    let invalid_signature =
        jvm.define_class("auth/AuthenticationExceptionInvalidSignature", authentication).unwrap();
    let thrown = jvm.new_throwable(unauthenticated, Some("msg".to_string())).unwrap();

    let authenticate = Raise { stage: duchess::exception::Raising::Target(throwable(thrown)) };
    let op = TryCatch::new(authenticate)
        .catch(unauthenticated)
        .catch(invalid_token)
        .catch(invalid_signature);
    let completion = jvm.execute(op).unwrap();
    assert_eq!(completion, Completion::Caught { branch: 0, thrown });

    let message = jvm
        .execute(GetMessage { stage: duchess::exception::Asking::Target(throwable(thrown)) })
        .unwrap();
    assert_eq!(message, Message { text: Some("msg".to_string()) });
    assert_eq!(jvm.asked(), vec![(thrown, unauthenticated)]);
}

#[test]
fn later_sibling_is_found_after_the_earlier_ones_refuse() {
    let mut jvm: Runtime<i8> = Runtime::new(8);
    let root = Runtime::<i8>::throwable_class();
    let authentication = jvm.define_class("auth/AuthenticationException", root).unwrap();
    let unauthenticated = jvm.define_class("auth/Unauthenticated", authentication).unwrap();
    let invalid_token = jvm.define_class("auth/InvalidSecurityToken", authentication).unwrap();
    let invalid_signature = jvm.define_class("auth/InvalidSignature", authentication).unwrap();
    let thrown = jvm.new_throwable(invalid_signature, None).unwrap();
    let op = TryCatch::new(Raise { stage: duchess::exception::Raising::Target(throwable(thrown)) })
        .catch(unauthenticated)
        .catch(invalid_token)
        .catch(invalid_signature)
        .catch(authentication);
    assert_eq!(jvm.execute(op), Ok(Completion::Caught { branch: 2, thrown }));
    assert_eq!(
        jvm.asked(),
        vec![(thrown, unauthenticated), (thrown, invalid_token), (thrown, invalid_signature)]
    );
}

#[test]
fn raising_fails_with_what_was_raised_and_leaves_nothing_pending() {
    let mut jvm: Runtime<i8> = Runtime::new(8);
    let thrown = jvm.new_throwable(Runtime::<i8>::throwable_class(), None).unwrap();
    let raise = Raise { stage: duchess::exception::Raising::Target(throwable(thrown)) };
    assert_eq!(jvm.execute(raise), Err(Error::Thrown(thrown)));
    assert_eq!(jvm.pending(), None);
    assert!(!jvm.faulted());
}

#[test]
fn message_of_an_exception_without_one_is_none() {
    let mut jvm: Runtime<i8> = Runtime::new(8);
    let bounds: Local<Throwable> = Local::from_handle(Handle::from_raw(7).unwrap());
    let op = GetMessage { stage: duchess::exception::Asking::Target(bounds) };
    assert_eq!(jvm.execute(op), Ok(Message { text: None }));
}

#[test]
fn failures_that_are_not_thrown_pass_the_catches() {
    let mut jvm: Runtime<i8> = Runtime::new(8);
    let null: Option<Local<JavaArray<i8>>> = None;
    let op = TryCatch::new(null.set_array_region(0, &[1]))
        .catch(Runtime::<i8>::throwable_class());
    assert_eq!(jvm.execute(op), Err(Error::NullDeref));
    assert_eq!(jvm.asked(), vec![]);
}

#[test]
fn classes_and_throwables_need_a_class_and_room() {
    let mut jvm: Runtime<i8> = Runtime::new(1);
    let no_class = Handle::from_raw(6).unwrap();
    assert_eq!(jvm.define_class("x/Y", no_class), None);
    assert_eq!(jvm.new_throwable(no_class, None), None);
    let class = jvm.define_class("x/Y", Runtime::<i8>::throwable_class());
    assert_eq!(class, Handle::from_raw(9));
    assert_eq!(jvm.new_throwable(class.unwrap(), None), None);
}

fn throwable<'a>(handle: Handle) -> Local<'a, Throwable> {
    Local::from_handle(handle)
}
