use duchess::array::{
    to_jsize, Allocation, FromNativeSlice, JavaArray, JavaArrayExt, JavaArrayModificationExt,
    JavaArrayObj, JavaArrayOp,
};
use duchess::error::Error;
use duchess::protocol::{Call, JvmOp, Reply, Step};
use duchess::reference::{Handle, Local};
use duchess::runtime::Runtime;
use duchess::scalar::{DoubleBits, FloatBits, JavaScalar, Primitive};

#[test]
fn byte_array_round_trip() {
    let mut jvm: Runtime<i8> = Runtime::new(16);
    let values = [1i8, 2, 3];
    let array = jvm.execute(JavaArray::from_native_slice(&values)).unwrap();
    let array = &array;
    let back = jvm.execute(JavaArray::to_native_vec(array)).unwrap();
    assert_eq!(back, vec![1, 2, 3]);
    assert_eq!(jvm.execute(array.length()), Ok(3));
    assert!(!jvm.faulted());
    assert_eq!(jvm.pending(), None);
}

#[test]
fn round_trip_in_one_chain() {
    let mut jvm: Runtime<i32> = Runtime::new(4);
    let values = [7, -8, 9, i32::MIN, i32::MAX];
    let back = jvm.execute(JavaArray::to_native_vec(JavaArray::from_native_slice(&values)));
    assert_eq!(back, Ok(values.to_vec()));
    let length = jvm.execute(JavaArray::from_native_slice(&values).length());
    assert_eq!(length, Ok(5));
}

#[test]
fn boolean_array_round_trip() {
    let mut jvm: Runtime<bool> = Runtime::new(4);
    let values = [true, false, true, true];
    let array = jvm.execute(JavaArray::from_native_slice(&values)).unwrap();
    let array = &array;
    assert_eq!(jvm.execute(JavaArray::to_native_vec(array)), Ok(values.to_vec()));
}

#[test]
fn char_array_round_trip() {
    let mut jvm: Runtime<u16> = Runtime::new(4);
    let values = [0u16, 65, 0xffff];
    let array = jvm.execute(JavaArray::from_native_slice(&values)).unwrap();
    let array = &array;
    assert_eq!(jvm.execute(JavaArray::to_native_vec(array)), Ok(values.to_vec()));
}

#[test]
fn short_array_round_trip() {
    let mut jvm: Runtime<i16> = Runtime::new(4);
    let values = [i16::MIN, -1, 0, i16::MAX];
    let array = jvm.execute(JavaArray::from_native_slice(&values)).unwrap();
    let array = &array;
    assert_eq!(jvm.execute(JavaArray::to_native_vec(array)), Ok(values.to_vec()));
}

#[test]
fn long_array_round_trip() {
    let mut jvm: Runtime<i64> = Runtime::new(4);
    let values = [i64::MIN, 0x0102030405060708, i64::MAX];
    let array = jvm.execute(JavaArray::from_native_slice(&values)).unwrap();
    let array = &array;
    assert_eq!(jvm.execute(JavaArray::to_native_vec(array)), Ok(values.to_vec()));
}

#[test]
fn float_array_round_trip_keeps_every_bit() {
    let mut jvm: Runtime<FloatBits> = Runtime::new(4);
    let native = [1.5f32, -0.0, f32::NAN, f32::INFINITY];
    let values: Vec<FloatBits> = native.iter().map(|x| FloatBits { bits: x.to_bits() }).collect();
    let array = jvm.execute(JavaArray::from_native_slice(&values)).unwrap();
    let array = &array;
    let back = jvm.execute(JavaArray::to_native_vec(array)).unwrap();
    assert_eq!(back, values);
    assert_eq!(f32::from_bits(back[0].bits), 1.5);
    assert!(f32::from_bits(back[2].bits).is_nan());
}

#[test]
fn double_array_round_trip_keeps_every_bit() {
    let mut jvm: Runtime<DoubleBits> = Runtime::new(4);
    let native = [2.25f64, -1e300, f64::MIN_POSITIVE];
    let values: Vec<DoubleBits> = native.iter().map(|x| DoubleBits { bits: x.to_bits() }).collect();
    let array = jvm.execute(JavaArray::from_native_slice(&values)).unwrap();
    let array = &array;
    let back = jvm.execute(JavaArray::to_native_vec(array)).unwrap();
    assert_eq!(back, values);
    assert_eq!(f64::from_bits(back[1].bits), -1e300);
}

#[test]
fn empty_slice_round_trip() {
    let mut jvm: Runtime<i8> = Runtime::new(4);
    let values: [i8; 0] = [];
    let array = jvm.execute(JavaArray::from_native_slice(&values)).unwrap();
    let array = &array;
    assert_eq!(jvm.execute(array.length()), Ok(0));
    assert_eq!(jvm.execute(JavaArray::to_native_vec(array)), Ok(vec![]));
    assert!(!jvm.faulted());
}

#[test]
fn new_arrays_get_the_next_handles() {
    let mut jvm: Runtime<i8> = Runtime::new(4);
    let first = jvm.execute(JavaArray::from_native_slice(&[1i8])).unwrap();
    let first = &first;
    let second = jvm.execute(JavaArray::from_native_slice(&[2i8, 3])).unwrap();
    let second = &second;
    assert_eq!(first.handle().as_raw(), 9);
    assert_eq!(second.handle().as_raw(), 10);
    assert_eq!(jvm.elements(first.handle()), Some(vec![1]));
    assert_eq!(jvm.elements(second.handle()), Some(vec![2, 3]));
}

#[test]
fn write_at_the_end_keeps_the_length_and_the_front() {
    let mut jvm: Runtime<i8> = Runtime::new(16);
    let values = [1i8, 2, 3, 0, 0];
    let array = jvm.execute(JavaArray::from_native_slice(&values)).unwrap();
    let array = &array;
    let tail = [4i8, 5];
    assert_eq!(jvm.execute(array.set_array_region(3, &tail)), Ok(()));
    assert_eq!(jvm.execute(array.length()), Ok(5));
    assert_eq!(jvm.execute(JavaArray::to_native_vec(array)), Ok(vec![1, 2, 3, 4, 5]));
}

#[test]
fn write_of_the_whole_array_reads_back_as_written() {
    let mut jvm: Runtime<i16> = Runtime::new(16);
    let array = jvm.execute(JavaArray::from_native_slice(&[0i16; 4])).unwrap();
    let array = &array;
    let values = [10i16, 20, 30, 40];
    assert_eq!(jvm.execute(array.set_array_region(0, &values)), Ok(()));
    assert_eq!(jvm.execute(JavaArray::to_native_vec(array)), Ok(values.to_vec()));
}

#[test]
fn write_in_the_middle_changes_only_its_region() {
    let mut jvm: Runtime<i32> = Runtime::new(16);
    let array = jvm.execute(JavaArray::from_native_slice(&[1, 2, 3, 4, 5, 6])).unwrap();
    let array = &array;
    let other = jvm.execute(JavaArray::from_native_slice(&[9, 9])).unwrap();
    let other = &other;
    assert_eq!(jvm.execute(array.set_array_region(2, &[-3, -4])), Ok(()));
    assert_eq!(jvm.execute(JavaArray::to_native_vec(array)), Ok(vec![1, 2, -3, -4, 5, 6]));
    assert_eq!(jvm.execute(JavaArray::to_native_vec(other)), Ok(vec![9, 9]));
}

#[test]
fn empty_write_at_the_end_is_within_bounds() {
    let mut jvm: Runtime<i8> = Runtime::new(16);
    let array = jvm.execute(JavaArray::from_native_slice(&[1i8, 2])).unwrap();
    let array = &array;
    assert_eq!(jvm.execute(array.set_array_region(2, &[])), Ok(()));
    assert_eq!(jvm.execute(JavaArray::to_native_vec(array)), Ok(vec![1, 2]));
}

#[test]
fn write_beyond_the_end_is_refused_and_writes_nothing() {
    let mut jvm: Runtime<i8> = Runtime::new(16);
    let array = jvm.execute(JavaArray::from_native_slice(&[1i8, 2, 3, 4, 5])).unwrap();
    let array = &array;
    let result = jvm.execute(array.set_array_region(3, &[7, 8, 9]));
    let thrown = match result {
        Err(Error::Thrown(thrown)) => thrown,
        other => panic!("expected a thrown exception, got {:?}", other),
    };
    assert_eq!(thrown.as_raw(), 7);
    assert_eq!(jvm.pending(), None);
    assert!(!jvm.faulted());
    assert_eq!(jvm.execute(JavaArray::to_native_vec(array)), Ok(vec![1, 2, 3, 4, 5]));
    assert_eq!(jvm.execute(array.length()), Ok(5));
}

#[test]
fn write_that_starts_beyond_the_end_is_refused() {
    let mut jvm: Runtime<i8> = Runtime::new(16);
    let array = jvm.execute(JavaArray::from_native_slice(&[1i8, 2])).unwrap();
    let array = &array;
    let result = jvm.execute(array.set_array_region(3, &[]));
    assert_eq!(result, Err(Error::Thrown(Handle::from_raw(7).unwrap())));
    assert_eq!(jvm.execute(JavaArray::to_native_vec(array)), Ok(vec![1, 2]));
}

#[test]
fn index_beyond_the_foreign_index_type_is_refused_without_a_call() {
    let array: Local<JavaArray<i8>> = Local::from_handle(Handle::from_raw(9).unwrap());
    let array = &array;
    let start = 0x8000_0000usize;
    let values = [1i8];
    match array.set_array_region(start, &values).step(None) {
        Step::Done(Err(Error::IndexTooLarge(n))) => assert_eq!(n, start),
        _ => panic!("expected the index to be refused"),
    }
    match array.set_array_region(0x7fff_ffff, &values).step(None) {
        Step::Call(_, Call::SetArrayRegion { start, values, .. }) => {
            assert_eq!(start, i32::MAX);
            assert_eq!(values, &[1i8]);
        },
        _ => panic!("expected the call to be made"),
    }
}

#[test]
fn lengths_up_to_the_foreign_limit_are_representable() {
    assert_eq!(to_jsize(0), Some(0));
    assert_eq!(to_jsize(5), Some(5));
    assert_eq!(to_jsize(0x7fff_ffff), Some(i32::MAX));
    assert_eq!(to_jsize(0x8000_0000), None);
    assert_eq!(to_jsize(usize::MAX), None);
}

#[test]
fn allocation_in_a_full_heap_throws_out_of_memory() {
    let mut jvm: Runtime<i8> = Runtime::new(1);
    let first = jvm.execute(JavaArray::from_native_slice(&[1i8]));
    assert!(first.is_ok());
    let second = jvm.execute(JavaArray::from_native_slice(&[2i8]));
    match second {
        Err(Error::Thrown(thrown)) => assert_eq!(thrown.as_raw(), 6),
        _ => panic!("expected the out-of-memory exception"),
    }
    assert_eq!(jvm.pending(), None);
    assert!(!jvm.faulted());
}

#[test]
fn allocation_asks_for_the_array_checks_and_then_fills() {
    let values = [4i8, 5, 6];
    let op = JavaArray::from_native_slice(&values);
    let (op, call) = match op.step(None) {
        Step::Call(op, call) => (op, call),
        Step::Done(_) => panic!("expected a call"),
    };
    assert!(matches!(call, Call::NewArray { len: 3 }));
    let array = Handle::from_raw(77).unwrap();
    let (op, call) = match op.step(Some(Reply::Object(Some(array)))) {
        Step::Call(op, call) => (op, call),
        Step::Done(_) => panic!("expected a call"),
    };
    assert!(matches!(call, Call::ExceptionOccurred));
    assert!(matches!(op.stage, Allocation::Checking(Some(_))));
    let (op, call) = match op.step(Some(Reply::Object(None))) {
        Step::Call(op, call) => (op, call),
        Step::Done(_) => panic!("expected a call"),
    };
    match call {
        Call::SetArrayRegion { array: target, start, values: written } => {
            assert_eq!(target, array);
            assert_eq!(start, 0);
            assert_eq!(written, &[4i8, 5, 6]);
        },
        _ => panic!("expected the values to be written"),
    }
    match op.step(Some(Reply::Void)) {
        Step::Done(Ok(local)) => assert_eq!(local.handle(), array),
        _ => panic!("expected the array"),
    }
}

#[test]
fn thrown_allocation_is_cleared_before_it_is_reported() {
    let values = [4i8];
    let op = FromNativeSlice { values: &values, stage: Allocation::Allocating };
    let thrown = Handle::from_raw(6).unwrap();
    let op = match op.step(Some(Reply::Object(Some(Handle::from_raw(50).unwrap())))) {
        Step::Call(op, Call::ExceptionOccurred) => op,
        _ => panic!("expected the check"),
    };
    let op = match op.step(Some(Reply::Object(Some(thrown)))) {
        Step::Call(op, Call::ExceptionClear) => op,
        _ => panic!("expected the exception to be cleared"),
    };
    match op.step(Some(Reply::Void)) {
        Step::Done(Err(Error::Thrown(e))) => assert_eq!(e, thrown),
        _ => panic!("expected the thrown exception"),
    }
}

#[test]
fn null_array_without_an_exception_is_an_internal_error() {
    let values = [4i8, 5, 6];
    let op = FromNativeSlice { values: &values, stage: Allocation::Checking(None) };
    match op.step(Some(Reply::Object(None))) {
        Step::Done(Err(Error::JvmInternal(text))) => {
            assert_eq!(text, "failed to allocate `byte[3]`")
        },
        _ => panic!("expected an internal error"),
    }
}

#[test]
fn allocation_failure_names_the_kind_and_the_length() {
    assert_eq!(
        Error::allocation_failure(Primitive::Int, 0),
        Error::JvmInternal("failed to allocate `int[0]`".to_string())
    );
    assert_eq!(
        Error::allocation_failure(Primitive::Boolean, 10),
        Error::JvmInternal("failed to allocate `boolean[10]`".to_string())
    );
    assert_eq!(
        Error::allocation_failure(Primitive::Double, 2147483647),
        Error::JvmInternal("failed to allocate `double[2147483647]`".to_string())
    );
}

#[test]
fn reply_of_the_wrong_shape_is_an_internal_error() {
    let array: Local<JavaArray<i8>> = Local::from_handle(Handle::from_raw(9).unwrap());
    let op = match array.length().step(None) {
        Step::Call(op, Call::GetArrayLength { array: asked }) => {
            assert_eq!(asked.as_raw(), 9);
            op
        },
        _ => panic!("expected the length to be asked for"),
    };
    match op.step(Some(Reply::Void)) {
        Step::Done(Err(Error::JvmInternal(text))) => {
            assert_eq!(text, "the foreign side did not answer the call that was made")
        },
        _ => panic!("expected an internal error"),
    }
}

#[test]
fn region_of_the_wrong_length_is_an_internal_error() {
    let array: Local<JavaArray<i8>> = Local::from_handle(Handle::from_raw(9).unwrap());
    let op = match JavaArray::to_native_vec(array).step(None) {
        Step::Call(op, Call::GetArrayLength { .. }) => op,
        _ => panic!("expected the length to be asked for"),
    };
    let op = match op.step(Some(Reply::Length(3))) {
        Step::Call(op, Call::GetArrayRegion { start: 0, len: 3, .. }) => op,
        _ => panic!("expected the whole array to be asked for"),
    };
    match op.step(Some(Reply::Region(vec![1i8, 2]))) {
        Step::Done(Err(Error::JvmInternal(_))) => {},
        _ => panic!("expected an internal error"),
    }
}

#[test]
fn negative_length_is_an_internal_error() {
    let array: Local<JavaArray<i8>> = Local::from_handle(Handle::from_raw(9).unwrap());
    let op = match JavaArray::to_native_vec(array).step(None) {
        Step::Call(op, _) => op,
        _ => panic!("expected a call"),
    };
    assert!(matches!(op.step(Some(Reply::Length(-1))), Step::Done(Err(Error::JvmInternal(_)))));
}

#[test]
fn null_reference_is_refused_before_any_call() {
    let mut jvm: Runtime<i8> = Runtime::new(4);
    let null: Option<&Local<JavaArray<i8>>> = None;
    assert_eq!(jvm.execute(null.length()), Err(Error::NullDeref));
    assert_eq!(jvm.execute(JavaArray::to_native_vec(null)), Err(Error::NullDeref));
    assert_eq!(jvm.execute(null.set_array_region(0, &[1])), Err(Error::NullDeref));
    assert!(!jvm.faulted());
}

#[test]
fn reference_that_may_be_null_works_where_it_is_not() {
    let mut jvm: Runtime<i8> = Runtime::new(4);
    let array = jvm.execute(JavaArray::from_native_slice(&[5i8, 6])).unwrap();
    let array = &array;
    assert_eq!(jvm.execute(Some(array).length()), Ok(2));
    let owned: Option<Local<JavaArray<i8>>> = Some(Local::from_handle(array.handle()));
    assert_eq!(jvm.execute(owned.length()), Ok(2));
}

#[test]
fn failure_of_the_target_stays_the_failure_of_the_operation() {
    let mut jvm: Runtime<i8> = Runtime::new(0);
    let values = [1i8];
    let result = jvm.execute(JavaArray::from_native_slice(&values).length());
    assert_eq!(result, Err(Error::Thrown(Handle::from_raw(6).unwrap())));
}

#[test]
fn array_views_run_what_they_wrap() {
    let mut jvm: Runtime<i8> = Runtime::new(4);
    let values = [1i8, 2, 3];
    let op: JavaArrayOp<i8, _, ()> = JavaArrayOp::from_ref(JavaArray::from_native_slice(&values));
    let array = jvm.execute(op).unwrap();
    let obj: JavaArrayObj<i8, _, ()> = JavaArrayObj::from_ref(&array);
    assert_eq!(jvm.execute(obj.length()), Ok(3));
}

#[test]
fn call_on_what_is_no_array_is_a_fault_of_the_caller() {
    let mut jvm: Runtime<i8> = Runtime::new(4);
    let no_array: Local<JavaArray<i8>> = Local::from_handle(Runtime::<i8>::throwable_class());
    assert_eq!(jvm.execute(no_array.length()), Ok(0));
    assert!(jvm.faulted());
}

#[test]
fn kinds_have_their_names_descriptors_and_widths() {
    let kinds = [
        (Primitive::Boolean, "boolean", "[Z", 1),
        (Primitive::Byte, "byte", "[B", 1),
        (Primitive::Char, "char", "[C", 2),
        (Primitive::Short, "short", "[S", 2),
        (Primitive::Int, "int", "[I", 4),
        (Primitive::Long, "long", "[J", 8),
        (Primitive::Float, "float", "[F", 4),
        (Primitive::Double, "double", "[D", 8),
    ];
    for (kind, name, descriptor, width) in kinds {
        assert_eq!(kind.java_name(), name);
        assert_eq!(kind.array_class_name(), descriptor);
        assert_eq!(kind.byte_width(), width);
    }
    assert_eq!(<bool as JavaScalar>::kind(), Primitive::Boolean);
    assert_eq!(<i8 as JavaScalar>::kind(), Primitive::Byte);
    assert_eq!(<u16 as JavaScalar>::kind(), Primitive::Char);
    assert_eq!(<i16 as JavaScalar>::kind(), Primitive::Short);
    assert_eq!(<i32 as JavaScalar>::kind(), Primitive::Int);
    assert_eq!(<i64 as JavaScalar>::kind(), Primitive::Long);
    assert_eq!(<FloatBits as JavaScalar>::kind(), Primitive::Float);
    assert_eq!(<DoubleBits as JavaScalar>::kind(), Primitive::Double);
    assert_eq!(<FloatBits as JavaScalar>::initial(), FloatBits { bits: 0 });
    assert_eq!(<i64 as JavaScalar>::initial(), 0);
}

#[test]
fn slice_longer_than_any_foreign_array_is_refused_without_a_call() {
    let len = 0x8000_0000usize;
    let values: Vec<i8> = vec![0; len];
    match JavaArray::from_native_slice(&values).step(None) {
        Step::Done(Err(Error::SliceTooLong(n))) => assert_eq!(n, len),
        _ => panic!("expected the slice to be refused"),
    }
    let array: Local<JavaArray<i8>> = Local::from_handle(Handle::from_raw(9).unwrap());
    let array = &array;
    match array.set_array_region(0, &values).step(None) {
        Step::Done(Err(Error::SliceTooLong(n))) => assert_eq!(n, len),
        _ => panic!("expected the slice to be refused"),
    }
    match array.set_array_region(len, &values).step(None) {
        Step::Done(Err(Error::SliceTooLong(n))) => assert_eq!(n, len),
        _ => panic!("expected the slice to be refused"),
    }
}

#[test]
fn bytes_of_a_foreign_array_combine_to_a_number() {
    let mut jvm: Runtime<i8> = Runtime::new(4);
    let foreign = [0x08i8, 0x07, 0x06, 0x05, 0x04, 0x03, 0x02, 0x01];
    let array = jvm.execute(JavaArray::from_native_slice(&foreign)).unwrap();
    let signed = jvm.execute(JavaArray::to_native_vec(&array)).unwrap();
    let unsigned: Vec<u8> = signed.iter().map(|x| *x as u8).collect();
    let number = i64::from_le_bytes(unsigned.try_into().unwrap());
    assert_eq!(number, 0x0102030405060708);
}

#[test]
fn number_breaks_into_the_bytes_of_a_foreign_array() {
    let mut jvm: Runtime<i8> = Runtime::new(4);
    let number: i64 = -2;
    let signed: Vec<i8> = number.to_le_bytes().iter().map(|x| *x as i8).collect();
    let array = jvm.execute(JavaArray::from_native_slice(&signed)).unwrap();
    assert_eq!(jvm.execute((&array).length()), Ok(8));
    assert_eq!(jvm.elements(array.handle()), Some(vec![-2, -1, -1, -1, -1, -1, -1, -1]));
}

#[test]
fn foreign_array_is_filled_with_ones() {
    let mut jvm: Runtime<i8> = Runtime::new(4);
    let array = jvm.execute(JavaArray::from_native_slice(&[0i8; 6])).unwrap();
    let region: Vec<i8> = vec![1; 4];
    assert_eq!(jvm.execute((&array).set_array_region(0, &region)), Ok(()));
    assert_eq!(jvm.elements(array.handle()), Some(vec![1, 1, 1, 1, 0, 0]));
}

#[test]
fn foreign_array_is_filled_with_true() {
    let mut jvm: Runtime<bool> = Runtime::new(4);
    let array = jvm.execute(JavaArray::from_native_slice(&[false; 3])).unwrap();
    let region: Vec<bool> = vec![true; 3];
    assert_eq!(jvm.execute((&array).set_array_region(0, &region)), Ok(()));
    assert_eq!(jvm.elements(array.handle()), Some(vec![true, true, true]));
}
