//! What the array operations mean: the result of running each to its end
//! against the model of the foreign side, and the state that it leaves.

use vstd::prelude::*;
use core::marker::PhantomData;
use jni_sys::jsize;
use crate::array::{
    Allocation, FromNativeSlice, JavaArray, JavaArrayOp, Length, LengthState, Read,
    SetArrayRegion, ToNativeVec, Write, representable,
};
use crate::error::ErrorView;
use crate::model::{Heap, ObjectView, out_of_bounds, out_of_memory, overwrite};
use crate::protocol::{Call, JvmOp, ReplyView, StepView};
use crate::reference::{AsJRef, Handle, Local, group_handle};
use crate::runtime::{outcome, run};
use crate::scalar::JavaScalar;

verus! {

broadcast use group_handle;

/// What allocating an array for `values` gives: the new array, holding
/// exactly `values`; the exception that the foreign side raised where it has
/// no room; and no call at all where no foreign array is that long.
pub open spec fn allocated<T: JavaScalar>(values: Seq<T>, heap: Heap<T>) -> (
    Result<Handle, ErrorView>,
    Heap<T>,
) {
    if !representable(values.len()) {
        (Err(ErrorView::SliceTooLong(values.len() as usize)), heap)
    } else if heap.has_room() {
        (Ok(heap.next()), heap.with_array(values))
    } else {
        (Err(ErrorView::Thrown(out_of_memory())), heap)
    }
}

/// What asking for the length of `array` gives.
pub open spec fn measured<T: JavaScalar>(array: Handle, heap: Heap<T>) -> (
    Result<jsize, ErrorView>,
    Heap<T>,
) {
    (Ok(heap.elements(array).len() as jsize), heap)
}

/// What copying `array` out gives: all its elements.
pub open spec fn copied<T: JavaScalar>(array: Handle, heap: Heap<T>) -> (
    Result<Seq<T>, ErrorView>,
    Heap<T>,
) {
    (Ok(heap.elements(array)), heap)
}

/// What writing `values` into `array` from index `start` on gives. Where the
/// region lies within the array, the array holds the values there and is
/// unchanged elsewhere. Where it does not, nothing is written: the foreign
/// side raises its out-of-bounds exception, unless the length or the index
/// is one that it cannot even be asked about.
pub open spec fn stored<T: JavaScalar>(
    array: Handle,
    start: usize,
    values: Seq<T>,
    heap: Heap<T>,
) -> (Result<(), ErrorView>, Heap<T>) {
    if !representable(values.len()) {
        (Err(ErrorView::SliceTooLong(values.len() as usize)), heap)
    } else if !representable(start as nat) {
        (Err(ErrorView::IndexTooLarge(start)), heap)
    } else if start + values.len() <= heap.elements(array).len() {
        (Ok(()), heap.written(array, start as int, values))
    } else {
        (Err(ErrorView::Thrown(out_of_bounds())), heap)
    }
}

/// The state after an allocation is one in which an operation may start.
pub proof fn lemma_with_array_quiet<T: JavaScalar>(heap: Heap<T>, values: Seq<T>)
    requires
        heap.quiet(),
        heap.has_room(),
        representable(values.len()),
    ensures
        heap.with_array(values).quiet(),
        heap.with_array(values).is_array(heap.next()),
        heap.with_array(values).elements(heap.next()) == values,
        forall|h: Handle| heap.is_array(h) ==> #[trigger] heap.with_array(values).is_array(h)
            && heap.with_array(values).elements(h) == heap.elements(h),
{
    heap.lemma_with_object_wf(ObjectView::Array(values));
}

/// The state after a write within bounds is one in which an operation may
/// start; the array that was written holds the values, and every other array
/// is as it was.
pub proof fn lemma_written_quiet<T: JavaScalar>(
    heap: Heap<T>,
    array: Handle,
    start: int,
    values: Seq<T>,
)
    requires
        heap.quiet(),
        heap.is_array(array),
        0 <= start,
        start + values.len() <= heap.elements(array).len(),
    ensures
        heap.written(array, start, values).quiet(),
        heap.written(array, start, values).is_array(array),
        heap.written(array, start, values).elements(array) == overwrite(
            heap.elements(array),
            start,
            values,
        ),
        forall|h: Handle|
            heap.is_array(h) && h != array ==> #[trigger] heap.written(
                array,
                start,
                values,
            ).is_array(h) && heap.written(array, start, values).elements(h) == heap.elements(h),
{
    let after = heap.written(array, start, values);
    heap.lemma_written_wf(array, start, values);
    assert forall|h: Handle| heap.is_array(h) && h != array implies #[trigger] after.is_array(h)
        && after.elements(h) == heap.elements(h) by {
        if h.addr() == array.addr() {
            array.lemma_at_addr();
            h.lemma_at_addr();
        }
    }
}

/// Allocating an array for `values` means [`allocated`].
pub proof fn lemma_from_native_slice<'a, T: JavaScalar>(values: &'a [T], heap: Heap<T>)
    requires
        heap.quiet(),
    ensures
        outcome(FromNativeSlice { values, stage: Allocation::Start }, heap) == allocated(
            values@,
            heap,
        ),
{
    reveal_with_fuel(run, 5);
    if representable(values@.len()) {
        if heap.has_room() {
            let zeros = Seq::new(values@.len(), |i: int| T::zero());
            let made = heap.with_array(zeros);
            lemma_with_array_quiet(heap, zeros);
            assert(overwrite(zeros, 0, values@) =~= values@);
            assert(made.written(heap.next(), 0, values@).objects =~= heap.with_array(
                values@,
            ).objects);
        } else {
            heap.lemma_builtins();
        }
    }
}

/// Asking for the length of the array that `this` yields means running
/// `this` and then, on an array, [`measured`].
pub proof fn lemma_length<'a, This, T>(this: This, heap: Heap<T>) where
    This: JvmOp<'a, T>,
    This::Output: AsJRef<JavaArray<T>>,
    T: JavaScalar,

    ensures
        ({
            let (target, after) = outcome(this, heap);
            let result = outcome(
                Length::<This, T> { state: LengthState::Target(this), element: PhantomData },
                heap,
            );
            match target {
                Err(e) => result == (Err::<jsize, ErrorView>(e), after),
                Ok(out) => match <This::Output as AsJRef<JavaArray<T>>>::jref(out) {
                    None => result == (Err::<jsize, ErrorView>(ErrorView::NullDeref), after),
                    Some(array) => after.quiet() && after.is_array(array) ==> result == measured(
                        array,
                        after,
                    ),
                },
            }
        }),
{
    lemma_length_run(this, None, heap);
}

proof fn lemma_length_run<'a, This, T>(this: This, reply: Option<ReplyView<T>>, heap: Heap<T>) where
    This: JvmOp<'a, T>,
    This::Output: AsJRef<JavaArray<T>>,
    T: JavaScalar,

    ensures
        ({
            let (target, after) = run(this, reply, heap);
            let result = run(
                Length::<This, T> { state: LengthState::Target(this), element: PhantomData },
                reply,
                heap,
            );
            match target {
                Err(e) => result == (Err::<jsize, ErrorView>(e), after),
                Ok(out) => match <This::Output as AsJRef<JavaArray<T>>>::jref(out) {
                    None => result == (Err::<jsize, ErrorView>(ErrorView::NullDeref), after),
                    Some(array) => after.quiet() && after.is_array(array) ==> result == measured(
                        array,
                        after,
                    ),
                },
            }
        }),
    decreases this.calls_left(),
{
    reveal_with_fuel(run, 3);
    match this.step_spec(reply) {
        StepView::Call(next, call) => {
            this.lemma_calls_decrease(reply);
            let (answer, after) = heap.answer(call);
            lemma_length_run(next, Some(answer), after);
        },
        StepView::Done(_) => {},
    }
}

/// Copying out the array that `this` yields means running `this` and then,
/// on an array, [`copied`].
pub proof fn lemma_to_native_vec<'a, This, T>(this: This, heap: Heap<T>) where
    This: JvmOp<'a, T>,
    This::Output: AsJRef<JavaArray<T>>,
    T: JavaScalar,

    ensures
        ({
            let (target, after) = outcome(this, heap);
            let result = outcome(
                ToNativeVec::<This, T> { stage: Read::Target(this), element: PhantomData },
                heap,
            );
            match target {
                Err(e) => result == (Err::<Seq<T>, ErrorView>(e), after),
                Ok(out) => match <This::Output as AsJRef<JavaArray<T>>>::jref(out) {
                    None => result == (Err::<Seq<T>, ErrorView>(ErrorView::NullDeref), after),
                    Some(array) => after.quiet() && after.is_array(array) ==> result == copied(
                        array,
                        after,
                    ),
                },
            }
        }),
{
    lemma_to_native_vec_run(this, None, heap);
}

proof fn lemma_to_native_vec_run<'a, This, T>(
    this: This,
    reply: Option<ReplyView<T>>,
    heap: Heap<T>,
) where This: JvmOp<'a, T>, This::Output: AsJRef<JavaArray<T>>, T: JavaScalar
    ensures
        ({
            let (target, after) = run(this, reply, heap);
            let result = run(
                ToNativeVec::<This, T> { stage: Read::Target(this), element: PhantomData },
                reply,
                heap,
            );
            match target {
                Err(e) => result == (Err::<Seq<T>, ErrorView>(e), after),
                Ok(out) => match <This::Output as AsJRef<JavaArray<T>>>::jref(out) {
                    None => result == (Err::<Seq<T>, ErrorView>(ErrorView::NullDeref), after),
                    Some(array) => after.quiet() && after.is_array(array) ==> result == copied(
                        array,
                        after,
                    ),
                },
            }
        }),
    decreases this.calls_left(),
{
    reveal_with_fuel(run, 4);
    match this.step_spec(reply) {
        StepView::Call(next, call) => {
            this.lemma_calls_decrease(reply);
            let (answer, after) = heap.answer(call);
            lemma_to_native_vec_run(next, Some(answer), after);
        },
        StepView::Done(Ok(out)) => {
            if let Some(array) = <This::Output as AsJRef<JavaArray<T>>>::jref(out) {
                if heap.quiet() && heap.is_array(array) {
                    let elements = heap.elements(array);
                    assert(heap.sound_at(array.addr() - 1));
                    assert(elements.subrange(0, elements.len() as int) =~= elements);
                }
            }
        },
        StepView::Done(Err(_)) => {},
    }
}

/// Writing `values` into the array that `this` yields means running `this`
/// and then, on an array, [`stored`].
pub proof fn lemma_set_array_region<'a, This, RT>(
    this: This,
    start: usize,
    values: &'a [RT],
    heap: Heap<RT>,
) where This: JvmOp<'a, RT>, This::Output: AsJRef<JavaArray<RT>>, RT: JavaScalar
    ensures
        ({
            let (target, after) = outcome(this, heap);
            let result = outcome(
                SetArrayRegion::<This, JavaArray<RT>, RT> {
                    stage: Write::Target(this),
                    element: PhantomData,
                    start,
                    values,
                },
                heap,
            );
            match target {
                Err(e) => result == (Err::<(), ErrorView>(e), after),
                Ok(out) => match <This::Output as AsJRef<JavaArray<RT>>>::jref(out) {
                    None => result == (Err::<(), ErrorView>(ErrorView::NullDeref), after),
                    Some(array) => after.quiet() && after.is_array(array) ==> result == stored(
                        array,
                        start,
                        values@,
                        after,
                    ),
                },
            }
        }),
{
    lemma_set_array_region_run(this, start, values, None, heap);
}

proof fn lemma_set_array_region_run<'a, This, RT>(
    this: This,
    start: usize,
    values: &'a [RT],
    reply: Option<ReplyView<RT>>,
    heap: Heap<RT>,
) where This: JvmOp<'a, RT>, This::Output: AsJRef<JavaArray<RT>>, RT: JavaScalar
    ensures
        ({
            let (target, after) = run(this, reply, heap);
            let result = run(
                SetArrayRegion::<This, JavaArray<RT>, RT> {
                    stage: Write::Target(this),
                    element: PhantomData,
                    start,
                    values,
                },
                reply,
                heap,
            );
            match target {
                Err(e) => result == (Err::<(), ErrorView>(e), after),
                Ok(out) => match <This::Output as AsJRef<JavaArray<RT>>>::jref(out) {
                    None => result == (Err::<(), ErrorView>(ErrorView::NullDeref), after),
                    Some(array) => after.quiet() && after.is_array(array) ==> result == stored(
                        array,
                        start,
                        values@,
                        after,
                    ),
                },
            }
        }),
    decreases this.calls_left(),
{
    reveal_with_fuel(run, 5);
    match this.step_spec(reply) {
        StepView::Call(next, call) => {
            this.lemma_calls_decrease(reply);
            let (answer, after) = heap.answer(call);
            lemma_set_array_region_run(next, start, values, Some(answer), after);
        },
        StepView::Done(Ok(out)) => {
            if let Some(array) = <This::Output as AsJRef<JavaArray<RT>>>::jref(out) {
                if heap.quiet() && heap.is_array(array) {
                    heap.lemma_builtins();
                }
            }
        },
        StepView::Done(Err(_)) => {},
    }
}

/// An operation seen as one that yields an array means what the operation
/// means.
pub proof fn lemma_array_op<'a, T, J, N>(this: J, heap: Heap<T>) where
    J: JvmOp<'a, T>,
    T: JavaScalar,

    ensures
        outcome(JavaArrayOp::<T, J, N> { this, phantom: PhantomData }, heap) == outcome(
            this,
            heap,
        ),
{
    lemma_array_op_run::<T, J, N>(this, None, heap);
}

proof fn lemma_array_op_run<'a, T, J, N>(this: J, reply: Option<ReplyView<T>>, heap: Heap<T>) where
    J: JvmOp<'a, T>,
    T: JavaScalar,

    ensures
        run(JavaArrayOp::<T, J, N> { this, phantom: PhantomData }, reply, heap) == run(
            this,
            reply,
            heap,
        ),
    decreases this.calls_left(),
{
    reveal_with_fuel(run, 2);
    match this.step_spec(reply) {
        StepView::Call(next, call) => {
            this.lemma_calls_decrease(reply);
            let (answer, after) = heap.answer(call);
            lemma_array_op_run::<T, J, N>(next, Some(answer), after);
        },
        StepView::Done(_) => {},
    }
}

/// A native slice that is marshalled to a foreign array and read back comes
/// back as it was, and the length asked of the new array is the length of
/// the slice. This holds of every slice that a foreign array can hold,
/// wherever the foreign side has room for the array.
pub proof fn lemma_round_trip<'a, T: JavaScalar>(values: &'a [T], heap: Heap<T>)
    requires
        heap.quiet(),
        heap.has_room(),
        representable(values@.len()),
    ensures
        outcome(
            ToNativeVec::<FromNativeSlice<'a, T>, T> {
                stage: Read::Target(FromNativeSlice { values, stage: Allocation::Start }),
                element: PhantomData,
            },
            heap,
        ) == (Ok::<Seq<T>, ErrorView>(values@), heap.with_array(values@)),
        outcome(
            Length::<FromNativeSlice<'a, T>, T> {
                state: LengthState::Target(FromNativeSlice { values, stage: Allocation::Start }),
                element: PhantomData,
            },
            heap,
        ) == (Ok::<jsize, ErrorView>(values@.len() as jsize), heap.with_array(values@)),
{
    let allocation = FromNativeSlice { values, stage: Allocation::Start };
    lemma_from_native_slice(values, heap);
    lemma_with_array_quiet(heap, values@);
    lemma_to_native_vec(allocation, heap);
    lemma_length(allocation, heap);
}

/// A write that lies within its array, followed by a read of the array,
/// gives the values that were written at the indices that were written, and
/// at every other index the element that was there before. A write of a
/// whole array from index 0 on reads back as the values themselves. No other
/// array changes.
pub proof fn lemma_write_then_read<'a, T: JavaScalar>(
    array: Local<'a, JavaArray<T>>,
    start: usize,
    values: &'a [T],
    heap: Heap<T>,
)
    requires
        heap.quiet(),
        heap.is_array(array@),
        start + values@.len() <= heap.elements(array@).len(),
    ensures
        ({
            let before = heap.elements(array@);
            let written = heap.written(array@, start as int, values@);
            let write = outcome(
                SetArrayRegion::<Local<'a, JavaArray<T>>, JavaArray<T>, T> {
                    stage: Write::Target(array),
                    element: PhantomData,
                    start,
                    values,
                },
                heap,
            );
            let read = outcome(
                ToNativeVec::<Local<'a, JavaArray<T>>, T> {
                    stage: Read::Target(array),
                    element: PhantomData,
                },
                written,
            );
            &&& write == (Ok::<(), ErrorView>(()), written)
            &&& read.1 == written
            &&& read.0 matches Ok(elements) && elements.len() == before.len() && forall|i: int|
                0 <= i < before.len() ==> #[trigger] elements[i] == if start <= i < start
                    + values@.len() {
                    values@[i - start]
                } else {
                    before[i]
                }
            &&& start == 0 && values@.len() == before.len() ==> read.0 == Ok::<Seq<T>, ErrorView>(
                values@,
            )
            &&& forall|other: Handle|
                heap.is_array(other) && other != array@ ==> #[trigger] written.is_array(other)
                    && written.elements(other) == heap.elements(other)
        }),
{
    let before = heap.elements(array@);
    assert(heap.sound_at(array@.addr() - 1));
    lemma_set_array_region(array, start, values, heap);
    lemma_written_quiet(heap, array@, start as int, values@);
    lemma_to_native_vec(array, heap.written(array@, start as int, values@));
    if start == 0 && values@.len() == before.len() {
        assert(overwrite(before, 0, values@) =~= values@);
    }
}

/// A write that does not lie within its array writes nothing: the foreign
/// side is left exactly as it was, and the operation fails. It fails with
/// the out-of-bounds exception of the foreign side wherever the foreign side
/// can be asked, and without a call where the number of values or the index
/// is more than the foreign side can count.
pub proof fn lemma_write_out_of_bounds<'a, T: JavaScalar>(
    array: Local<'a, JavaArray<T>>,
    start: usize,
    values: &'a [T],
    heap: Heap<T>,
)
    requires
        heap.quiet(),
        heap.is_array(array@),
        start + values@.len() > heap.elements(array@).len(),
    ensures
        outcome(
            SetArrayRegion::<Local<'a, JavaArray<T>>, JavaArray<T>, T> {
                stage: Write::Target(array),
                element: PhantomData,
                start,
                values,
            },
            heap,
        ) == (
            Err::<(), ErrorView>(
                if !representable(values@.len()) {
                    ErrorView::SliceTooLong(values@.len() as usize)
                } else if !representable(start as nat) {
                    ErrorView::IndexTooLarge(start)
                } else {
                    ErrorView::Thrown(out_of_bounds())
                },
            ),
            heap,
        ),
{
    lemma_set_array_region(array, start, values, heap);
}

} // verus!
