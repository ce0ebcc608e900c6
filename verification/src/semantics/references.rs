//! What the reference operations mean, and that a global reference that is
//! made and released leaves no trace.

use vstd::prelude::*;
use core::marker::PhantomData;
use crate::error::{ErrorView, global_failed_text, local_exhausted_text};
use crate::model::{Heap, last_index, lemma_last_index};
use crate::protocol::{Call, JvmOp, ReplyView, StepView};
use crate::reference::{
    AsJRef, AsLocal, AssertNotNull, Global, Handle, Promote, Referring, Release, group_handle,
};
use crate::runtime::{outcome, run};
use crate::scalar::JavaScalar;

verus! {

broadcast use group_handle;

/// What asking for one more local reference to `object` gives: the
/// reference, or the failure that the table of the scope is full.
pub open spec fn localized<T: JavaScalar>(object: Handle, heap: Heap<T>) -> (
    Result<Handle, ErrorView>,
    Heap<T>,
) {
    if heap.locals < heap.local_limit {
        (Ok(object), Heap { locals: heap.locals + 1, ..heap })
    } else {
        (Err(ErrorView::JvmInternal(local_exhausted_text())), heap)
    }
}

/// What asking for a global reference to `object` gives: the reference, which
/// is then on record as one to release; or the failure that none could be
/// made.
pub open spec fn promoted<T: JavaScalar>(object: Handle, heap: Heap<T>) -> (
    Result<Handle, ErrorView>,
    Heap<T>,
) {
    if heap.globals.len() < heap.global_limit {
        (Ok(object), heap.pinned(object))
    } else {
        (Err(ErrorView::JvmInternal(global_failed_text())), heap)
    }
}

/// Making and releasing references changes nothing but their record: where
/// an operation may start before, one may start after, and every object is
/// what it was.
pub proof fn lemma_references_quiet<T: JavaScalar>(heap: Heap<T>, object: Handle)
    requires
        heap.quiet(),
        heap.holds(object),
    ensures
        localized(object, heap).1.quiet(),
        localized(object, heap).1.objects == heap.objects,
        promoted(object, heap).1.quiet(),
        promoted(object, heap).1.objects == heap.objects,
        heap.released(object).quiet(),
        heap.released(object).objects == heap.objects,
{
    heap.lemma_answer_wf(Call::NewLocalRef { object });
    heap.lemma_answer_wf(Call::NewGlobalRef { object });
    lemma_last_index(heap.globals, object, heap.globals.len());
    if heap.globals.contains(object) {
        heap.lemma_answer_wf(Call::DeleteGlobalRef { global: object });
    }
}

proof fn lemma_as_local_run<'a, This, J, T>(
    this: This,
    reply: Option<ReplyView<T>>,
    heap: Heap<T>,
) where This: JvmOp<'a, T>, This::Output: AsJRef<J>, T: JavaScalar
    ensures
        ({
            let (target, after) = run(this, reply, heap);
            let result = run(
                AsLocal::<This, J> { stage: Referring::Target(this), marker: PhantomData },
                reply,
                heap,
            );
            match target {
                Err(e) => result == (Err::<Handle, ErrorView>(e), after),
                Ok(out) => match <This::Output as AsJRef<J>>::jref(out) {
                    None => result == (Err::<Handle, ErrorView>(ErrorView::NullDeref), after),
                    Some(object) => after.quiet() && after.holds(object) ==> result == localized(
                        object,
                        after,
                    ),
                },
            }
        }),
    decreases this.calls_left(),
{
    reveal_with_fuel(run, 3);
    match this.step_spec(reply) {
        StepView::Call(next, call) => {
            this.lemma_calls_decrease(reply);
            let (answer, after) = heap.answer(call);
            lemma_as_local_run::<This, J, T>(next, Some(answer), after);
        },
        StepView::Done(_) => {},
    }
}

/// Making a local reference to the object that `this` yields means running
/// `this` and then, on an object, [`localized`].
pub proof fn lemma_as_local<'a, This, J, T>(this: This, heap: Heap<T>) where
    This: JvmOp<'a, T>,
    This::Output: AsJRef<J>,
    T: JavaScalar,

    ensures
        ({
            let (target, after) = outcome(this, heap);
            let result = outcome(
                AsLocal::<This, J> { stage: Referring::Target(this), marker: PhantomData },
                heap,
            );
            match target {
                Err(e) => result == (Err::<Handle, ErrorView>(e), after),
                Ok(out) => match <This::Output as AsJRef<J>>::jref(out) {
                    None => result == (Err::<Handle, ErrorView>(ErrorView::NullDeref), after),
                    Some(object) => after.quiet() && after.holds(object) ==> result == localized(
                        object,
                        after,
                    ),
                },
            }
        }),
{
    lemma_as_local_run::<This, J, T>(this, None, heap);
}

proof fn lemma_promote_run<'a, This, J, T>(
    this: This,
    reply: Option<ReplyView<T>>,
    heap: Heap<T>,
) where This: JvmOp<'a, T>, This::Output: AsJRef<J>, T: JavaScalar
    ensures
        ({
            let (target, after) = run(this, reply, heap);
            let result = run(
                Promote::<This, J> { stage: Referring::Target(this), marker: PhantomData },
                reply,
                heap,
            );
            match target {
                Err(e) => result == (Err::<Handle, ErrorView>(e), after),
                Ok(out) => match <This::Output as AsJRef<J>>::jref(out) {
                    None => result == (Err::<Handle, ErrorView>(ErrorView::NullDeref), after),
                    Some(object) => after.quiet() && after.holds(object) ==> result == promoted(
                        object,
                        after,
                    ),
                },
            }
        }),
    decreases this.calls_left(),
{
    reveal_with_fuel(run, 3);
    match this.step_spec(reply) {
        StepView::Call(next, call) => {
            this.lemma_calls_decrease(reply);
            let (answer, after) = heap.answer(call);
            lemma_promote_run::<This, J, T>(next, Some(answer), after);
        },
        StepView::Done(_) => {},
    }
}

/// Making a global reference to the object that `this` yields means running
/// `this` and then, on an object, [`promoted`].
pub proof fn lemma_promote<'a, This, J, T>(this: This, heap: Heap<T>) where
    This: JvmOp<'a, T>,
    This::Output: AsJRef<J>,
    T: JavaScalar,

    ensures
        ({
            let (target, after) = outcome(this, heap);
            let result = outcome(
                Promote::<This, J> { stage: Referring::Target(this), marker: PhantomData },
                heap,
            );
            match target {
                Err(e) => result == (Err::<Handle, ErrorView>(e), after),
                Ok(out) => match <This::Output as AsJRef<J>>::jref(out) {
                    None => result == (Err::<Handle, ErrorView>(ErrorView::NullDeref), after),
                    Some(object) => after.quiet() && after.holds(object) ==> result == promoted(
                        object,
                        after,
                    ),
                },
            }
        }),
{
    lemma_promote_run::<This, J, T>(this, None, heap);
}

proof fn lemma_assert_not_null_run<'a, This, J, T>(
    this: This,
    reply: Option<ReplyView<T>>,
    heap: Heap<T>,
) where This: JvmOp<'a, T>, This::Output: AsJRef<J>, T: JavaScalar
    ensures
        ({
            let (target, after) = run(this, reply, heap);
            let result = run(AssertNotNull::<This, J> { this, marker: PhantomData }, reply, heap);
            match target {
                Err(e) => result == (Err::<Handle, ErrorView>(e), after),
                Ok(out) => match <This::Output as AsJRef<J>>::jref(out) {
                    None => result == (Err::<Handle, ErrorView>(ErrorView::NullDeref), after),
                    Some(object) => result == (Ok::<Handle, ErrorView>(object), after),
                },
            }
        }),
    decreases this.calls_left(),
{
    reveal_with_fuel(run, 2);
    match this.step_spec(reply) {
        StepView::Call(next, call) => {
            this.lemma_calls_decrease(reply);
            let (answer, after) = heap.answer(call);
            lemma_assert_not_null_run::<This, J, T>(next, Some(answer), after);
        },
        StepView::Done(_) => {},
    }
}

/// Refusing null means running the operation: its failure stays, its
/// reference comes back as one that is not null, and where it yields null
/// the result is the error for a null reference. The foreign side is left
/// as the operation left it.
pub proof fn lemma_assert_not_null<'a, This, J, T>(this: This, heap: Heap<T>) where
    This: JvmOp<'a, T>,
    This::Output: AsJRef<J>,
    T: JavaScalar,

    ensures
        ({
            let (target, after) = outcome(this, heap);
            let result = outcome(AssertNotNull::<This, J> { this, marker: PhantomData }, heap);
            match target {
                Err(e) => result == (Err::<Handle, ErrorView>(e), after),
                Ok(out) => match <This::Output as AsJRef<J>>::jref(out) {
                    None => result == (Err::<Handle, ErrorView>(ErrorView::NullDeref), after),
                    Some(object) => result == (Ok::<Handle, ErrorView>(object), after),
                },
            }
        }),
{
    lemma_assert_not_null_run::<This, J, T>(this, None, heap);
}

/// Releasing a global reference that is on record takes the reference that
/// was made last to that object off the record, and changes nothing else.
/// Releasing one that is not on record, as a second release would, is a call
/// that the foreign side leaves undefined.
pub proof fn lemma_release<J, T: JavaScalar>(global: Global<J>, heap: Heap<T>)
    ensures
        outcome(Release { global, released: false }, heap) == (
            Ok::<(), ErrorView>(()),
            if heap.globals.contains(global@) {
                heap.released(global@)
            } else {
                Heap { fault: true, ..heap }
            },
        ),
{
    reveal_with_fuel(run, 3);
}

/// A global reference that is made and then released leaves the foreign
/// side as it was.
pub proof fn lemma_pinned_released<T: JavaScalar>(heap: Heap<T>, object: Handle)
    ensures
        heap.pinned(object).globals.contains(object),
        heap.pinned(object).released(object) == heap,
{
    let pinned = heap.pinned(object);
    assert(pinned.globals[heap.globals.len() as int] == object);
    reveal_with_fuel(last_index, 2);
    assert(pinned.globals.remove(heap.globals.len() as int) =~= heap.globals);
}

/// After the release of a global reference there is one reference less on
/// record, and where that was the only one to its object there is none to
/// it any more: a reference that was made once cannot be released twice
/// without a call that the foreign side leaves undefined.
pub proof fn lemma_released_once<T: JavaScalar>(heap: Heap<T>, object: Handle)
    requires
        heap.globals.contains(object),
    ensures
        heap.released(object).globals.len() + 1 == heap.globals.len(),
        (forall|i: int, j: int|
            0 <= i < heap.globals.len() && 0 <= j < heap.globals.len() && heap.globals[i] == object
                && heap.globals[j] == object ==> i == j) ==> !heap.released(
            object,
        ).globals.contains(object),
{
    lemma_last_index(heap.globals, object, heap.globals.len());
    let at = last_index(heap.globals, object, heap.globals.len())->0 as int;
    let rest = heap.globals.remove(at);
    if rest.contains(object) {
        let j = choose|j: int| 0 <= j < rest.len() && rest[j] == object;
        if j < at {
            assert(heap.globals[j] == object);
        } else {
            assert(heap.globals[j + 1] == object);
        }
    }
}

} // verus!
