//! What the handling of exceptions means: which catch takes a thrown object, what
//! was asked of the foreign side to find out, and what comes back where no
//! catch takes it.

use vstd::prelude::*;
use crate::error::ErrorView;
use crate::exception::{
    Asking, Catching, Completion, GetMessage, Raise, Raising, Throwable, TryCatch, test_from,
};
use crate::model::{Heap, descends};
use crate::protocol::{Call, JvmOp, ReplyView, StepView};
use crate::reference::{AsJRef, Handle, group_handle};
use crate::runtime::{outcome, rest, run};
use crate::scalar::JavaScalar;

verus! {

broadcast use group_handle;

/// The instance tests of `thrown` against each of `classes`, in order.
pub open spec fn tests(thrown: Handle, classes: Seq<Handle>) -> Seq<(Handle, Handle)> {
    Seq::new(classes.len(), |i: int| (thrown, classes[i]))
}

/// The index of the first catch, from index `from` on, that takes `thrown`:
/// the first whose class `thrown` is an instance of.
pub open spec fn first_match<T: JavaScalar>(
    heap: Heap<T>,
    thrown: Handle,
    catches: Seq<Handle>,
    from: nat,
) -> Option<nat>
    decreases catches.len() - from,
{
    if from >= catches.len() {
        None
    } else if descends(heap.objects, heap.class_of(thrown), catches[from as int]) {
        Some(from)
    } else {
        first_match(heap, thrown, catches, from + 1)
    }
}

/// What the handling of `thrown` gives, where the catches before index
/// `from` have refused it: the first catch that takes it, with the tests up
/// to that one on record; or, where none takes it, the error that carries
/// its message, with the tests against all of them on record.
pub open spec fn handled_from<V, T: JavaScalar>(
    thrown: Handle,
    catches: Seq<Handle>,
    from: nat,
    heap: Heap<T>,
) -> (Result<Completion<V>, ErrorView>, Heap<T>) {
    match first_match(heap, thrown, catches, from) {
        Some(branch) => (
            Ok(Completion::Caught { branch: branch as usize, thrown }),
            Heap {
                asked: heap.asked + tests(thrown, catches.subrange(from as int, branch as int + 1)),
                ..heap
            },
        ),
        None => (
            Err(ErrorView::Uncaught { thrown, message: heap.message_of(thrown) }),
            Heap {
                asked: heap.asked + tests(
                    thrown,
                    catches.subrange(from as int, catches.len() as int),
                ),
                ..heap
            },
        ),
    }
}

/// What the handling of `thrown` under `catches` gives.
pub open spec fn handled<V, T: JavaScalar>(
    thrown: Handle,
    catches: Seq<Handle>,
    heap: Heap<T>,
) -> (Result<Completion<V>, ErrorView>, Heap<T>) {
    handled_from(thrown, catches, 0, heap)
}

/// Handling an exception changes nothing but the record of what was asked:
/// where an operation may start before it, one may start after it.
pub proof fn lemma_handled_quiet<V, T: JavaScalar>(
    thrown: Handle,
    catches: Seq<Handle>,
    from: nat,
    heap: Heap<T>,
)
    requires
        heap.quiet(),
    ensures
        handled_from::<V, T>(thrown, catches, from, heap).1.quiet(),
        handled_from::<V, T>(thrown, catches, from, heap).1.objects == heap.objects,
{
    heap.lemma_same_objects_wf(handled_from::<V, T>(thrown, catches, from, heap).1);
}

/// Whether every one of `catches` is a class of `heap`.
pub open spec fn declared<T: JavaScalar>(heap: Heap<T>, catches: Seq<Handle>) -> bool {
    forall|i: int| 0 <= i < catches.len() ==> heap.is_class(#[trigger] catches[i])
}

/// Where a catch at index `branch` or later takes `thrown`, and none from
/// `from` up to `branch` does, `branch` is the first match from `from` on.
pub proof fn lemma_first_match_is<T: JavaScalar>(
    heap: Heap<T>,
    thrown: Handle,
    catches: Seq<Handle>,
    from: nat,
    branch: nat,
)
    requires
        from <= branch < catches.len(),
        heap.instance_of(thrown, catches[branch as int]),
        forall|j: int| from <= j < branch ==> !heap.instance_of(thrown, #[trigger] catches[j]),
    ensures
        first_match(heap, thrown, catches, from) == Some(branch),
    decreases branch - from,
{
    if from < branch {
        assert(!heap.instance_of(thrown, catches[from as int]));
        lemma_first_match_is(heap, thrown, catches, from + 1, branch);
    }
}

/// Where no catch from `from` on takes `thrown`, there is no first match.
pub proof fn lemma_first_match_none<T: JavaScalar>(
    heap: Heap<T>,
    thrown: Handle,
    catches: Seq<Handle>,
    from: nat,
)
    requires
        forall|j: int|
            from <= j < catches.len() ==> !heap.instance_of(thrown, #[trigger] catches[j]),
    ensures
        first_match(heap, thrown, catches, from) is None,
    decreases catches.len() - from,
{
    if from < catches.len() {
        assert(!heap.instance_of(thrown, catches[from as int]));
        lemma_first_match_none(heap, thrown, catches, from + 1);
    }
}

proof fn lemma_testing<'a, This, T>(
    thrown: Handle,
    index: usize,
    catches: Vec<Handle>,
    heap: Heap<T>,
) where This: JvmOp<'a, T>, T: JavaScalar
    requires
        heap.quiet(),
        heap.is_throwable(thrown),
        declared(heap, catches@),
        index <= catches@.len(),
    ensures
        rest::<T, TryCatch<This>>(test_from(thrown, index, catches), heap) == handled_from::<
            <This::Output as View>::V,
            T,
        >(thrown, catches@, index as nat, heap),
    decreases catches@.len() - index,
{
    reveal_with_fuel(run, 2);
    reveal_with_fuel(first_match, 2);
    assert(catches.len() == catches@.len());
    let expected = handled_from::<<This::Output as View>::V, T>(
        thrown,
        catches@,
        index as nat,
        heap,
    );
    if index < catches@.len() {
        let class = catches@[index as int];
        assert(heap.is_class(class));
        let asked = Heap { asked: heap.asked.push((thrown, class)), ..heap };
        let call: Call<'a, T> = Call::IsInstanceOf { object: thrown, class };
        assert(heap.answer(call).1 == asked);
        if heap.instance_of(thrown, class) {
            assert(heap.asked + tests(thrown, catches@.subrange(index as int, index + 1))
                =~= asked.asked);
        } else {
            heap.lemma_same_objects_wf(asked);
            assert forall|i: int| 0 <= i < catches@.len() implies asked.is_class(
                #[trigger] catches@[i],
            ) by {
                assert(heap.is_class(catches@[i]));
            }
            lemma_testing::<This, T>(thrown, (index + 1) as usize, catches, asked);
            lemma_first_match_same(heap, asked, thrown, catches@, (index + 1) as nat);
            match first_match(heap, thrown, catches@, (index + 1) as nat) {
                Some(branch) => {
                    lemma_first_match_bounds(heap, thrown, catches@, (index + 1) as nat);
                    assert(asked.asked + tests(
                        thrown,
                        catches@.subrange(index + 1, branch as int + 1),
                    ) =~= heap.asked + tests(
                        thrown,
                        catches@.subrange(index as int, branch as int + 1),
                    ));
                },
                None => {
                    assert(asked.asked + tests(
                        thrown,
                        catches@.subrange(index + 1, catches@.len() as int),
                    ) =~= heap.asked + tests(
                        thrown,
                        catches@.subrange(index as int, catches@.len() as int),
                    ));
                },
            }
        }
    } else {
        assert(heap.asked + tests(
            thrown,
            catches@.subrange(index as int, catches@.len() as int),
        ) =~= heap.asked);
        assert(expected.1 == heap);
    }
}

/// The first match depends on the objects alone.
proof fn lemma_first_match_same<T: JavaScalar>(
    heap: Heap<T>,
    other: Heap<T>,
    thrown: Handle,
    catches: Seq<Handle>,
    from: nat,
)
    requires
        heap.objects == other.objects,
    ensures
        first_match(heap, thrown, catches, from) == first_match(other, thrown, catches, from),
    decreases catches.len() - from,
{
    if from < catches.len() {
        lemma_first_match_same(heap, other, thrown, catches, from + 1);
    }
}

/// A first match from `from` on lies between `from` and the end.
proof fn lemma_first_match_bounds<T: JavaScalar>(
    heap: Heap<T>,
    thrown: Handle,
    catches: Seq<Handle>,
    from: nat,
)
    ensures
        first_match(heap, thrown, catches, from) matches Some(branch) ==> from <= branch
            < catches.len(),
    decreases catches.len() - from,
{
    if from < catches.len() {
        lemma_first_match_bounds(heap, thrown, catches, from + 1);
    }
}

proof fn lemma_try_catch_run<'a, This, T>(
    this: This,
    catches: Vec<Handle>,
    reply: Option<ReplyView<T>>,
    heap: Heap<T>,
) where This: JvmOp<'a, T>, T: JavaScalar
    ensures
        ({
            let (target, after) = run(this, reply, heap);
            let result = run(TryCatch { stage: Catching::Target(this), catches }, reply, heap);
            match target {
                Ok(value) => result == (
                    Ok::<Completion<<This::Output as View>::V>, ErrorView>(
                        Completion::Returned(value),
                    ),
                    after,
                ),
                Err(ErrorView::Thrown(thrown)) => after.quiet() && after.is_throwable(thrown)
                    && declared(after, catches@) ==> result == handled::<
                    <This::Output as View>::V,
                    T,
                >(thrown, catches@, after),
                Err(e) => result == (
                    Err::<Completion<<This::Output as View>::V>, ErrorView>(e),
                    after,
                ),
            }
        }),
    decreases this.calls_left(),
{
    reveal_with_fuel(run, 2);
    match this.step_spec(reply) {
        StepView::Call(next, call) => {
            this.lemma_calls_decrease(reply);
            let (answer, after) = heap.answer(call);
            lemma_try_catch_run(next, catches, Some(answer), after);
        },
        StepView::Done(Err(ErrorView::Thrown(thrown))) => {
            if heap.quiet() && heap.is_throwable(thrown) && declared(heap, catches@) {
                lemma_testing::<This, T>(thrown, 0, catches, heap);
            }
        },
        StepView::Done(_) => {},
    }
}

/// Running a fallible operation under catches means running the operation;
/// what it returns is returned, what it throws is handled, and every
/// other failure stays as it is.
pub proof fn lemma_try_catch<'a, This, T>(this: This, catches: Vec<Handle>, heap: Heap<T>) where
    This: JvmOp<'a, T>,
    T: JavaScalar,

    ensures
        ({
            let (target, after) = outcome(this, heap);
            let result = outcome(TryCatch { stage: Catching::Target(this), catches }, heap);
            match target {
                Ok(value) => result == (
                    Ok::<Completion<<This::Output as View>::V>, ErrorView>(
                        Completion::Returned(value),
                    ),
                    after,
                ),
                Err(ErrorView::Thrown(thrown)) => after.quiet() && after.is_throwable(thrown)
                    && declared(after, catches@) ==> result == handled::<
                    <This::Output as View>::V,
                    T,
                >(thrown, catches@, after),
                Err(e) => result == (
                    Err::<Completion<<This::Output as View>::V>, ErrorView>(e),
                    after,
                ),
            }
        }),
{
    lemma_try_catch_run(this, catches, None, heap);
}

/// Where a fallible operation throws an object that the catch at index
/// `branch` takes and no earlier catch does, the handling ends in that
/// catch. The foreign side was asked about the catches up to `branch`, in
/// order, and about no later one.
pub proof fn lemma_first_match_wins<'a, This, T>(
    this: This,
    catches: Vec<Handle>,
    heap: Heap<T>,
    thrown: Handle,
    branch: usize,
) where This: JvmOp<'a, T>, T: JavaScalar
    requires
        outcome(this, heap).0 == Err::<<This::Output as View>::V, ErrorView>(
            ErrorView::Thrown(thrown),
        ),
        outcome(this, heap).1.quiet(),
        outcome(this, heap).1.is_throwable(thrown),
        declared(outcome(this, heap).1, catches@),
        branch < catches@.len(),
        outcome(this, heap).1.instance_of(thrown, catches@[branch as int]),
        forall|j: int|
            0 <= j < branch ==> !outcome(this, heap).1.instance_of(thrown, #[trigger] catches@[j]),
    ensures
        ({
            let after = outcome(this, heap).1;
            outcome(TryCatch { stage: Catching::Target(this), catches }, heap) == (
                Ok::<Completion<<This::Output as View>::V>, ErrorView>(
                    Completion::Caught { branch, thrown },
                ),
                Heap {
                    asked: after.asked + tests(thrown, catches@.subrange(0, branch + 1)),
                    ..after
                },
            )
        }),
{
    let after = outcome(this, heap).1;
    lemma_try_catch(this, catches, heap);
    lemma_first_match_is(after, thrown, catches@, 0, branch as nat);
}

/// Where a fallible operation throws an object that no catch takes, the
/// handling ends in the error that carries the thrown object and its
/// message, as the foreign side has it. The foreign side was asked about
/// every catch, in order.
pub proof fn lemma_no_match<'a, This, T>(
    this: This,
    catches: Vec<Handle>,
    heap: Heap<T>,
    thrown: Handle,
) where This: JvmOp<'a, T>, T: JavaScalar
    requires
        outcome(this, heap).0 == Err::<<This::Output as View>::V, ErrorView>(
            ErrorView::Thrown(thrown),
        ),
        outcome(this, heap).1.quiet(),
        outcome(this, heap).1.is_throwable(thrown),
        declared(outcome(this, heap).1, catches@),
        forall|j: int|
            0 <= j < catches@.len() ==> !outcome(this, heap).1.instance_of(
                thrown,
                #[trigger] catches@[j],
            ),
    ensures
        ({
            let after = outcome(this, heap).1;
            outcome(TryCatch { stage: Catching::Target(this), catches }, heap) == (
                Err::<Completion<<This::Output as View>::V>, ErrorView>(
                    ErrorView::Uncaught { thrown, message: after.message_of(thrown) },
                ),
                Heap { asked: after.asked + tests(thrown, catches@), ..after },
            )
        }),
{
    let after = outcome(this, heap).1;
    lemma_try_catch(this, catches, heap);
    lemma_first_match_none(after, thrown, catches@, 0);
    assert(catches@.subrange(0, catches@.len() as int) =~= catches@);
}

proof fn lemma_raise_run<'a, This, T>(this: This, reply: Option<ReplyView<T>>, heap: Heap<T>) where
    This: JvmOp<'a, T>,
    This::Output: AsJRef<Throwable>,
    T: JavaScalar,

    ensures
        ({
            let (target, after) = run(this, reply, heap);
            let result = run(Raise { stage: Raising::Target(this) }, reply, heap);
            match target {
                Err(e) => result == (Err::<(), ErrorView>(e), after),
                Ok(out) => match <This::Output as AsJRef<Throwable>>::jref(out) {
                    None => result == (Err::<(), ErrorView>(ErrorView::NullDeref), after),
                    Some(thrown) => after.quiet() && after.is_throwable(thrown) ==> result == (
                        Err::<(), ErrorView>(ErrorView::Thrown(thrown)),
                        after,
                    ),
                },
            }
        }),
    decreases this.calls_left(),
{
    reveal_with_fuel(run, 5);
    match this.step_spec(reply) {
        StepView::Call(next, call) => {
            this.lemma_calls_decrease(reply);
            let (answer, after) = heap.answer(call);
            lemma_raise_run(next, Some(answer), after);
        },
        StepView::Done(_) => {},
    }
}

/// Raising the exception object that `this` yields means running `this` and
/// then failing with that object as the thrown one; the foreign side is left
/// with nothing pending.
pub proof fn lemma_raise<'a, This, T>(this: This, heap: Heap<T>) where
    This: JvmOp<'a, T>,
    This::Output: AsJRef<Throwable>,
    T: JavaScalar,

    ensures
        ({
            let (target, after) = outcome(this, heap);
            let result = outcome(Raise { stage: Raising::Target(this) }, heap);
            match target {
                Err(e) => result == (Err::<(), ErrorView>(e), after),
                Ok(out) => match <This::Output as AsJRef<Throwable>>::jref(out) {
                    None => result == (Err::<(), ErrorView>(ErrorView::NullDeref), after),
                    Some(thrown) => after.quiet() && after.is_throwable(thrown) ==> result == (
                        Err::<(), ErrorView>(ErrorView::Thrown(thrown)),
                        after,
                    ),
                },
            }
        }),
{
    lemma_raise_run(this, None, heap);
}

proof fn lemma_get_message_run<'a, This, T>(
    this: This,
    reply: Option<ReplyView<T>>,
    heap: Heap<T>,
) where This: JvmOp<'a, T>, This::Output: AsJRef<Throwable>, T: JavaScalar
    ensures
        ({
            let (target, after) = run(this, reply, heap);
            let result = run(GetMessage { stage: Asking::Target(this) }, reply, heap);
            match target {
                Err(e) => result == (Err::<Option<Seq<char>>, ErrorView>(e), after),
                Ok(out) => match <This::Output as AsJRef<Throwable>>::jref(out) {
                    None => result == (
                        Err::<Option<Seq<char>>, ErrorView>(ErrorView::NullDeref),
                        after,
                    ),
                    Some(thrown) => after.quiet() && after.is_throwable(thrown) ==> result == (
                        Ok::<Option<Seq<char>>, ErrorView>(after.message_of(thrown)),
                        after,
                    ),
                },
            }
        }),
    decreases this.calls_left(),
{
    reveal_with_fuel(run, 3);
    match this.step_spec(reply) {
        StepView::Call(next, call) => {
            this.lemma_calls_decrease(reply);
            let (answer, after) = heap.answer(call);
            lemma_get_message_run(next, Some(answer), after);
        },
        StepView::Done(_) => {},
    }
}

/// Asking the exception object that `this` yields for its message means
/// running `this` and then giving the message that the object has.
pub proof fn lemma_get_message<'a, This, T>(this: This, heap: Heap<T>) where
    This: JvmOp<'a, T>,
    This::Output: AsJRef<Throwable>,
    T: JavaScalar,

    ensures
        ({
            let (target, after) = outcome(this, heap);
            let result = outcome(GetMessage { stage: Asking::Target(this) }, heap);
            match target {
                Err(e) => result == (Err::<Option<Seq<char>>, ErrorView>(e), after),
                Ok(out) => match <This::Output as AsJRef<Throwable>>::jref(out) {
                    None => result == (
                        Err::<Option<Seq<char>>, ErrorView>(ErrorView::NullDeref),
                        after,
                    ),
                    Some(thrown) => after.quiet() && after.is_throwable(thrown) ==> result == (
                        Ok::<Option<Seq<char>>, ErrorView>(after.message_of(thrown)),
                        after,
                    ),
                },
            }
        }),
{
    lemma_get_message_run(this, None, heap);
}

} // verus!
