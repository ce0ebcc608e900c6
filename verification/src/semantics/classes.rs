//! What the resolution of a class means, and that the class of the arrays
//! is found under its descriptor.

use vstd::prelude::*;
use crate::binding::{FindClass, Resolution};
use crate::error::ErrorView;
use crate::model::{Heap, array_class, builtins, find_class, no_class};
use crate::reference::{Handle, group_handle};
use crate::runtime::{outcome, run};
use crate::scalar::{JavaScalar, Primitive};

verus! {

broadcast use group_handle;

/// What the resolution of the descriptor `name` gives: the first class of
/// that name, or the exception that the foreign side raises where there is
/// none.
pub open spec fn resolved<T: JavaScalar>(name: Seq<char>, heap: Heap<T>) -> (
    Result<Handle, ErrorView>,
    Heap<T>,
) {
    match find_class(heap.objects, name, 0) {
        Some(class) => (Ok(class), heap),
        None => (Err(ErrorView::Thrown(no_class())), heap),
    }
}

/// Resolving a descriptor means [`resolved`].
pub proof fn lemma_find_class<'a, T: JavaScalar>(name: &'a str, heap: Heap<T>)
    requires
        heap.quiet(),
    ensures
        outcome(FindClass { name, stage: Resolution::Start }, heap) == resolved(name@, heap),
{
    reveal_with_fuel(run, 5);
    heap.lemma_builtins();
}

/// A class that was resolved before is given without a call: the foreign
/// side is not asked, whatever state it is in.
pub proof fn lemma_known_class<'a, T: JavaScalar>(name: &'a str, class: Handle, heap: Heap<T>)
    ensures
        outcome(FindClass { name, stage: Resolution::Known(class) }, heap) == (
            Ok::<Handle, ErrorView>(class),
            heap,
        ),
{
}

/// A descriptor of an array of primitives has two characters.
pub proof fn lemma_array_descriptor_len(kind: Primitive)
    ensures
        kind.array_descriptor().len() == 2,
{
    reveal_strlit("[Z");
    reveal_strlit("[B");
    reveal_strlit("[C");
    reveal_strlit("[S");
    reveal_strlit("[I");
    reveal_strlit("[J");
    reveal_strlit("[F");
    reveal_strlit("[D");
}

/// The class of the arrays of `T` is found under the descriptor of `T`: the
/// binding of the array type resolves, wherever nothing is pending.
pub proof fn lemma_array_class_resolves<T: JavaScalar>(heap: Heap<T>)
    requires
        heap.quiet(),
    ensures
        resolved(T::primitive().array_descriptor(), heap) == (
            Ok::<Handle, ErrorView>(array_class()),
            heap,
        ),
{
    let name = T::primitive().array_descriptor();
    lemma_array_descriptor_len(T::primitive());
    reveal_strlit("java/lang/Throwable");
    reveal_strlit("java/lang/OutOfMemoryError");
    reveal_strlit("java/lang/ArrayIndexOutOfBoundsException");
    reveal_strlit("java/lang/NoClassDefFoundError");
    heap.lemma_builtins();
    let first = heap.objects.subrange(0, builtins() as int);
    assert(first[0] == heap.objects[0]);
    assert(first[1] == heap.objects[1]);
    assert(first[2] == heap.objects[2]);
    assert(first[3] == heap.objects[3]);
    assert(first[4] == heap.objects[4]);
    reveal_with_fuel(find_class, 6);
}

} // verus!
