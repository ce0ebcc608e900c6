//! What opening and closing a scope mean, and that a scope which is closed
//! takes with it every local reference that was made in it.

use vstd::prelude::*;
use crate::array::representable;
use crate::error::{ErrorView, local_exhausted_text};
use crate::model::Heap;
use crate::protocol::Call;
use crate::reference::group_handle;
use crate::runtime::{outcome, run};
use crate::scalar::JavaScalar;
use crate::scope::{EnterScope, Entering, LeaveScope};

verus! {

broadcast use group_handle;

/// Opening a scope opens a frame where the table of local references has
/// room for its capacity. Where it has not, or the capacity is more than
/// the foreign side can count, the operation fails with the error for an
/// exhausted table, and the foreign side is left as it was.
pub proof fn lemma_enter_scope<T: JavaScalar>(capacity: usize, heap: Heap<T>)
    requires
        heap.quiet(),
    ensures
        outcome(EnterScope { capacity, stage: Entering::Start }, heap) == (if representable(
            capacity as nat,
        ) && heap.locals + capacity <= heap.local_limit {
            (Ok::<(), ErrorView>(()), heap.entered())
        } else {
            (Err::<(), ErrorView>(ErrorView::JvmInternal(local_exhausted_text())), heap)
        }),
        heap.entered().quiet(),
{
    reveal_with_fuel(run, 5);
    heap.lemma_builtins();
    heap.lemma_entered_wf();
}

/// Closing a scope closes the innermost frame. Closing one where none is
/// open is a call that the foreign side leaves undefined.
pub proof fn lemma_leave_scope<T: JavaScalar>(heap: Heap<T>)
    ensures
        outcome(LeaveScope { asked: false }, heap) == (
            Ok::<(), ErrorView>(()),
            if heap.frames.len() > 0 {
                heap.left()
            } else {
                Heap { fault: true, ..heap }
            },
        ),
        heap.quiet() && heap.frames.len() > 0 ==> heap.left().quiet(),
{
    reveal_with_fuel(run, 3);
    if heap.quiet() && heap.frames.len() > 0 {
        heap.lemma_left_wf();
    }
}

/// No call but the opening and the closing of a frame changes which frames
/// are open.
pub proof fn lemma_frames_kept<T: JavaScalar>(heap: Heap<T>, call: Call<T>)
    requires
        !(call is PushLocalFrame),
        !(call is PopLocalFrame),
    ensures
        heap.answer(call).1.frames == heap.frames,
{
}

/// A scope that is closed takes with it every local reference that was made
/// in it: whatever was done between its opening and its closing, as long as
/// the frames that were opened in between were closed again, there are as
/// many local references after it as there were before it, and the frames
/// that are open are those that were.
pub proof fn lemma_scope_releases<T: JavaScalar>(before: Heap<T>, inside: Heap<T>)
    requires
        inside.frames == before.entered().frames,
    ensures
        inside.left().locals == before.locals,
        inside.left().frames == before.frames,
{
    assert(before.frames.push(before.locals).drop_last() =~= before.frames);
}

} // verus!
