//! The calls that cross the boundary, and operations as state machines over
//! them.
//!
//! An operation is data. [`JvmOp::step`] takes the reply to the call that the
//! operation asked for last and yields either the next call to make, with the
//! state to resume, or the operation's result. The one who holds the
//! environment handle makes each call and performs no other: the order of the
//! calls, and what is done with each reply, is decided here.

use vstd::prelude::*;
use jni_sys::{jint, jsize};
use crate::error::{Error, ErrorView};
use crate::reference::Handle;
use crate::scalar::JavaScalar;

verus! {

/// One call across the boundary: on arrays of `T`, on the pending exception,
/// on an exception object, for a class, or on references.
pub enum Call<'a, T> {
    /// Allocate an array of `len` elements.
    NewArray { len: jsize },
    /// Ask for the length of `array`.
    GetArrayLength { array: Handle },
    /// Copy `len` elements of `array`, from index `start` on, to the native
    /// side.
    GetArrayRegion { array: Handle, start: jsize, len: jsize },
    /// Copy `values` into `array`, from index `start` on.
    SetArrayRegion { array: Handle, start: jsize, values: &'a [T] },
    /// Ask for the exception that is pending, if one is.
    ExceptionOccurred,
    /// Clear the pending exception.
    ExceptionClear,
    /// Raise `throwable`: make it the pending exception.
    Throw { throwable: Handle },
    /// Ask whether `object` is an instance of `class`.
    IsInstanceOf { object: Handle, class: Handle },
    /// Ask `throwable` for its message.
    GetMessage { throwable: Handle },
    /// Ask for the class with the descriptor `name`.
    FindClass { name: &'a str },
    /// Ask for one more local reference to `object`.
    NewLocalRef { object: Handle },
    /// Ask for a global reference to `object`.
    NewGlobalRef { object: Handle },
    /// Release the global reference `global`.
    DeleteGlobalRef { global: Handle },
    /// Open a frame of local references with room for `capacity` of them.
    PushLocalFrame { capacity: jint },
    /// Close the innermost frame, and release every local reference made
    /// in it.
    PopLocalFrame,
}

/// What the foreign side handed back from a call.
pub enum Reply<T> {
    /// The call returns nothing.
    Void,
    /// A reference, or null.
    Object(Option<Handle>),
    /// A length.
    Length(jsize),
    /// The elements that were copied out.
    Region(Vec<T>),
    /// The answer to a question.
    Flag(bool),
    /// A text, or null.
    Text(Option<String>),
    /// A status: zero where the call succeeded.
    Status(jint),
}

/// A text that may be null, as a mathematical value.
pub open spec fn text_view(text: Option<String>) -> Option<Seq<char>> {
    match text {
        Some(t) => Some(t@),
        None => None,
    }
}

/// A [`Reply`] as a mathematical value.
pub enum ReplyView<T> {
    Void,
    Object(Option<Handle>),
    Length(jsize),
    Region(Seq<T>),
    Flag(bool),
    Text(Option<Seq<char>>),
    Status(jint),
}

impl<T> View for Reply<T> {
    type V = ReplyView<T>;

    open spec fn view(&self) -> ReplyView<T> {
        match *self {
            Reply::Void => ReplyView::Void,
            Reply::Object(o) => ReplyView::Object(o),
            Reply::Length(n) => ReplyView::Length(n),
            Reply::Region(v) => ReplyView::Region(v@),
            Reply::Flag(b) => ReplyView::Flag(b),
            Reply::Text(text) => ReplyView::Text(text_view(text)),
            Reply::Status(status) => ReplyView::Status(status),
        }
    }
}

/// The view of the reply that a step is given: `None` at the start.
pub open spec fn reply_view<T>(reply: Option<Reply<T>>) -> Option<ReplyView<T>> {
    match reply {
        Some(r) => Some(r@),
        None => None,
    }
}

/// Where an operation stands after a step.
pub enum Step<'a, S, O, T> {
    /// The call to make next, and the state to resume with its reply.
    Call(S, Call<'a, T>),
    /// The operation has ended, with this result.
    Done(Result<O, Error>),
}

/// A [`Step`] as a mathematical value: the output and the error by their
/// views.
pub enum StepView<'a, S, V, T> {
    Call(S, Call<'a, T>),
    Done(Result<V, ErrorView>),
}

impl<'a, S, O: View, T> View for Step<'a, S, O, T> {
    type V = StepView<'a, S, O::V, T>;

    open spec fn view(&self) -> StepView<'a, S, O::V, T> {
        match *self {
            Step::Call(s, c) => StepView::Call(s, c),
            Step::Done(Ok(o)) => StepView::Done(Ok(o@)),
            Step::Done(Err(e)) => StepView::Done(Err(e@)),
        }
    }
}

/// An operation on the foreign runtime that has not run yet, or has run in
/// part: a state machine over the calls that cross the boundary.
pub trait JvmOp<'a, T: JavaScalar>: Sized {
    /// What the operation produces.
    type Output: View;

    /// A bound on the number of calls that the operation still asks for.
    spec fn calls_left(self) -> nat;

    /// The step that the operation takes on the reply to its last call
    /// (`None` where it has made none yet).
    spec fn step_spec(self, reply: Option<ReplyView<T>>) -> StepView<'a, Self, <Self::Output as View>::V, T>;

    /// Every step that asks for a call leaves fewer calls to come, so that
    /// every operation ends.
    proof fn lemma_calls_decrease(self, reply: Option<ReplyView<T>>)
        ensures
            self.step_spec(reply) matches StepView::Call(next, _) ==> next.calls_left()
                < self.calls_left(),
    ;

    /// Takes one step: on the reply to the call asked for last (`None` at the
    /// start), gives the next call with the state to resume, or the result.
    fn step(self, reply: Option<Reply<T>>) -> (next: Step<'a, Self, Self::Output, T>)
        ensures
            next@ == self.step_spec(reply_view(reply)),
    ;
}

} // verus!
