//! Exceptions of the foreign side: raising one, asking one for its message,
//! and handling the exception that an operation ran into.
//!
//! Whoever runs a fallible operation declares, in order, the classes of the
//! exceptions that are to be caught. The thrown object is tested against
//! them in that order; the first class of which it is an instance decides,
//! and no later class is asked about. What none of them takes comes back as
//! an error that carries the message of the thrown object.

use vstd::prelude::*;
use core::marker::PhantomData;
use crate::error::{Error, ErrorView, unexpected_reply_text};
use crate::protocol::{Call, JvmOp, Reply, ReplyView, Step, StepView, text_view};
use crate::reference::{AsJRef, Handle};
use crate::scalar::JavaScalar;

verus! {

/// The foreign type of everything that can be thrown.
pub struct Throwable {
    _private: PhantomData<()>,
}

/// The message of an exception object; the foreign side may have none.
#[derive(Debug, PartialEq, Eq)]
pub struct Message {
    pub text: Option<String>,
}

impl View for Message {
    type V = Option<Seq<char>>;

    open spec fn view(&self) -> Option<Seq<char>> {
        text_view(self.text)
    }
}

/// How far an operation on the exception object of `This` has come, where
/// the operation asks one thing.
pub enum Asking<This> {
    /// The operation that yields the exception object is running.
    Target(This),
    /// The question was asked.
    Asked,
}

/// The operation that asks the exception object that `This` yields for its
/// message.
pub struct GetMessage<This> {
    pub stage: Asking<This>,
}

impl<'a, This, T> JvmOp<'a, T> for GetMessage<This> where
    This: JvmOp<'a, T>,
    This::Output: AsJRef<Throwable>,
    T: JavaScalar,
 {
    type Output = Message;

    open spec fn calls_left(self) -> nat {
        match self.stage {
            Asking::Target(this) => this.calls_left() + 2,
            Asking::Asked => 1,
        }
    }

    open spec fn step_spec(self, reply: Option<ReplyView<T>>) -> StepView<
        'a,
        Self,
        Option<Seq<char>>,
        T,
    > {
        match self.stage {
            Asking::Target(this) => match this.step_spec(reply) {
                StepView::Call(next, call) => StepView::Call(
                    GetMessage { stage: Asking::Target(next) },
                    call,
                ),
                StepView::Done(Err(e)) => StepView::Done(Err(e)),
                StepView::Done(Ok(out)) => match <This::Output as AsJRef<Throwable>>::jref(out) {
                    None => StepView::Done(Err(ErrorView::NullDeref)),
                    Some(throwable) => StepView::Call(
                        GetMessage { stage: Asking::Asked },
                        Call::GetMessage { throwable },
                    ),
                },
            },
            Asking::Asked => match reply {
                Some(ReplyView::Text(text)) => StepView::Done(Ok(text)),
                _ => StepView::Done(Err(ErrorView::JvmInternal(unexpected_reply_text()))),
            },
        }
    }

    proof fn lemma_calls_decrease(self, reply: Option<ReplyView<T>>) {
        if let Asking::Target(this) = self.stage {
            this.lemma_calls_decrease(reply);
        }
    }

    fn step(self, reply: Option<Reply<T>>) -> (next: Step<'a, Self, Message, T>) {
        match self.stage {
            Asking::Target(this) => match this.step(reply) {
                Step::Call(next, call) => Step::Call(
                    GetMessage { stage: Asking::Target(next) },
                    call,
                ),
                Step::Done(Err(e)) => Step::Done(Err(e)),
                Step::Done(Ok(out)) => match out.as_jref() {
                    Err(e) => Step::Done(Err(e)),
                    Ok(throwable) => Step::Call(
                        GetMessage { stage: Asking::Asked },
                        Call::GetMessage { throwable },
                    ),
                },
            },
            Asking::Asked => match reply {
                Some(Reply::Text(text)) => Step::Done(Ok(Message { text })),
                _ => Step::Done(Err(Error::unexpected_reply())),
            },
        }
    }
}

/// How far the raising of the exception object of `This` has come.
pub enum Raising<This> {
    /// The operation that yields the exception object is running.
    Target(This),
    /// The exception object was handed over to be raised.
    Thrown,
    /// The pending exception was asked for.
    Checking,
    /// The exception that was raised is being cleared.
    Clearing(Handle),
}

/// The operation that raises the exception object that `This` yields, as
/// foreign code would, and takes what is then pending back as its failure.
/// It never produces a value.
pub struct Raise<This> {
    pub stage: Raising<This>,
}

impl<'a, This, T> JvmOp<'a, T> for Raise<This> where
    This: JvmOp<'a, T>,
    This::Output: AsJRef<Throwable>,
    T: JavaScalar,
 {
    type Output = ();

    open spec fn calls_left(self) -> nat {
        match self.stage {
            Raising::Target(this) => this.calls_left() + 4,
            Raising::Thrown => 3,
            Raising::Checking => 2,
            Raising::Clearing(_) => 1,
        }
    }

    open spec fn step_spec(self, reply: Option<ReplyView<T>>) -> StepView<'a, Self, (), T> {
        match self.stage {
            Raising::Target(this) => match this.step_spec(reply) {
                StepView::Call(next, call) => StepView::Call(
                    Raise { stage: Raising::Target(next) },
                    call,
                ),
                StepView::Done(Err(e)) => StepView::Done(Err(e)),
                StepView::Done(Ok(out)) => match <This::Output as AsJRef<Throwable>>::jref(out) {
                    None => StepView::Done(Err(ErrorView::NullDeref)),
                    Some(throwable) => StepView::Call(
                        Raise { stage: Raising::Thrown },
                        Call::Throw { throwable },
                    ),
                },
            },
            Raising::Thrown => match reply {
                Some(ReplyView::Void) => StepView::Call(
                    Raise { stage: Raising::Checking },
                    Call::ExceptionOccurred,
                ),
                _ => StepView::Done(Err(ErrorView::JvmInternal(unexpected_reply_text()))),
            },
            Raising::Checking => match reply {
                Some(ReplyView::Object(Some(thrown))) => StepView::Call(
                    Raise { stage: Raising::Clearing(thrown) },
                    Call::ExceptionClear,
                ),
                _ => StepView::Done(Err(ErrorView::JvmInternal(unexpected_reply_text()))),
            },
            Raising::Clearing(thrown) => match reply {
                Some(ReplyView::Void) => StepView::Done(Err(ErrorView::Thrown(thrown))),
                _ => StepView::Done(Err(ErrorView::JvmInternal(unexpected_reply_text()))),
            },
        }
    }

    proof fn lemma_calls_decrease(self, reply: Option<ReplyView<T>>) {
        if let Raising::Target(this) = self.stage {
            this.lemma_calls_decrease(reply);
        }
    }

    fn step(self, reply: Option<Reply<T>>) -> (next: Step<'a, Self, (), T>) {
        match self.stage {
            Raising::Target(this) => match this.step(reply) {
                Step::Call(next, call) => Step::Call(Raise { stage: Raising::Target(next) }, call),
                Step::Done(Err(e)) => Step::Done(Err(e)),
                Step::Done(Ok(out)) => match out.as_jref() {
                    Err(e) => Step::Done(Err(e)),
                    Ok(throwable) => Step::Call(
                        Raise { stage: Raising::Thrown },
                        Call::Throw { throwable },
                    ),
                },
            },
            Raising::Thrown => match reply {
                Some(Reply::Void) => Step::Call(
                    Raise { stage: Raising::Checking },
                    Call::ExceptionOccurred,
                ),
                _ => Step::Done(Err(Error::unexpected_reply())),
            },
            Raising::Checking => match reply {
                Some(Reply::Object(Some(thrown))) => Step::Call(
                    Raise { stage: Raising::Clearing(thrown) },
                    Call::ExceptionClear,
                ),
                _ => Step::Done(Err(Error::unexpected_reply())),
            },
            Raising::Clearing(thrown) => match reply {
                Some(Reply::Void) => Step::Done(Err(Error::Thrown(thrown))),
                _ => Step::Done(Err(Error::unexpected_reply())),
            },
        }
    }
}

/// How a fallible operation under declared catches ended, where it did not
/// fail.
#[derive(Debug, PartialEq, Eq)]
pub enum Completion<V> {
    /// The operation returned this value; nothing was thrown.
    Returned(V),
    /// The operation threw, and the catch at index `branch` took the thrown
    /// object.
    Caught { branch: usize, thrown: Handle },
}

impl<V: View> View for Completion<V> {
    type V = Completion<V::V>;

    open spec fn view(&self) -> Completion<V::V> {
        match *self {
            Completion::Returned(v) => Completion::Returned(v@),
            Completion::Caught { branch, thrown } => Completion::Caught { branch, thrown },
        }
    }
}

/// How far the handling of what `This` throws has come.
pub enum Catching<This> {
    /// The fallible operation is running.
    Target(This),
    /// The thrown object is being tested against the catch at `index`.
    Testing { thrown: Handle, index: usize },
    /// No catch took the thrown object; it was asked for its message.
    Describing { thrown: Handle },
}

/// The fallible operation `This` under an ordered list of catches, each the
/// class of the exceptions that it takes.
pub struct TryCatch<This> {
    pub stage: Catching<This>,
    pub catches: Vec<Handle>,
}

/// The step that puts the thrown object to the catch at `index`, or, where
/// the catches are used up, asks for its message.
pub open spec fn test_from<'a, This, V, T>(
    thrown: Handle,
    index: usize,
    catches: Vec<Handle>,
) -> StepView<'a, TryCatch<This>, V, T> {
    if index < catches@.len() {
        StepView::Call(
            TryCatch { stage: Catching::Testing { thrown, index }, catches },
            Call::IsInstanceOf { object: thrown, class: catches@[index as int] },
        )
    } else {
        StepView::Call(
            TryCatch { stage: Catching::Describing { thrown }, catches },
            Call::GetMessage { throwable: thrown },
        )
    }
}

impl<This> TryCatch<This> {
    /// `this` with no catch declared yet.
    pub fn new(this: This) -> (op: TryCatch<This>)
        ensures
            op.stage == Catching::Target(this),
            op.catches@ == Seq::<Handle>::empty(),
    {
        TryCatch { stage: Catching::Target(this), catches: Vec::new() }
    }

    /// Declares one more catch, after those declared so far: it takes the
    /// instances of `class`.
    pub fn catch(self, class: Handle) -> (op: TryCatch<This>)
        ensures
            op.stage == self.stage,
            op.catches@ == self.catches@.push(class),
    {
        let mut catches = self.catches;
        catches.push(class);
        TryCatch { stage: self.stage, catches }
    }

    fn test<'a, O, T>(thrown: Handle, index: usize, catches: Vec<Handle>) -> (next: Step<
        'a,
        TryCatch<This>,
        O,
        T,
    >) where O: View
        ensures
            next@ == test_from::<This, O::V, T>(thrown, index, catches),
    {
        if index < catches.len() {
            let class = catches[index];
            Step::Call(
                TryCatch { stage: Catching::Testing { thrown, index }, catches },
                Call::IsInstanceOf { object: thrown, class },
            )
        } else {
            Step::Call(
                TryCatch { stage: Catching::Describing { thrown }, catches },
                Call::GetMessage { throwable: thrown },
            )
        }
    }
}

impl<'a, This, T> JvmOp<'a, T> for TryCatch<This> where This: JvmOp<'a, T>, T: JavaScalar {
    type Output = Completion<This::Output>;

    open spec fn calls_left(self) -> nat {
        match self.stage {
            Catching::Target(this) => this.calls_left() + self.catches@.len() + 2,
            Catching::Testing { index, .. } => if index < self.catches@.len() {
                (self.catches@.len() - index + 1) as nat
            } else {
                2
            },
            Catching::Describing { .. } => 1,
        }
    }

    open spec fn step_spec(self, reply: Option<ReplyView<T>>) -> StepView<
        'a,
        Self,
        Completion<<This::Output as View>::V>,
        T,
    > {
        let catches = self.catches;
        match self.stage {
            Catching::Target(this) => match this.step_spec(reply) {
                StepView::Call(next, call) => StepView::Call(
                    TryCatch { stage: Catching::Target(next), catches },
                    call,
                ),
                StepView::Done(Ok(value)) => StepView::Done(Ok(Completion::Returned(value))),
                StepView::Done(Err(ErrorView::Thrown(thrown))) => test_from(thrown, 0, catches),
                StepView::Done(Err(e)) => StepView::Done(Err(e)),
            },
            Catching::Testing { thrown, index } => match reply {
                Some(ReplyView::Flag(true)) => StepView::Done(
                    Ok(Completion::Caught { branch: index, thrown }),
                ),
                Some(ReplyView::Flag(false)) => if index < catches@.len() {
                    test_from(thrown, (index + 1) as usize, catches)
                } else {
                    test_from(thrown, index, catches)
                },
                _ => StepView::Done(Err(ErrorView::JvmInternal(unexpected_reply_text()))),
            },
            Catching::Describing { thrown } => match reply {
                Some(ReplyView::Text(message)) => StepView::Done(
                    Err(ErrorView::Uncaught { thrown, message }),
                ),
                _ => StepView::Done(Err(ErrorView::JvmInternal(unexpected_reply_text()))),
            },
        }
    }

    proof fn lemma_calls_decrease(self, reply: Option<ReplyView<T>>) {
        assert(self.catches.len() == self.catches@.len());
        if let Catching::Target(this) = self.stage {
            this.lemma_calls_decrease(reply);
        }
    }

    fn step(self, reply: Option<Reply<T>>) -> (next: Step<'a, Self, Completion<This::Output>, T>) {
        let catches = self.catches;
        match self.stage {
            Catching::Target(this) => match this.step(reply) {
                Step::Call(next, call) => Step::Call(
                    TryCatch { stage: Catching::Target(next), catches },
                    call,
                ),
                Step::Done(Ok(value)) => Step::Done(Ok(Completion::Returned(value))),
                Step::Done(Err(Error::Thrown(thrown))) => Self::test(thrown, 0, catches),
                Step::Done(Err(e)) => Step::Done(Err(e)),
            },
            Catching::Testing { thrown, index } => match reply {
                Some(Reply::Flag(true)) => Step::Done(
                    Ok(Completion::Caught { branch: index, thrown }),
                ),
                Some(Reply::Flag(false)) => {
                    if index < catches.len() {
                        Self::test(thrown, index + 1, catches)
                    } else {
                        Self::test(thrown, index, catches)
                    }
                },
                _ => Step::Done(Err(Error::unexpected_reply())),
            },
            Catching::Describing { thrown } => match reply {
                Some(Reply::Text(message)) => Step::Done(Err(Error::Uncaught { thrown, message })),
                _ => Step::Done(Err(Error::unexpected_reply())),
            },
        }
    }
}

} // verus!
