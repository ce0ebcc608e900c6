//! The scope of local references: the frame that is opened before a
//! sequence of operations and closed after it, with which every local
//! reference made in between is released.

use vstd::prelude::*;
use jni_sys::jint;
use crate::array::{representable, to_jsize};
use crate::error::{Error, ErrorView, local_exhausted_text, unexpected_reply_text};
use crate::protocol::{Call, JvmOp, Reply, ReplyView, Step, StepView};
use crate::scalar::JavaScalar;

verus! {

/// How far the opening of a scope has come.
pub enum Entering {
    /// Nothing was asked for yet.
    Start,
    /// The frame was asked for.
    Pushing,
    /// The frame was refused; the pending exception was asked for.
    Checking,
    /// The exception that the refusal raised is being cleared.
    Clearing,
}

/// The operation that opens a scope with room for `capacity` local
/// references. Where the table of local references has no room for it, or
/// the capacity is more than the foreign side can count, that is reported
/// as an error, and nothing is left pending.
pub struct EnterScope {
    pub capacity: usize,
    pub stage: Entering,
}

/// The operation that opens a scope with room for `capacity` local
/// references.
pub fn enter_scope(capacity: usize) -> (op: EnterScope)
    ensures
        op == (EnterScope { capacity, stage: Entering::Start }),
{
    EnterScope { capacity, stage: Entering::Start }
}

impl<'a, T: JavaScalar> JvmOp<'a, T> for EnterScope {
    type Output = ();

    open spec fn calls_left(self) -> nat {
        match self.stage {
            Entering::Start => 3,
            Entering::Pushing => 2,
            Entering::Checking => 1,
            Entering::Clearing => 0,
        }
    }

    open spec fn step_spec(self, reply: Option<ReplyView<T>>) -> StepView<'a, Self, (), T> {
        let capacity = self.capacity;
        match self.stage {
            Entering::Start => if representable(capacity as nat) {
                StepView::Call(
                    EnterScope { capacity, stage: Entering::Pushing },
                    Call::PushLocalFrame { capacity: capacity as jint },
                )
            } else {
                StepView::Done(Err(ErrorView::JvmInternal(local_exhausted_text())))
            },
            Entering::Pushing => match reply {
                Some(ReplyView::Status(status)) => if status == 0 {
                    StepView::Done(Ok(()))
                } else {
                    StepView::Call(
                        EnterScope { capacity, stage: Entering::Checking },
                        Call::ExceptionOccurred,
                    )
                },
                _ => StepView::Done(Err(ErrorView::JvmInternal(unexpected_reply_text()))),
            },
            Entering::Checking => match reply {
                Some(ReplyView::Object(Some(_))) => StepView::Call(
                    EnterScope { capacity, stage: Entering::Clearing },
                    Call::ExceptionClear,
                ),
                Some(ReplyView::Object(None)) => StepView::Done(
                    Err(ErrorView::JvmInternal(local_exhausted_text())),
                ),
                _ => StepView::Done(Err(ErrorView::JvmInternal(unexpected_reply_text()))),
            },
            Entering::Clearing => match reply {
                Some(ReplyView::Void) => StepView::Done(
                    Err(ErrorView::JvmInternal(local_exhausted_text())),
                ),
                _ => StepView::Done(Err(ErrorView::JvmInternal(unexpected_reply_text()))),
            },
        }
    }

    proof fn lemma_calls_decrease(self, reply: Option<ReplyView<T>>) {
    }

    fn step(self, reply: Option<Reply<T>>) -> (next: Step<'a, Self, (), T>) {
        let capacity = self.capacity;
        match self.stage {
            Entering::Start => match to_jsize(capacity) {
                Some(room) => Step::Call(
                    EnterScope { capacity, stage: Entering::Pushing },
                    Call::PushLocalFrame { capacity: room },
                ),
                None => Step::Done(Err(Error::local_exhausted())),
            },
            Entering::Pushing => match reply {
                Some(Reply::Status(status)) => {
                    if status == 0 {
                        Step::Done(Ok(()))
                    } else {
                        Step::Call(
                            EnterScope { capacity, stage: Entering::Checking },
                            Call::ExceptionOccurred,
                        )
                    }
                },
                _ => Step::Done(Err(Error::unexpected_reply())),
            },
            Entering::Checking => match reply {
                Some(Reply::Object(Some(_))) => Step::Call(
                    EnterScope { capacity, stage: Entering::Clearing },
                    Call::ExceptionClear,
                ),
                Some(Reply::Object(None)) => Step::Done(Err(Error::local_exhausted())),
                _ => Step::Done(Err(Error::unexpected_reply())),
            },
            Entering::Clearing => match reply {
                Some(Reply::Void) => Step::Done(Err(Error::local_exhausted())),
                _ => Step::Done(Err(Error::unexpected_reply())),
            },
        }
    }
}

/// The operation that closes the innermost scope.
pub struct LeaveScope {
    pub asked: bool,
}

/// The operation that closes the innermost scope, and with it releases
/// every local reference that was made in it.
pub fn leave_scope() -> (op: LeaveScope)
    ensures
        op == (LeaveScope { asked: false }),
{
    LeaveScope { asked: false }
}

impl<'a, T: JavaScalar> JvmOp<'a, T> for LeaveScope {
    type Output = ();

    open spec fn calls_left(self) -> nat {
        if self.asked {
            0
        } else {
            1
        }
    }

    open spec fn step_spec(self, reply: Option<ReplyView<T>>) -> StepView<'a, Self, (), T> {
        if self.asked {
            match reply {
                Some(ReplyView::Void) => StepView::Done(Ok(())),
                _ => StepView::Done(Err(ErrorView::JvmInternal(unexpected_reply_text()))),
            }
        } else {
            StepView::Call(LeaveScope { asked: true }, Call::PopLocalFrame)
        }
    }

    proof fn lemma_calls_decrease(self, reply: Option<ReplyView<T>>) {
    }

    fn step(self, reply: Option<Reply<T>>) -> (next: Step<'a, Self, (), T>) {
        if self.asked {
            match reply {
                Some(Reply::Void) => Step::Done(Ok(())),
                _ => Step::Done(Err(Error::unexpected_reply())),
            }
        } else {
            Step::Call(LeaveScope { asked: true }, Call::PopLocalFrame)
        }
    }
}

} // verus!
