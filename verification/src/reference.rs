//! References to foreign objects: raw handles, local references that live
//! as long as a scope, global references that live until they are released,
//! and the operations that make one from the other.

use vstd::prelude::*;
use core::marker::PhantomData;
use crate::error::{
    Error, ErrorView, global_failed_text, local_exhausted_text, unexpected_reply_text,
};
use crate::protocol::{Call, JvmOp, Reply, ReplyView, Step, StepView};
use crate::scalar::JavaScalar;

verus! {

/// A raw reference to an object of the foreign runtime. It is never null: a
/// null reference is the absence of a `Handle`.
#[derive(Clone, Copy, PartialEq, Eq, Structural, Debug)]
pub struct Handle {
    raw: usize,
}

impl Handle {
    /// The address that the handle holds.
    pub closed spec fn addr(self) -> usize {
        self.raw
    }

    /// The handle that holds `addr`.
    pub closed spec fn at(addr: usize) -> Handle {
        Handle { raw: addr }
    }

    /// The handle for a raw address, or `None` for the null address.
    pub fn from_raw(raw: usize) -> (r: Option<Handle>)
        ensures
            r == (if raw == 0 { None } else { Some(Handle::at(raw)) }),
    {
        if raw == 0 {
            None
        } else {
            Some(Handle { raw })
        }
    }

    /// The address that the handle holds.
    pub fn as_raw(&self) -> (r: usize)
        ensures
            r == self.addr(),
    {
        self.raw
    }

    /// A handle is the handle at its address.
    pub broadcast proof fn lemma_at_addr(self)
        ensures
            Handle::at(#[trigger] self.addr()) == self,
    {
    }

    /// The handle at an address holds that address.
    pub broadcast proof fn lemma_addr_at(addr: usize)
        ensures
            (#[trigger] Handle::at(addr)).addr() == addr,
    {
    }
}

pub broadcast group group_handle {
    Handle::lemma_at_addr,
    Handle::lemma_addr_at,
}

/// A reference to a foreign object of type `J` that is valid while the scope
/// of the environment handle under which it was obtained is alive. `'jvm` is
/// that scope: no local reference outlives it. The value cannot be copied:
/// whoever holds it owns the reference, and lends it to the operations that
/// work on the object.
pub struct Local<'jvm, J> {
    handle: Handle,
    marker: PhantomData<(&'jvm (), J)>,
}

impl<'jvm, J> View for Local<'jvm, J> {
    type V = Handle;

    closed spec fn view(&self) -> Handle {
        self.handle
    }
}

impl<'jvm, J> Local<'jvm, J> {
    /// Takes a raw reference to be one to an object of type `J`.
    pub fn from_handle(handle: Handle) -> (r: Local<'jvm, J>)
        ensures
            r@ == handle,
    {
        Local { handle, marker: PhantomData }
    }

    /// The raw reference.
    pub fn handle(&self) -> (h: Handle)
        ensures
            h == self@,
    {
        self.handle
    }
}

/// A value that refers to a foreign object of type `J`, or to none.
pub trait AsJRef<J>: View {
    /// The object that a value with this view refers to; `None` where it is
    /// null.
    spec fn jref(v: Self::V) -> Option<Handle>;

    /// The object referred to, or [`Error::NullDeref`] where there is none.
    fn as_jref(&self) -> (r: Result<Handle, Error>)
        ensures
            match r {
                Ok(h) => Self::jref(self@) == Some(h),
                Err(e) => Self::jref(self@) is None && e@ == ErrorView::NullDeref,
            },
    ;
}

impl<'jvm, J> AsJRef<J> for Local<'jvm, J> {
    open spec fn jref(v: Handle) -> Option<Handle> {
        Some(v)
    }

    fn as_jref(&self) -> (r: Result<Handle, Error>) {
        Ok(self.handle)
    }
}

impl<'r, 'jvm, J> AsJRef<J> for &'r Local<'jvm, J> {
    open spec fn jref(v: Handle) -> Option<Handle> {
        Some(v)
    }

    fn as_jref(&self) -> (r: Result<Handle, Error>) {
        Ok(self.handle)
    }
}

impl<'r, 'jvm, J> AsJRef<J> for Option<&'r Local<'jvm, J>> {
    open spec fn jref(v: Option<&'r Local<'jvm, J>>) -> Option<Handle> {
        match v {
            Some(local) => Some(local@),
            None => None,
        }
    }

    fn as_jref(&self) -> (r: Result<Handle, Error>) {
        match self {
            Some(local) => Ok(local.handle),
            None => Err(Error::NullDeref),
        }
    }
}

impl<'jvm, J> AsJRef<J> for Option<Local<'jvm, J>> {
    open spec fn jref(v: Option<Local<'jvm, J>>) -> Option<Handle> {
        match v {
            Some(local) => Some(local@),
            None => None,
        }
    }

    fn as_jref(&self) -> (r: Result<Handle, Error>) {
        match self {
            Some(local) => Ok(local.handle),
            None => Err(Error::NullDeref),
        }
    }
}

/// The declaration that every foreign object of the type is also one of
/// type `S`.
///
/// Nothing checks a declaration against the foreign class hierarchy: it is
/// taken on trust from whoever writes the impl, and a reference is widened
/// on the strength of it without a call.
pub trait Upcast<S> {

}

/// A reference to a foreign object of type `J` that is valid from its
/// creation until it is released. The value cannot be copied, and releasing
/// consumes it: it is released once at most.
pub struct Global<J> {
    handle: Handle,
    marker: PhantomData<J>,
}

impl<J> View for Global<J> {
    type V = Handle;

    closed spec fn view(&self) -> Handle {
        self.handle
    }
}

impl<J> Global<J> {
    /// Takes a raw global reference to be one to an object of type `J`.
    pub fn from_handle(handle: Handle) -> (r: Global<J>)
        ensures
            r@ == handle,
    {
        Global { handle, marker: PhantomData }
    }

    /// The raw reference.
    pub fn handle(&self) -> (h: Handle)
        ensures
            h == self@,
    {
        self.handle
    }

    /// The same reference as one to an object of the wider type `S`. No call
    /// is made.
    pub fn upcast<S>(self) -> (r: Global<S>) where J: Upcast<S>
        ensures
            r@ == self@,
    {
        Global { handle: self.handle, marker: PhantomData }
    }

    /// The operation that releases the reference.
    pub fn release(self) -> (op: Release<J>)
        ensures
            op == (Release { global: self, released: false }),
    {
        Release { global: self, released: false }
    }
}

impl<'jvm, J> Local<'jvm, J> {
    /// The same reference as one to an object of the wider type `S`. No call
    /// is made.
    pub fn upcast<S>(self) -> (r: Local<'jvm, S>) where J: Upcast<S>
        ensures
            r@ == self@,
    {
        Local { handle: self.handle, marker: PhantomData }
    }
}

impl<J> AsJRef<J> for Global<J> {
    open spec fn jref(v: Handle) -> Option<Handle> {
        Some(v)
    }

    fn as_jref(&self) -> (r: Result<Handle, Error>) {
        Ok(self.handle)
    }
}

impl<'g, J> AsJRef<J> for &'g Global<J> {
    open spec fn jref(v: Handle) -> Option<Handle> {
        Some(v)
    }

    fn as_jref(&self) -> (r: Result<Handle, Error>) {
        Ok(self.handle)
    }
}

impl<'a, T: JavaScalar, J> JvmOp<'a, T> for Local<'a, J> {
    type Output = Local<'a, J>;

    open spec fn calls_left(self) -> nat {
        0
    }

    open spec fn step_spec(self, reply: Option<ReplyView<T>>) -> StepView<'a, Self, Handle, T> {
        StepView::Done(Ok(self@))
    }

    proof fn lemma_calls_decrease(self, reply: Option<ReplyView<T>>) {
    }

    fn step(self, reply: Option<Reply<T>>) -> (next: Step<'a, Self, Local<'a, J>, T>) {
        Step::Done(Ok(self))
    }
}

impl<'a, T: JavaScalar, J> JvmOp<'a, T> for Option<Local<'a, J>> {
    type Output = Option<Local<'a, J>>;

    open spec fn calls_left(self) -> nat {
        0
    }

    open spec fn step_spec(self, reply: Option<ReplyView<T>>) -> StepView<
        'a,
        Self,
        Option<Local<'a, J>>,
        T,
    > {
        StepView::Done(Ok(self))
    }

    proof fn lemma_calls_decrease(self, reply: Option<ReplyView<T>>) {
    }

    fn step(self, reply: Option<Reply<T>>) -> (next: Step<'a, Self, Option<Local<'a, J>>, T>) {
        Step::Done(Ok(self))
    }
}

impl<'a, 'jvm, T: JavaScalar, J> JvmOp<'a, T> for &'a Local<'jvm, J> {
    type Output = &'a Local<'jvm, J>;

    open spec fn calls_left(self) -> nat {
        0
    }

    open spec fn step_spec(self, reply: Option<ReplyView<T>>) -> StepView<'a, Self, Handle, T> {
        StepView::Done(Ok(self@))
    }

    proof fn lemma_calls_decrease(self, reply: Option<ReplyView<T>>) {
    }

    fn step(self, reply: Option<Reply<T>>) -> (next: Step<'a, Self, &'a Local<'jvm, J>, T>) {
        Step::Done(Ok(self))
    }
}

impl<'a, 'jvm, T: JavaScalar, J> JvmOp<'a, T> for Option<&'a Local<'jvm, J>> {
    type Output = Option<&'a Local<'jvm, J>>;

    open spec fn calls_left(self) -> nat {
        0
    }

    open spec fn step_spec(self, reply: Option<ReplyView<T>>) -> StepView<
        'a,
        Self,
        Option<&'a Local<'jvm, J>>,
        T,
    > {
        StepView::Done(Ok(self))
    }

    proof fn lemma_calls_decrease(self, reply: Option<ReplyView<T>>) {
    }

    fn step(self, reply: Option<Reply<T>>) -> (next: Step<
        'a,
        Self,
        Option<&'a Local<'jvm, J>>,
        T,
    >) {
        Step::Done(Ok(self))
    }
}

impl<'a, T: JavaScalar, J> JvmOp<'a, T> for &'a Global<J> {
    type Output = &'a Global<J>;

    open spec fn calls_left(self) -> nat {
        0
    }

    open spec fn step_spec(self, reply: Option<ReplyView<T>>) -> StepView<'a, Self, Handle, T> {
        StepView::Done(Ok(self@))
    }

    proof fn lemma_calls_decrease(self, reply: Option<ReplyView<T>>) {
    }

    fn step(self, reply: Option<Reply<T>>) -> (next: Step<'a, Self, &'a Global<J>, T>) {
        Step::Done(Ok(self))
    }
}

/// How far the making of a reference to the object of `This` has come.
pub enum Referring<This> {
    /// The operation that yields the object is running.
    Target(This),
    /// The reference was asked for.
    Asked,
}

/// The operation that makes one more local reference, in the scope `'jvm`,
/// to the object that `This` yields.
pub struct AsLocal<This, J> {
    pub stage: Referring<This>,
    pub marker: PhantomData<J>,
}

impl<'a, This, J, T> JvmOp<'a, T> for AsLocal<This, J> where
    This: JvmOp<'a, T>,
    This::Output: AsJRef<J>,
    T: JavaScalar,
 {
    type Output = Local<'a, J>;

    open spec fn calls_left(self) -> nat {
        match self.stage {
            Referring::Target(this) => this.calls_left() + 2,
            Referring::Asked => 1,
        }
    }

    open spec fn step_spec(self, reply: Option<ReplyView<T>>) -> StepView<'a, Self, Handle, T> {
        match self.stage {
            Referring::Target(this) => match this.step_spec(reply) {
                StepView::Call(next, call) => StepView::Call(
                    AsLocal { stage: Referring::Target(next), marker: PhantomData },
                    call,
                ),
                StepView::Done(Err(e)) => StepView::Done(Err(e)),
                StepView::Done(Ok(out)) => match <This::Output as AsJRef<J>>::jref(out) {
                    None => StepView::Done(Err(ErrorView::NullDeref)),
                    Some(object) => StepView::Call(
                        AsLocal { stage: Referring::Asked, marker: PhantomData },
                        Call::NewLocalRef { object },
                    ),
                },
            },
            Referring::Asked => match reply {
                Some(ReplyView::Object(Some(local))) => StepView::Done(Ok(local)),
                Some(ReplyView::Object(None)) => StepView::Done(
                    Err(ErrorView::JvmInternal(local_exhausted_text())),
                ),
                _ => StepView::Done(Err(ErrorView::JvmInternal(unexpected_reply_text()))),
            },
        }
    }

    proof fn lemma_calls_decrease(self, reply: Option<ReplyView<T>>) {
        if let Referring::Target(this) = self.stage {
            this.lemma_calls_decrease(reply);
        }
    }

    fn step(self, reply: Option<Reply<T>>) -> (next: Step<'a, Self, Local<'a, J>, T>) {
        match self.stage {
            Referring::Target(this) => match this.step(reply) {
                Step::Call(next, call) => Step::Call(
                    AsLocal { stage: Referring::Target(next), marker: PhantomData },
                    call,
                ),
                Step::Done(Err(e)) => Step::Done(Err(e)),
                Step::Done(Ok(out)) => match out.as_jref() {
                    Err(e) => Step::Done(Err(e)),
                    Ok(object) => Step::Call(
                        AsLocal { stage: Referring::Asked, marker: PhantomData },
                        Call::NewLocalRef { object },
                    ),
                },
            },
            Referring::Asked => match reply {
                Some(Reply::Object(Some(local))) => Step::Done(Ok(Local::from_handle(local))),
                Some(Reply::Object(None)) => Step::Done(Err(Error::local_exhausted())),
                _ => Step::Done(Err(Error::unexpected_reply())),
            },
        }
    }
}

/// The operation that makes a global reference to the object that `This`
/// yields.
pub struct Promote<This, J> {
    pub stage: Referring<This>,
    pub marker: PhantomData<J>,
}

impl<'a, This, J, T> JvmOp<'a, T> for Promote<This, J> where
    This: JvmOp<'a, T>,
    This::Output: AsJRef<J>,
    T: JavaScalar,
 {
    type Output = Global<J>;

    open spec fn calls_left(self) -> nat {
        match self.stage {
            Referring::Target(this) => this.calls_left() + 2,
            Referring::Asked => 1,
        }
    }

    open spec fn step_spec(self, reply: Option<ReplyView<T>>) -> StepView<'a, Self, Handle, T> {
        match self.stage {
            Referring::Target(this) => match this.step_spec(reply) {
                StepView::Call(next, call) => StepView::Call(
                    Promote { stage: Referring::Target(next), marker: PhantomData },
                    call,
                ),
                StepView::Done(Err(e)) => StepView::Done(Err(e)),
                StepView::Done(Ok(out)) => match <This::Output as AsJRef<J>>::jref(out) {
                    None => StepView::Done(Err(ErrorView::NullDeref)),
                    Some(object) => StepView::Call(
                        Promote { stage: Referring::Asked, marker: PhantomData },
                        Call::NewGlobalRef { object },
                    ),
                },
            },
            Referring::Asked => match reply {
                Some(ReplyView::Object(Some(global))) => StepView::Done(Ok(global)),
                Some(ReplyView::Object(None)) => StepView::Done(
                    Err(ErrorView::JvmInternal(global_failed_text())),
                ),
                _ => StepView::Done(Err(ErrorView::JvmInternal(unexpected_reply_text()))),
            },
        }
    }

    proof fn lemma_calls_decrease(self, reply: Option<ReplyView<T>>) {
        if let Referring::Target(this) = self.stage {
            this.lemma_calls_decrease(reply);
        }
    }

    fn step(self, reply: Option<Reply<T>>) -> (next: Step<'a, Self, Global<J>, T>) {
        match self.stage {
            Referring::Target(this) => match this.step(reply) {
                Step::Call(next, call) => Step::Call(
                    Promote { stage: Referring::Target(next), marker: PhantomData },
                    call,
                ),
                Step::Done(Err(e)) => Step::Done(Err(e)),
                Step::Done(Ok(out)) => match out.as_jref() {
                    Err(e) => Step::Done(Err(e)),
                    Ok(object) => Step::Call(
                        Promote { stage: Referring::Asked, marker: PhantomData },
                        Call::NewGlobalRef { object },
                    ),
                },
            },
            Referring::Asked => match reply {
                Some(Reply::Object(Some(global))) => Step::Done(Ok(Global::from_handle(global))),
                Some(Reply::Object(None)) => Step::Done(Err(Error::global_failed())),
                _ => Step::Done(Err(Error::unexpected_reply())),
            },
        }
    }
}

/// The operation that releases a global reference. It holds the reference
/// and gives it up with the call.
pub struct Release<J> {
    pub global: Global<J>,
    pub released: bool,
}

impl<'a, J, T: JavaScalar> JvmOp<'a, T> for Release<J> {
    type Output = ();

    open spec fn calls_left(self) -> nat {
        if self.released {
            0
        } else {
            1
        }
    }

    open spec fn step_spec(self, reply: Option<ReplyView<T>>) -> StepView<'a, Self, (), T> {
        if self.released {
            match reply {
                Some(ReplyView::Void) => StepView::Done(Ok(())),
                _ => StepView::Done(Err(ErrorView::JvmInternal(unexpected_reply_text()))),
            }
        } else {
            StepView::Call(
                Release { global: self.global, released: true },
                Call::DeleteGlobalRef { global: self.global@ },
            )
        }
    }

    proof fn lemma_calls_decrease(self, reply: Option<ReplyView<T>>) {
    }

    fn step(self, reply: Option<Reply<T>>) -> (next: Step<'a, Self, (), T>) {
        if self.released {
            match reply {
                Some(Reply::Void) => Step::Done(Ok(())),
                _ => Step::Done(Err(Error::unexpected_reply())),
            }
        } else {
            let global = self.global.handle;
            Step::Call(
                Release { global: self.global, released: true },
                Call::DeleteGlobalRef { global },
            )
        }
    }
}

/// The operation that makes one more local reference to the object that
/// `this` yields. Nothing crosses the boundary until it is run.
pub fn as_local<This, J>(this: This) -> (op: AsLocal<This, J>)
    ensures
        op == (AsLocal { stage: Referring::Target(this), marker: PhantomData::<J> }),
{
    AsLocal { stage: Referring::Target(this), marker: PhantomData }
}

/// The operation that makes a global reference to the object that `this`
/// yields. Nothing crosses the boundary until it is run.
pub fn promote_to_global<This, J>(this: This) -> (op: Promote<This, J>)
    ensures
        op == (Promote { stage: Referring::Target(this), marker: PhantomData::<J> }),
{
    Promote { stage: Referring::Target(this), marker: PhantomData }
}

/// The operation that runs `This` and refuses a null reference where `This`
/// yields one: what is declared never to be null is not passed on as null.
/// It makes no call of its own.
pub struct AssertNotNull<This, J> {
    pub this: This,
    pub marker: PhantomData<J>,
}

/// The operation that runs `this` and refuses a null reference.
pub fn assert_not_null<This, J>(this: This) -> (op: AssertNotNull<This, J>)
    ensures
        op == (AssertNotNull { this, marker: PhantomData::<J> }),
{
    AssertNotNull { this, marker: PhantomData }
}

impl<'a, This, J, T> JvmOp<'a, T> for AssertNotNull<This, J> where
    This: JvmOp<'a, T>,
    This::Output: AsJRef<J>,
    T: JavaScalar,
 {
    type Output = Local<'a, J>;

    open spec fn calls_left(self) -> nat {
        self.this.calls_left()
    }

    open spec fn step_spec(self, reply: Option<ReplyView<T>>) -> StepView<'a, Self, Handle, T> {
        match self.this.step_spec(reply) {
            StepView::Call(next, call) => StepView::Call(
                AssertNotNull { this: next, marker: PhantomData },
                call,
            ),
            StepView::Done(Err(e)) => StepView::Done(Err(e)),
            StepView::Done(Ok(out)) => match <This::Output as AsJRef<J>>::jref(out) {
                None => StepView::Done(Err(ErrorView::NullDeref)),
                Some(object) => StepView::Done(Ok(object)),
            },
        }
    }

    proof fn lemma_calls_decrease(self, reply: Option<ReplyView<T>>) {
        self.this.lemma_calls_decrease(reply);
    }

    fn step(self, reply: Option<Reply<T>>) -> (next: Step<'a, Self, Local<'a, J>, T>) {
        match self.this.step(reply) {
            Step::Call(next, call) => Step::Call(
                AssertNotNull { this: next, marker: PhantomData },
                call,
            ),
            Step::Done(Err(e)) => Step::Done(Err(e)),
            Step::Done(Ok(out)) => match out.as_jref() {
                Err(e) => Step::Done(Err(e)),
                Ok(object) => Step::Done(Ok(Local::from_handle(object))),
            },
        }
    }
}

} // verus!
