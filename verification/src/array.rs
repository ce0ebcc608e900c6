//! Foreign arrays of primitives: their type, and the operations that move
//! data between them and native buffers.
//!
//! Every transfer is one bulk call, sized to the data. An operation that
//! works on an array first runs the operation that yields the array.

use vstd::prelude::*;
use core::marker::PhantomData;
use jni_sys::jsize;
use crate::binding::{FindClass, Resolution, array_class_descriptor};
use crate::error::{Error, ErrorView, allocation_failure_text, unexpected_reply_text};
use crate::protocol::{Call, JvmOp, Reply, ReplyView, Step, StepView};
use crate::reference::{AsJRef, Handle, Local};
use crate::scalar::JavaScalar;

verus! {

/// The foreign type "array of `T`". A reference to one carries no length: the
/// length is asked of the foreign side.
pub struct JavaArray<T> {
    _element: PhantomData<T>,
}

impl<T: JavaScalar> JavaArray<T> {
    /// The operation that resolves the class of these arrays.
    pub fn class() -> (op: FindClass<'static>)
        ensures
            op.name@ == T::primitive().array_descriptor(),
            op.stage == Resolution::Start,
    {
        array_class_descriptor::<T>()
    }

    /// The operation that allocates a foreign array with the length of
    /// `values` and copies them into it.
    pub fn from_native_slice<'a>(values: &'a [T]) -> (op: FromNativeSlice<'a, T>)
        ensures
            op == (FromNativeSlice { values, stage: Allocation::Start }),
    {
        FromNativeSlice { values, stage: Allocation::Start }
    }

    /// The operation that copies the array that `this` yields into a native
    /// vector.
    pub fn to_native_vec<'a, This>(this: This) -> (op: ToNativeVec<This, T>) where
        This: JvmOp<'a, T>,
        This::Output: AsJRef<JavaArray<T>>,

        ensures
            op == (ToNativeVec { stage: Read::Target(this), element: PhantomData::<T> }),
    {
        ToNativeVec { stage: Read::Target(this), element: PhantomData }
    }
}

/// An operation that yields an array of `T`, seen as one: what the array
/// operations are called on. `N` is the view of the operation as one that
/// yields an object of the next wider type.
pub struct JavaArrayOp<T, J, N> {
    pub this: J,
    pub phantom: PhantomData<(JavaArray<T>, N)>,
}

impl<T, J, N> JavaArrayOp<T, J, N> {
    /// The operation `j`, seen as one that yields an array.
    pub fn from_ref(j: J) -> (op: JavaArrayOp<T, J, N>)
        ensures
            op.this == j,
    {
        JavaArrayOp { this: j, phantom: PhantomData }
    }
}

impl<'a, T, J, N> JvmOp<'a, T> for JavaArrayOp<T, J, N> where J: JvmOp<'a, T>, T: JavaScalar {
    type Output = J::Output;

    open spec fn calls_left(self) -> nat {
        self.this.calls_left()
    }

    open spec fn step_spec(self, reply: Option<ReplyView<T>>) -> StepView<
        'a,
        Self,
        <J::Output as View>::V,
        T,
    > {
        match self.this.step_spec(reply) {
            StepView::Call(next, call) => StepView::Call(
                JavaArrayOp { this: next, phantom: PhantomData },
                call,
            ),
            StepView::Done(result) => StepView::Done(result),
        }
    }

    proof fn lemma_calls_decrease(self, reply: Option<ReplyView<T>>) {
        self.this.lemma_calls_decrease(reply);
    }

    fn step(self, reply: Option<Reply<T>>) -> (next: Step<'a, Self, J::Output, T>) {
        match self.this.step(reply) {
            Step::Call(next, call) => Step::Call(
                JavaArrayOp { this: next, phantom: PhantomData },
                call,
            ),
            Step::Done(result) => Step::Done(result),
        }
    }
}

/// A reference to an array of `T`, seen as one: what the array operations
/// are called on. `N` is the view of the reference as one to an object of
/// the next wider type.
pub struct JavaArrayObj<T, J, N> {
    pub this: J,
    pub phantom: PhantomData<(JavaArray<T>, N)>,
}

impl<T, J, N> JavaArrayObj<T, J, N> {
    /// The reference `j`, seen as one to an array.
    pub fn from_ref(j: J) -> (obj: JavaArrayObj<T, J, N>)
        ensures
            obj.this == j,
    {
        JavaArrayObj { this: j, phantom: PhantomData }
    }
}

impl<T, J: View, N> View for JavaArrayObj<T, J, N> {
    type V = J::V;

    open spec fn view(&self) -> J::V {
        self.this@
    }
}

impl<T, J, N> AsJRef<JavaArray<T>> for JavaArrayObj<T, J, N> where J: AsJRef<JavaArray<T>> {
    open spec fn jref(v: J::V) -> Option<Handle> {
        <J as AsJRef<JavaArray<T>>>::jref(v)
    }

    fn as_jref(&self) -> (r: Result<Handle, Error>) {
        self.this.as_jref()
    }
}

impl<'a, T, J, N> JvmOp<'a, T> for JavaArrayObj<T, J, N> where
    J: AsJRef<JavaArray<T>>,
    T: JavaScalar,
 {
    type Output = JavaArrayObj<T, J, N>;

    open spec fn calls_left(self) -> nat {
        0
    }

    open spec fn step_spec(self, reply: Option<ReplyView<T>>) -> StepView<'a, Self, J::V, T> {
        StepView::Done(Ok(self@))
    }

    proof fn lemma_calls_decrease(self, reply: Option<ReplyView<T>>) {
    }

    fn step(self, reply: Option<Reply<T>>) -> (next: Step<'a, Self, JavaArrayObj<T, J, N>, T>) {
        Step::Done(Ok(self))
    }
}

/// Whether a native length or index is one that the foreign side can count
/// to.
pub open spec fn representable(n: nat) -> bool {
    n <= i32::MAX
}

/// The foreign number for a native length or index, where there is one.
pub fn to_jsize(n: usize) -> (r: Option<jsize>)
    ensures
        r == (if representable(n as nat) { Some(n as jsize) } else { None }),
{
    if n <= 0x7fff_ffff {
        Some(n as jsize)
    } else {
        None
    }
}

/// How far an allocation has come.
pub enum Allocation {
    /// Nothing was asked for yet.
    Start,
    /// The array was asked for.
    Allocating,
    /// The pending exception was asked for. What the allocation returned
    /// waits here, unread until the foreign side is known to have raised
    /// nothing.
    Checking(Option<Handle>),
    /// The exception that the allocation raised is being cleared.
    Clearing(Handle),
    /// The values are being copied into the new array.
    Filling(Handle),
}

/// The operation that allocates a foreign array with the length of a native
/// slice and copies the slice into it.
pub struct FromNativeSlice<'a, T> {
    pub values: &'a [T],
    pub stage: Allocation,
}

impl<'a, T: JavaScalar> JvmOp<'a, T> for FromNativeSlice<'a, T> {
    type Output = Local<'a, JavaArray<T>>;

    open spec fn calls_left(self) -> nat {
        match self.stage {
            Allocation::Start => 4,
            Allocation::Allocating => 3,
            Allocation::Checking(_) => 2,
            Allocation::Clearing(_) => 1,
            Allocation::Filling(_) => 1,
        }
    }

    open spec fn step_spec(self, reply: Option<ReplyView<T>>) -> StepView<'a, Self, Handle, T> {
        let values = self.values;
        match self.stage {
            Allocation::Start => if representable(values@.len()) {
                StepView::Call(
                    FromNativeSlice { values, stage: Allocation::Allocating },
                    Call::NewArray { len: values@.len() as jsize },
                )
            } else {
                StepView::Done(Err(ErrorView::SliceTooLong(values@.len() as usize)))
            },
            Allocation::Allocating => match reply {
                Some(ReplyView::Object(returned)) => StepView::Call(
                    FromNativeSlice { values, stage: Allocation::Checking(returned) },
                    Call::ExceptionOccurred,
                ),
                _ => StepView::Done(Err(ErrorView::JvmInternal(unexpected_reply_text()))),
            },
            Allocation::Checking(returned) => match reply {
                Some(ReplyView::Object(Some(thrown))) => StepView::Call(
                    FromNativeSlice { values, stage: Allocation::Clearing(thrown) },
                    Call::ExceptionClear,
                ),
                Some(ReplyView::Object(None)) => match returned {
                    Some(array) => StepView::Call(
                        FromNativeSlice { values, stage: Allocation::Filling(array) },
                        Call::SetArrayRegion { array, start: 0, values },
                    ),
                    None => StepView::Done(
                        Err(
                            ErrorView::JvmInternal(
                                allocation_failure_text(T::primitive(), values@.len()),
                            ),
                        ),
                    ),
                },
                _ => StepView::Done(Err(ErrorView::JvmInternal(unexpected_reply_text()))),
            },
            Allocation::Clearing(thrown) => match reply {
                Some(ReplyView::Void) => StepView::Done(Err(ErrorView::Thrown(thrown))),
                _ => StepView::Done(Err(ErrorView::JvmInternal(unexpected_reply_text()))),
            },
            Allocation::Filling(array) => match reply {
                Some(ReplyView::Void) => StepView::Done(Ok(array)),
                _ => StepView::Done(Err(ErrorView::JvmInternal(unexpected_reply_text()))),
            },
        }
    }

    proof fn lemma_calls_decrease(self, reply: Option<ReplyView<T>>) {
    }

    fn step(self, reply: Option<Reply<T>>) -> (next: Step<'a, Self, Local<'a, JavaArray<T>>, T>) {
        let values = self.values;
        match self.stage {
            Allocation::Start => match to_jsize(values.len()) {
                Some(len) => Step::Call(
                    FromNativeSlice { values, stage: Allocation::Allocating },
                    Call::NewArray { len },
                ),
                None => Step::Done(Err(Error::SliceTooLong(values.len()))),
            },
            Allocation::Allocating => match reply {
                Some(Reply::Object(returned)) => Step::Call(
                    FromNativeSlice { values, stage: Allocation::Checking(returned) },
                    Call::ExceptionOccurred,
                ),
                _ => Step::Done(Err(Error::unexpected_reply())),
            },
            Allocation::Checking(returned) => match reply {
                Some(Reply::Object(Some(thrown))) => Step::Call(
                    FromNativeSlice { values, stage: Allocation::Clearing(thrown) },
                    Call::ExceptionClear,
                ),
                Some(Reply::Object(None)) => match returned {
                    Some(array) => Step::Call(
                        FromNativeSlice { values, stage: Allocation::Filling(array) },
                        Call::SetArrayRegion { array, start: 0, values },
                    ),
                    None => Step::Done(Err(Error::allocation_failure(T::kind(), values.len()))),
                },
                _ => Step::Done(Err(Error::unexpected_reply())),
            },
            Allocation::Clearing(thrown) => match reply {
                Some(Reply::Void) => Step::Done(Err(Error::Thrown(thrown))),
                _ => Step::Done(Err(Error::unexpected_reply())),
            },
            Allocation::Filling(array) => match reply {
                Some(Reply::Void) => Step::Done(Ok(Local::from_handle(array))),
                _ => Step::Done(Err(Error::unexpected_reply())),
            },
        }
    }
}

/// How far an operation on the array of `This` has come, where the operation
/// makes one call.
pub enum LengthState<This> {
    /// The operation that yields the array is running.
    Target(This),
    /// The length was asked for.
    Query,
}

/// The operation that asks for the length of the array that `This` yields.
pub struct Length<This, T> {
    pub state: LengthState<This>,
    pub element: PhantomData<T>,
}

impl<This: Copy> Clone for LengthState<This> {
    fn clone(&self) -> (r: LengthState<This>)
        ensures
            r == *self,
    {
        *self
    }
}

impl<This: Copy> Copy for LengthState<This> {

}

impl<This: Copy, T> Clone for Length<This, T> {
    fn clone(&self) -> (r: Length<This, T>)
        ensures
            r == *self,
    {
        Length { state: self.state, element: PhantomData }
    }
}

impl<This: Copy, T> Copy for Length<This, T> {

}

impl<'a, This, T> JvmOp<'a, T> for Length<This, T> where
    This: JvmOp<'a, T>,
    This::Output: AsJRef<JavaArray<T>>,
    T: JavaScalar,
 {
    type Output = jsize;

    open spec fn calls_left(self) -> nat {
        match self.state {
            LengthState::Target(this) => this.calls_left() + 2,
            LengthState::Query => 1,
        }
    }

    open spec fn step_spec(self, reply: Option<ReplyView<T>>) -> StepView<'a, Self, jsize, T> {
        match self.state {
            LengthState::Target(this) => match this.step_spec(reply) {
                StepView::Call(next, call) => StepView::Call(
                    Length { state: LengthState::Target(next), element: PhantomData },
                    call,
                ),
                StepView::Done(Err(e)) => StepView::Done(Err(e)),
                StepView::Done(Ok(out)) => match <This::Output as AsJRef<JavaArray<T>>>::jref(
                    out,
                ) {
                    None => StepView::Done(Err(ErrorView::NullDeref)),
                    Some(array) => StepView::Call(
                        Length { state: LengthState::Query, element: PhantomData },
                        Call::GetArrayLength { array },
                    ),
                },
            },
            LengthState::Query => match reply {
                Some(ReplyView::Length(n)) => StepView::Done(Ok(n)),
                _ => StepView::Done(Err(ErrorView::JvmInternal(unexpected_reply_text()))),
            },
        }
    }

    proof fn lemma_calls_decrease(self, reply: Option<ReplyView<T>>) {
        if let LengthState::Target(this) = self.state {
            this.lemma_calls_decrease(reply);
        }
    }

    fn step(self, reply: Option<Reply<T>>) -> (next: Step<'a, Self, jsize, T>) {
        match self.state {
            LengthState::Target(this) => match this.step(reply) {
                Step::Call(next, call) => Step::Call(
                    Length { state: LengthState::Target(next), element: PhantomData },
                    call,
                ),
                Step::Done(Err(e)) => Step::Done(Err(e)),
                Step::Done(Ok(out)) => match out.as_jref() {
                    Err(e) => Step::Done(Err(e)),
                    Ok(array) => Step::Call(
                        Length { state: LengthState::Query, element: PhantomData },
                        Call::GetArrayLength { array },
                    ),
                },
            },
            LengthState::Query => match reply {
                Some(Reply::Length(n)) => Step::Done(Ok(n)),
                _ => Step::Done(Err(Error::unexpected_reply())),
            },
        }
    }
}

/// How far a copy out of the array of `This` has come.
pub enum Read<This> {
    /// The operation that yields the array is running.
    Target(This),
    /// The length of this array was asked for.
    Measuring(Handle),
    /// This many elements, all that the array has, were asked for.
    Copying(jsize),
}

/// The operation that copies the array that `This` yields into a native
/// vector.
pub struct ToNativeVec<This, T> {
    pub stage: Read<This>,
    pub element: PhantomData<T>,
}

impl<'a, This, T> JvmOp<'a, T> for ToNativeVec<This, T> where
    This: JvmOp<'a, T>,
    This::Output: AsJRef<JavaArray<T>>,
    T: JavaScalar,
 {
    type Output = Vec<T>;

    open spec fn calls_left(self) -> nat {
        match self.stage {
            Read::Target(this) => this.calls_left() + 3,
            Read::Measuring(_) => 2,
            Read::Copying(_) => 1,
        }
    }

    open spec fn step_spec(self, reply: Option<ReplyView<T>>) -> StepView<'a, Self, Seq<T>, T> {
        match self.stage {
            Read::Target(this) => match this.step_spec(reply) {
                StepView::Call(next, call) => StepView::Call(
                    ToNativeVec { stage: Read::Target(next), element: PhantomData },
                    call,
                ),
                StepView::Done(Err(e)) => StepView::Done(Err(e)),
                StepView::Done(Ok(out)) => match <This::Output as AsJRef<JavaArray<T>>>::jref(
                    out,
                ) {
                    None => StepView::Done(Err(ErrorView::NullDeref)),
                    Some(array) => StepView::Call(
                        ToNativeVec { stage: Read::Measuring(array), element: PhantomData },
                        Call::GetArrayLength { array },
                    ),
                },
            },
            Read::Measuring(array) => match reply {
                Some(ReplyView::Length(len)) if len >= 0 => StepView::Call(
                    ToNativeVec { stage: Read::Copying(len), element: PhantomData },
                    Call::GetArrayRegion { array, start: 0, len },
                ),
                _ => StepView::Done(Err(ErrorView::JvmInternal(unexpected_reply_text()))),
            },
            Read::Copying(len) => match reply {
                Some(ReplyView::Region(elements)) if elements.len() == len => StepView::Done(
                    Ok(elements),
                ),
                _ => StepView::Done(Err(ErrorView::JvmInternal(unexpected_reply_text()))),
            },
        }
    }

    proof fn lemma_calls_decrease(self, reply: Option<ReplyView<T>>) {
        if let Read::Target(this) = self.stage {
            this.lemma_calls_decrease(reply);
        }
    }

    fn step(self, reply: Option<Reply<T>>) -> (next: Step<'a, Self, Vec<T>, T>) {
        match self.stage {
            Read::Target(this) => match this.step(reply) {
                Step::Call(next, call) => Step::Call(
                    ToNativeVec { stage: Read::Target(next), element: PhantomData },
                    call,
                ),
                Step::Done(Err(e)) => Step::Done(Err(e)),
                Step::Done(Ok(out)) => match out.as_jref() {
                    Err(e) => Step::Done(Err(e)),
                    Ok(array) => Step::Call(
                        ToNativeVec { stage: Read::Measuring(array), element: PhantomData },
                        Call::GetArrayLength { array },
                    ),
                },
            },
            Read::Measuring(array) => match reply {
                Some(Reply::Length(len)) => {
                    if len >= 0 {
                        Step::Call(
                            ToNativeVec { stage: Read::Copying(len), element: PhantomData },
                            Call::GetArrayRegion { array, start: 0, len },
                        )
                    } else {
                        Step::Done(Err(Error::unexpected_reply()))
                    }
                },
                _ => Step::Done(Err(Error::unexpected_reply())),
            },
            Read::Copying(len) => match reply {
                Some(Reply::Region(elements)) => {
                    if len >= 0 && elements.len() == len as usize {
                        Step::Done(Ok(elements))
                    } else {
                        Step::Done(Err(Error::unexpected_reply()))
                    }
                },
                _ => Step::Done(Err(Error::unexpected_reply())),
            },
        }
    }
}

/// How far a write into the array of `This` has come.
pub enum Write<This> {
    /// The operation that yields the array is running.
    Target(This),
    /// The values were handed over.
    Writing,
    /// The pending exception was asked for.
    Checking,
    /// The exception that the write raised is being cleared.
    Clearing(Handle),
}

/// The operation that writes `values` into the array that `This` yields,
/// from index `start` on.
pub struct SetArrayRegion<'a, This, T, RT> {
    pub stage: Write<This>,
    pub element: PhantomData<T>,
    pub start: usize,
    pub values: &'a [RT],
}

impl<This: Copy> Clone for Write<This> {
    fn clone(&self) -> (r: Write<This>)
        ensures
            r == *self,
    {
        *self
    }
}

impl<This: Copy> Copy for Write<This> {

}

impl<'a, This: Copy, T, RT> Clone for SetArrayRegion<'a, This, T, RT> {
    fn clone(&self) -> (r: SetArrayRegion<'a, This, T, RT>)
        ensures
            r == *self,
    {
        SetArrayRegion {
            stage: self.stage,
            element: PhantomData,
            start: self.start,
            values: self.values,
        }
    }
}

impl<'a, This: Copy, T, RT> Copy for SetArrayRegion<'a, This, T, RT> {

}

impl<'a, This, RT> JvmOp<'a, RT> for SetArrayRegion<'a, This, JavaArray<RT>, RT> where
    This: JvmOp<'a, RT>,
    This::Output: AsJRef<JavaArray<RT>>,
    RT: JavaScalar,
 {
    type Output = ();

    open spec fn calls_left(self) -> nat {
        match self.stage {
            Write::Target(this) => this.calls_left() + 4,
            Write::Writing => 3,
            Write::Checking => 2,
            Write::Clearing(_) => 1,
        }
    }

    open spec fn step_spec(self, reply: Option<ReplyView<RT>>) -> StepView<'a, Self, (), RT> {
        let start = self.start;
        let values = self.values;
        match self.stage {
            Write::Target(this) => match this.step_spec(reply) {
                StepView::Call(next, call) => StepView::Call(
                    SetArrayRegion {
                        stage: Write::Target(next),
                        element: PhantomData,
                        start,
                        values,
                    },
                    call,
                ),
                StepView::Done(Err(e)) => StepView::Done(Err(e)),
                StepView::Done(Ok(out)) => match <This::Output as AsJRef<JavaArray<RT>>>::jref(
                    out,
                ) {
                    None => StepView::Done(Err(ErrorView::NullDeref)),
                    Some(array) => if !representable(values@.len()) {
                        StepView::Done(Err(ErrorView::SliceTooLong(values@.len() as usize)))
                    } else if !representable(start as nat) {
                        StepView::Done(Err(ErrorView::IndexTooLarge(start)))
                    } else {
                        StepView::Call(
                            SetArrayRegion {
                                stage: Write::Writing,
                                element: PhantomData,
                                start,
                                values,
                            },
                            Call::SetArrayRegion { array, start: start as jsize, values },
                        )
                    },
                },
            },
            Write::Writing => match reply {
                Some(ReplyView::Void) => StepView::Call(
                    SetArrayRegion { stage: Write::Checking, element: PhantomData, start, values },
                    Call::ExceptionOccurred,
                ),
                _ => StepView::Done(Err(ErrorView::JvmInternal(unexpected_reply_text()))),
            },
            Write::Checking => match reply {
                Some(ReplyView::Object(None)) => StepView::Done(Ok(())),
                Some(ReplyView::Object(Some(thrown))) => StepView::Call(
                    SetArrayRegion {
                        stage: Write::Clearing(thrown),
                        element: PhantomData,
                        start,
                        values,
                    },
                    Call::ExceptionClear,
                ),
                _ => StepView::Done(Err(ErrorView::JvmInternal(unexpected_reply_text()))),
            },
            Write::Clearing(thrown) => match reply {
                Some(ReplyView::Void) => StepView::Done(Err(ErrorView::Thrown(thrown))),
                _ => StepView::Done(Err(ErrorView::JvmInternal(unexpected_reply_text()))),
            },
        }
    }

    proof fn lemma_calls_decrease(self, reply: Option<ReplyView<RT>>) {
        if let Write::Target(this) = self.stage {
            this.lemma_calls_decrease(reply);
        }
    }

    fn step(self, reply: Option<Reply<RT>>) -> (next: Step<'a, Self, (), RT>) {
        let start = self.start;
        let values = self.values;
        match self.stage {
            Write::Target(this) => match this.step(reply) {
                Step::Call(next, call) => Step::Call(
                    SetArrayRegion {
                        stage: Write::Target(next),
                        element: PhantomData,
                        start,
                        values,
                    },
                    call,
                ),
                Step::Done(Err(e)) => Step::Done(Err(e)),
                Step::Done(Ok(out)) => match out.as_jref() {
                    Err(e) => Step::Done(Err(e)),
                    Ok(array) => {
                        if to_jsize(values.len()).is_none() {
                            Step::Done(Err(Error::SliceTooLong(values.len())))
                        } else {
                            match to_jsize(start) {
                                None => Step::Done(Err(Error::IndexTooLarge(start))),
                                Some(first) => Step::Call(
                                    SetArrayRegion {
                                        stage: Write::Writing,
                                        element: PhantomData,
                                        start,
                                        values,
                                    },
                                    Call::SetArrayRegion { array, start: first, values },
                                ),
                            }
                        }
                    },
                },
            },
            Write::Writing => match reply {
                Some(Reply::Void) => Step::Call(
                    SetArrayRegion { stage: Write::Checking, element: PhantomData, start, values },
                    Call::ExceptionOccurred,
                ),
                _ => Step::Done(Err(Error::unexpected_reply())),
            },
            Write::Checking => match reply {
                Some(Reply::Object(None)) => Step::Done(Ok(())),
                Some(Reply::Object(Some(thrown))) => Step::Call(
                    SetArrayRegion {
                        stage: Write::Clearing(thrown),
                        element: PhantomData,
                        start,
                        values,
                    },
                    Call::ExceptionClear,
                ),
                _ => Step::Done(Err(Error::unexpected_reply())),
            },
            Write::Clearing(thrown) => match reply {
                Some(Reply::Void) => Step::Done(Err(Error::Thrown(thrown))),
                _ => Step::Done(Err(Error::unexpected_reply())),
            },
        }
    }
}

/// The length of an array, as an operation on whatever yields the array.
pub trait JavaArrayExt<'a, T: JavaScalar>: JvmOp<'a, T> {
    /// The operation that asks for the length of the array that `self`
    /// yields. Nothing crosses the boundary until it is run.
    fn length(self) -> (op: Length<Self, T>)
        ensures
            op == (Length { state: LengthState::Target(self), element: PhantomData::<T> }),
    ;
}

impl<'a, This, T> JavaArrayExt<'a, T> for This where
    This: JvmOp<'a, T>,
    This::Output: AsJRef<JavaArray<T>>,
    T: JavaScalar,
 {
    fn length(self) -> (op: Length<Self, T>) {
        Length { state: LengthState::Target(self), element: PhantomData }
    }
}

/// Writing into an array, as an operation on whatever yields the array.
pub trait JavaArrayModificationExt<'a, T, RT: JavaScalar>: JvmOp<'a, RT> {
    /// The operation that writes `values` into the array that `self` yields,
    /// from index `start` on. Nothing crosses the boundary until it is run.
    fn set_array_region(self, start: usize, values: &'a [RT]) -> (op: SetArrayRegion<
        'a,
        Self,
        T,
        RT,
    >)
        ensures
            op == (SetArrayRegion {
                stage: Write::Target(self),
                element: PhantomData::<T>,
                start,
                values,
            }),
    ;
}

impl<'a, This, RT> JavaArrayModificationExt<'a, JavaArray<RT>, RT> for This where
    This: JvmOp<'a, RT>,
    This::Output: AsJRef<JavaArray<RT>>,
    RT: JavaScalar,
 {
    fn set_array_region(self, start: usize, values: &'a [RT]) -> (op: SetArrayRegion<
        'a,
        Self,
        JavaArray<RT>,
        RT,
    >) {
        SetArrayRegion { stage: Write::Target(self), element: PhantomData, start, values }
    }
}

} // verus!
