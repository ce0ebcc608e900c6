//! The binding of native types to foreign classes: the descriptor under
//! which a class is known, the resolution of a descriptor to the class
//! object, and the declarations of which type widens to which.

use vstd::prelude::*;
use core::marker::PhantomData;
use crate::array::JavaArray;
use crate::error::{Error, ErrorView, class_not_found_text, unexpected_reply_text};
use crate::exception::Throwable;
use crate::protocol::{Call, JvmOp, Reply, ReplyView, Step, StepView};
use crate::reference::{Global, Handle, Local, Upcast};
use crate::scalar::JavaScalar;

verus! {

/// The foreign type of every object.
pub struct Object {
    _private: PhantomData<()>,
}

/// The foreign type of class objects.
pub struct Class {
    _private: PhantomData<()>,
}

/// A native type that stands for a foreign class.
pub trait JavaObject {
    /// The descriptor under which the foreign runtime knows the class.
    spec fn descriptor() -> Seq<char>;

    /// The descriptor under which the foreign runtime knows the class.
    fn class_name() -> (name: &'static str)
        ensures
            name@ == Self::descriptor(),
    ;
}

impl JavaObject for Object {
    open spec fn descriptor() -> Seq<char> {
        "java/lang/Object"@
    }

    fn class_name() -> (name: &'static str) {
        "java/lang/Object"
    }
}

impl JavaObject for Class {
    open spec fn descriptor() -> Seq<char> {
        "java/lang/Class"@
    }

    fn class_name() -> (name: &'static str) {
        "java/lang/Class"
    }
}

impl JavaObject for Throwable {
    open spec fn descriptor() -> Seq<char> {
        "java/lang/Throwable"@
    }

    fn class_name() -> (name: &'static str) {
        "java/lang/Throwable"
    }
}

impl<T: JavaScalar> JavaObject for JavaArray<T> {
    open spec fn descriptor() -> Seq<char> {
        T::primitive().array_descriptor()
    }

    fn class_name() -> (name: &'static str) {
        T::kind().array_class_name()
    }
}

impl<T: JavaScalar> Upcast<JavaArray<T>> for JavaArray<T> {

}

impl<T: JavaScalar> Upcast<Object> for JavaArray<T> {

}

impl Upcast<Object> for Object {

}

impl Upcast<Object> for Class {

}

impl Upcast<Class> for Class {

}

impl Upcast<Object> for Throwable {

}

impl Upcast<Throwable> for Throwable {

}

/// How far the resolution of a class has come.
pub enum Resolution {
    /// Nothing was asked for yet.
    Start,
    /// The class was asked for.
    Finding,
    /// The pending exception was asked for. What the search returned waits
    /// here, unread until the foreign side is known to have raised nothing.
    Checking(Option<Handle>),
    /// The exception that the search raised is being cleared.
    Clearing(Handle),
    /// The class was resolved before, to this class object: nothing is asked
    /// for again.
    Known(Handle),
}

/// The operation that resolves the descriptor `name` to the class object.
/// A class that cannot be found is a failure; nothing else is tried.
pub struct FindClass<'a> {
    pub name: &'a str,
    pub stage: Resolution,
}

impl<'a> FindClass<'a> {
    /// The operation that resolves the descriptor `name`.
    pub fn named(name: &'a str) -> (op: FindClass<'a>)
        ensures
            op == (FindClass { name, stage: Resolution::Start }),
    {
        FindClass { name, stage: Resolution::Start }
    }

}

/// The class that the native type `J` stands for: the operation that
/// resolves it where `known` holds no class object yet, and else the class
/// object that `known` holds, without a call. Whoever keeps what the first
/// resolution gave, as a global reference, resolves once.
pub fn cached_class_descriptor<'a, J: JavaObject>(known: &'a Option<Global<Class>>) -> (op:
    FindClass<'static>)
    ensures
        op.name@ == J::descriptor(),
        op.stage == (match *known {
            Some(class) => Resolution::Known(class@),
            None => Resolution::Start,
        }),
{
    match known {
        Some(class) => FindClass { name: J::class_name(), stage: Resolution::Known(class.handle()) },
        None => FindClass { name: J::class_name(), stage: Resolution::Start },
    }
}

/// The operation that resolves the class that the native type `J` stands
/// for.
pub fn class_descriptor<J: JavaObject>() -> (op: FindClass<'static>)
    ensures
        op.name@ == J::descriptor(),
        op.stage == Resolution::Start,
{
    FindClass { name: J::class_name(), stage: Resolution::Start }
}

/// The operation that resolves the class "array of `T`". Arrays are classes
/// of their own in the foreign runtime, one for each element kind.
pub fn array_class_descriptor<T: JavaScalar>() -> (op: FindClass<'static>)
    ensures
        op.name@ == T::primitive().array_descriptor(),
        op.stage == Resolution::Start,
{
    FindClass { name: T::kind().array_class_name(), stage: Resolution::Start }
}

impl<'a, T: JavaScalar> JvmOp<'a, T> for FindClass<'a> {
    type Output = Local<'a, Class>;

    open spec fn calls_left(self) -> nat {
        match self.stage {
            Resolution::Start => 3,
            Resolution::Finding => 2,
            Resolution::Checking(_) => 1,
            Resolution::Clearing(_) => 0,
            Resolution::Known(_) => 0,
        }
    }

    open spec fn step_spec(self, reply: Option<ReplyView<T>>) -> StepView<'a, Self, Handle, T> {
        let name = self.name;
        match self.stage {
            Resolution::Start => StepView::Call(
                FindClass { name, stage: Resolution::Finding },
                Call::FindClass { name },
            ),
            Resolution::Finding => match reply {
                Some(ReplyView::Object(returned)) => StepView::Call(
                    FindClass { name, stage: Resolution::Checking(returned) },
                    Call::ExceptionOccurred,
                ),
                _ => StepView::Done(Err(ErrorView::JvmInternal(unexpected_reply_text()))),
            },
            Resolution::Checking(returned) => match reply {
                Some(ReplyView::Object(Some(thrown))) => StepView::Call(
                    FindClass { name, stage: Resolution::Clearing(thrown) },
                    Call::ExceptionClear,
                ),
                Some(ReplyView::Object(None)) => match returned {
                    Some(class) => StepView::Done(Ok(class)),
                    None => StepView::Done(
                        Err(ErrorView::JvmInternal(class_not_found_text(name@))),
                    ),
                },
                _ => StepView::Done(Err(ErrorView::JvmInternal(unexpected_reply_text()))),
            },
            Resolution::Clearing(thrown) => match reply {
                Some(ReplyView::Void) => StepView::Done(Err(ErrorView::Thrown(thrown))),
                _ => StepView::Done(Err(ErrorView::JvmInternal(unexpected_reply_text()))),
            },
            Resolution::Known(class) => StepView::Done(Ok(class)),
        }
    }

    proof fn lemma_calls_decrease(self, reply: Option<ReplyView<T>>) {
    }

    fn step(self, reply: Option<Reply<T>>) -> (next: Step<'a, Self, Local<'a, Class>, T>) {
        let name = self.name;
        match self.stage {
            Resolution::Start => Step::Call(
                FindClass { name, stage: Resolution::Finding },
                Call::FindClass { name },
            ),
            Resolution::Finding => match reply {
                Some(Reply::Object(returned)) => Step::Call(
                    FindClass { name, stage: Resolution::Checking(returned) },
                    Call::ExceptionOccurred,
                ),
                _ => Step::Done(Err(Error::unexpected_reply())),
            },
            Resolution::Checking(returned) => match reply {
                Some(Reply::Object(Some(thrown))) => Step::Call(
                    FindClass { name, stage: Resolution::Clearing(thrown) },
                    Call::ExceptionClear,
                ),
                Some(Reply::Object(None)) => match returned {
                    Some(class) => Step::Done(Ok(Local::from_handle(class))),
                    None => Step::Done(Err(Error::class_not_found(name))),
                },
                _ => Step::Done(Err(Error::unexpected_reply())),
            },
            Resolution::Clearing(thrown) => match reply {
                Some(Reply::Void) => Step::Done(Err(Error::Thrown(thrown))),
                _ => Step::Done(Err(Error::unexpected_reply())),
            },
            Resolution::Known(class) => Step::Done(Ok(Local::from_handle(class))),
        }
    }
}

} // verus!
