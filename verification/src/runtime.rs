//! The model of the foreign side in memory, and the loop that runs an
//! operation against it.

use vstd::prelude::*;
use vstd::slice::{slice_subrange, slice_to_vec};
use crate::error::{Error, ErrorView};
use vstd::string::StringExecFns;
use crate::model::{
    Heap, Object, ObjectView, builtins, descends, find_class, last_index, lemma_last_index,
    overwrite,
};
use crate::protocol::{Call, JvmOp, Reply, ReplyView, Step, StepView, text_view};
use crate::reference::{Handle, group_handle};
use crate::scalar::JavaScalar;

verus! {

broadcast use group_handle;

/// The result of an operation as a mathematical value.
pub open spec fn result_view<O: View>(result: Result<O, Error>) -> Result<O::V, ErrorView> {
    match result {
        Ok(o) => Ok(o@),
        Err(e) => Err(e@),
    }
}

/// What running `op` to its end gives, where `reply` answers the call that
/// it asked for last and `heap` is the foreign side after that call: the
/// result of the operation and the state that it leaves.
pub open spec fn run<'a, T: JavaScalar, Op: JvmOp<'a, T>>(
    op: Op,
    reply: Option<ReplyView<T>>,
    heap: Heap<T>,
) -> (Result<<Op::Output as View>::V, ErrorView>, Heap<T>)
    decreases op.calls_left(),
{
    match op.step_spec(reply) {
        StepView::Done(result) => (result, heap),
        StepView::Call(next, call) => {
            proof {
                op.lemma_calls_decrease(reply);
            }
            let (answer, after) = heap.answer(call);
            run(next, Some(answer), after)
        },
    }
}

/// What running `op` from its start gives on `heap`.
pub open spec fn outcome<'a, T: JavaScalar, Op: JvmOp<'a, T>>(op: Op, heap: Heap<T>) -> (
    Result<<Op::Output as View>::V, ErrorView>,
    Heap<T>,
) {
    run(op, None, heap)
}

/// What is still to come after a step: its result where it is the last, and
/// else what running on gives, once the foreign side has answered the call.
pub open spec fn rest<'a, T: JavaScalar, Op: JvmOp<'a, T>>(
    step: StepView<'a, Op, <Op::Output as View>::V, T>,
    heap: Heap<T>,
) -> (Result<<Op::Output as View>::V, ErrorView>, Heap<T>) {
    match step {
        StepView::Done(result) => (result, heap),
        StepView::Call(next, call) => {
            let (answer, after) = heap.answer(call);
            run(next, Some(answer), after)
        },
    }
}

/// The number of calls that are still to come after a step, and one more
/// where it is not the last.
pub open spec fn steps_left<'a, T: JavaScalar, Op: JvmOp<'a, T>>(
    step: StepView<'a, Op, <Op::Output as View>::V, T>,
) -> nat {
    match step {
        StepView::Done(_) => 0,
        StepView::Call(next, _) => next.calls_left() + 1,
    }
}

/// The number of objects that a runtime made with `room` has room for: those
/// that it starts with and `room` more, as far as addresses go.
pub open spec fn capacity(room: usize) -> nat {
    if room > usize::MAX - 9 {
        (usize::MAX - 1) as nat
    } else {
        (room + 8) as nat
    }
}

/// A foreign side in memory.
pub struct Runtime<T: JavaScalar> {
    objects: Vec<Object<T>>,
    pending: Option<Handle>,
    limit: usize,
    fault: bool,
    asked: Vec<(Handle, Handle)>,
    globals: Vec<Handle>,
    global_limit: usize,
    locals: usize,
    local_limit: usize,
    frames: Vec<usize>,
}

impl<T: JavaScalar> View for Runtime<T> {
    type V = Heap<T>;

    closed spec fn view(&self) -> Heap<T> {
        Heap {
            objects: Seq::new(self.objects@.len(), |i: int| self.objects@[i]@),
            pending: self.pending,
            limit: self.limit as nat,
            fault: self.fault,
            asked: self.asked@,
            globals: self.globals@,
            global_limit: self.global_limit as nat,
            locals: self.locals as nat,
            local_limit: self.local_limit as nat,
            frames: Seq::new(self.frames@.len(), |i: int| self.frames@[i] as nat),
        }
    }
}

impl<T: JavaScalar> Runtime<T> {
    /// A runtime with room for `room` objects beside those it starts with,
    /// and for as many references as can be counted.
    pub fn new(room: usize) -> (r: Runtime<T>)
        ensures
            r@ == Heap::<T>::fresh(capacity(room), usize::MAX as nat, usize::MAX as nat),
            r@.wf(),
    {
        Runtime::bounded(room, usize::MAX, usize::MAX)
    }

    /// A runtime with room for `room` objects beside those it starts with,
    /// for `locals` local references and for `globals` global references.
    pub fn bounded(room: usize, locals: usize, globals: usize) -> (r: Runtime<T>)
        ensures
            r@ == Heap::<T>::fresh(capacity(room), locals as nat, globals as nat),
            r@.wf(),
    {
        let limit: usize = if room > usize::MAX - 9 {
            usize::MAX - 1
        } else {
            room + 8
        };
        let root = Handle::from_raw(1).unwrap();
        let memory = Handle::from_raw(2).unwrap();
        let bounds = Handle::from_raw(3).unwrap();
        let missing = Handle::from_raw(4).unwrap();
        let mut objects: Vec<Object<T>> = Vec::new();
        objects.push(Object::Class { name: String::from_str("java/lang/Throwable"), parent: None });
        objects.push(
            Object::Class {
                name: String::from_str("java/lang/OutOfMemoryError"),
                parent: Some(root),
            },
        );
        objects.push(
            Object::Class {
                name: String::from_str("java/lang/ArrayIndexOutOfBoundsException"),
                parent: Some(root),
            },
        );
        objects.push(
            Object::Class {
                name: String::from_str("java/lang/NoClassDefFoundError"),
                parent: Some(root),
            },
        );
        objects.push(
            Object::Class { name: String::from_str(T::kind().array_class_name()), parent: None },
        );
        objects.push(Object::Throwable { class: memory, message: None });
        objects.push(Object::Throwable { class: bounds, message: None });
        objects.push(Object::Throwable { class: missing, message: None });
        let r = Runtime {
            objects,
            pending: None,
            limit,
            fault: false,
            asked: Vec::new(),
            globals: Vec::new(),
            global_limit: globals,
            locals: 0,
            local_limit: locals,
            frames: Vec::new(),
        };
        proof {
            let fresh = Heap::<T>::fresh(capacity(room), locals as nat, globals as nat);
            assert(r@.objects =~= fresh.objects);
            assert(r@.objects.subrange(0, builtins() as int) =~= r@.objects);
            assert(r@.asked =~= fresh.asked);
            assert(r@.globals =~= fresh.globals);
            assert(r@.frames =~= fresh.frames);
            assert forall|i: int| 0 <= i < r@.objects.len() implies #[trigger] r@.sound_at(i) by {
                assert(r@.objects[i] == fresh.objects[i]);
            }
        }
        r
    }

    /// The class of every throwable.
    pub fn throwable_class() -> (r: Handle)
        ensures
            r == crate::model::throwable_class(),
    {
        Handle::from_raw(1).unwrap()
    }

    /// The class of the exception that reports exhausted memory.
    pub fn out_of_memory_class() -> (r: Handle)
        ensures
            r == crate::model::out_of_memory_class(),
    {
        Handle::from_raw(2).unwrap()
    }

    /// The class of the exception that reports an index outside an array.
    pub fn out_of_bounds_class() -> (r: Handle)
        ensures
            r == crate::model::out_of_bounds_class(),
    {
        Handle::from_raw(3).unwrap()
    }

    /// The class of the exception that reports a class that cannot be found.
    pub fn no_class_class() -> (r: Handle)
        ensures
            r == crate::model::no_class_class(),
    {
        Handle::from_raw(4).unwrap()
    }

    /// The class of the arrays that the runtime holds.
    pub fn array_class() -> (r: Handle)
        ensures
            r == crate::model::array_class(),
    {
        Handle::from_raw(5).unwrap()
    }

    /// Defines a class named `name` below `parent`, as foreign code would.
    /// Gives `None`, and changes nothing, where `parent` is no class or the
    /// heap is full.
    pub fn define_class(&mut self, name: &str, parent: Handle) -> (r: Option<Handle>)
        requires
            old(self)@.wf(),
        ensures
            final(self)@.wf(),
            old(self)@.is_class(parent) && old(self)@.has_room() ==> r == Some(old(self)@.next())
                && final(self)@ == old(self)@.with_class(name@, Some(parent)),
            !(old(self)@.is_class(parent) && old(self)@.has_room()) ==> r is None && final(self)@
                == old(self)@,
    {
        if self.is_class(parent) && self.objects.len() < self.limit {
            let ghost before = self@;
            let handle = Handle::from_raw(self.objects.len() + 1).unwrap();
            self.objects.push(Object::Class { name: String::from_str(name), parent: Some(parent) });
            proof {
                assert(self@.objects =~= before.with_class(name@, Some(parent)).objects);
                before.lemma_with_object_wf(ObjectView::Class { name: name@, parent: Some(parent) });
            }
            Some(handle)
        } else {
            None
        }
    }

    /// Makes an exception object of `class` with `message`, as foreign code
    /// would. Gives `None`, and changes nothing, where `class` is no class
    /// or the heap is full.
    pub fn new_throwable(&mut self, class: Handle, message: Option<String>) -> (r: Option<Handle>)
        requires
            old(self)@.wf(),
        ensures
            final(self)@.wf(),
            old(self)@.is_class(class) && old(self)@.has_room() ==> r == Some(old(self)@.next())
                && final(self)@ == old(self)@.with_throwable(class, text_view(message)),
            !(old(self)@.is_class(class) && old(self)@.has_room()) ==> r is None && final(self)@
                == old(self)@,
    {
        if self.is_class(class) && self.objects.len() < self.limit {
            let ghost before = self@;
            let ghost text = text_view(message);
            let handle = Handle::from_raw(self.objects.len() + 1).unwrap();
            self.objects.push(Object::Throwable { class, message });
            proof {
                assert(self@.objects =~= before.with_throwable(class, text).objects);
                before.lemma_with_object_wf(ObjectView::Throwable { class, message: text });
            }
            Some(handle)
        } else {
            None
        }
    }

    /// Whether a call was made that the foreign runtime leaves undefined.
    pub fn faulted(&self) -> (r: bool)
        ensures
            r == self@.fault,
    {
        self.fault
    }

    /// The exception that is pending, if one is.
    pub fn pending(&self) -> (r: Option<Handle>)
        ensures
            r == self@.pending,
    {
        self.pending
    }

    /// The instance tests that were made, oldest first: each the object and
    /// the class that was asked about.
    pub fn asked(&self) -> (r: Vec<(Handle, Handle)>)
        ensures
            r@ == self@.asked,
    {
        let mut copy: Vec<(Handle, Handle)> = Vec::new();
        let mut i: usize = 0;
        while i < self.asked.len()
            invariant
                i <= self.asked@.len(),
                copy@ == self.asked@.subrange(0, i as int),
            decreases self.asked.len() - i,
        {
            copy.push(self.asked[i]);
            i = i + 1;
            assert(copy@ =~= self.asked@.subrange(0, i as int));
        }
        assert(copy@ =~= self.asked@);
        copy
    }

    /// The global references that were made and not yet released, oldest
    /// first: each the object that it pins.
    pub fn globals(&self) -> (r: Vec<Handle>)
        ensures
            r@ == self@.globals,
    {
        let mut copy: Vec<Handle> = Vec::new();
        let mut i: usize = 0;
        while i < self.globals.len()
            invariant
                i <= self.globals@.len(),
                copy@ == self.globals@.subrange(0, i as int),
            decreases self.globals.len() - i,
        {
            copy.push(self.globals[i]);
            i = i + 1;
            assert(copy@ =~= self.globals@.subrange(0, i as int));
        }
        assert(copy@ =~= self.globals@);
        copy
    }

    /// The number of local references that were asked for.
    pub fn locals(&self) -> (r: usize)
        ensures
            r == self@.locals,
    {
        self.locals
    }

    /// The index of the array that `h` refers to, if it refers to one.
    fn array_index(&self, h: Handle) -> (r: Option<usize>)
        ensures
            r is Some <==> self@.is_array(h),
            r matches Some(i) ==> i == h.addr() - 1 && i < self.objects@.len() && self.objects@[i as int] is Array,
    {
        let addr = h.as_raw();
        if 1 <= addr && addr <= self.objects.len() {
            match &self.objects[addr - 1] {
                Object::Array(_) => Some(addr - 1),
                _ => None,
            }
        } else {
            None
        }
    }

    /// The index of the exception object that `h` refers to, if it refers to
    /// one.
    fn throwable_index(&self, h: Handle) -> (r: Option<usize>)
        ensures
            r is Some <==> self@.is_throwable(h),
            r matches Some(i) ==> i == h.addr() - 1 && i < self.objects@.len()
                && self.objects@[i as int] is Throwable,
    {
        let addr = h.as_raw();
        if 1 <= addr && addr <= self.objects.len() {
            match &self.objects[addr - 1] {
                Object::Throwable { .. } => Some(addr - 1),
                _ => None,
            }
        } else {
            None
        }
    }

    /// Whether `h` refers to an object.
    fn holds(&self, h: Handle) -> (r: bool)
        ensures
            r == self@.holds(h),
    {
        let addr = h.as_raw();
        1 <= addr && addr <= self.objects.len()
    }

    /// The first class with the name `name`.
    fn find(&self, name: &str) -> (r: Option<Handle>)
        requires
            self@.wf(),
        ensures
            r == find_class(self@.objects, name@, 0),
    {
        let wanted = String::from_str(name);
        let mut i: usize = 0;
        while i < self.objects.len()
            invariant
                self@.wf(),
                i <= self.objects@.len(),
                wanted@ == name@,
                find_class(self@.objects, name@, 0) == find_class(self@.objects, name@, i as nat),
            decreases self.objects.len() - i,
        {
            let found = match &self.objects[i] {
                Object::Class { name: own, .. } => *own == wanted,
                _ => false,
            };
            if found {
                return Handle::from_raw(i + 1);
            }
            i = i + 1;
        }
        None
    }

    /// The index of the global reference to `object` that was made last.
    fn last_global(&self, object: Handle) -> (r: Option<usize>)
        ensures
            r is Some <==> self@.globals.contains(object),
            match r {
                Some(i) => last_index(self@.globals, object, self@.globals.len()) == Some(
                    i as nat,
                ) && i < self@.globals.len(),
                None => last_index(self@.globals, object, self@.globals.len()) is None,
            },
    {
        let mut upto: usize = self.globals.len();
        while upto > 0
            invariant
                upto <= self.globals@.len(),
                last_index(self@.globals, object, self@.globals.len()) == last_index(
                    self@.globals,
                    object,
                    upto as nat,
                ),
            decreases upto,
        {
            if self.globals[upto - 1] == object {
                proof {
                    lemma_last_index(self@.globals, object, self@.globals.len());
                }
                return Some(upto - 1);
            }
            upto = upto - 1;
        }
        proof {
            lemma_last_index(self@.globals, object, self@.globals.len());
        }
        None
    }

    /// Whether `h` refers to a class.
    fn is_class(&self, h: Handle) -> (r: bool)
        ensures
            r == self@.is_class(h),
    {
        let addr = h.as_raw();
        if 1 <= addr && addr <= self.objects.len() {
            match &self.objects[addr - 1] {
                Object::Class { .. } => true,
                _ => false,
            }
        } else {
            false
        }
    }

    /// Whether `class` is `ancestor` or lies below it.
    fn descends(&self, class: Handle, ancestor: Handle) -> (r: bool)
        requires
            self@.wf(),
        ensures
            r == descends(self@.objects, class, ancestor),
    {
        let mut current = class;
        loop
            invariant
                self@.wf(),
                descends(self@.objects, class, ancestor) == descends(
                    self@.objects,
                    current,
                    ancestor,
                ),
            decreases current.addr(),
        {
            if current == ancestor {
                return true;
            }
            let addr = current.as_raw();
            if !(1 <= addr && addr <= self.objects.len()) {
                return false;
            }
            assert(self@.sound_at(addr - 1));
            match &self.objects[addr - 1] {
                Object::Class { parent: Some(p), .. } => {
                    current = *p;
                },
                _ => {
                    return false;
                },
            }
        }
    }

    /// A copy of the elements of the array that `h` refers to; `None` where
    /// it refers to no array.
    pub fn elements(&self, h: Handle) -> (r: Option<Vec<T>>)
        ensures
            r is Some <==> self@.is_array(h),
            r matches Some(v) ==> v@ == self@.elements(h),
    {
        match self.array_index(h) {
            Some(i) => match &self.objects[i] {
                Object::Array(elements) => Some(slice_to_vec(elements.as_slice())),
                _ => None,
            },
            None => None,
        }
    }

    /// Answers a call as the foreign side would.
    pub fn perform<'a>(&mut self, call: &Call<'a, T>) -> (reply: Reply<T>)
        requires
            old(self)@.wf(),
        ensures
            reply@ == old(self)@.answer(*call).0,
            final(self)@ == old(self)@.answer(*call).1,
            final(self)@.wf(),
    {
        proof {
            self@.lemma_answer_wf(*call);
        }
        match call {
            Call::ExceptionOccurred => Reply::Object(self.pending),
            Call::ExceptionClear => {
                self.pending = None;
                Reply::Void
            },
            Call::Throw { throwable } => {
                if self.pending.is_none() && self.throwable_index(*throwable).is_some() {
                    self.pending = Some(*throwable);
                } else {
                    self.fault = true;
                }
                Reply::Void
            },
            Call::IsInstanceOf { object, class } => Reply::Flag(
                self.is_instance_of(*object, *class),
            ),
            Call::GetMessage { throwable } => Reply::Text(self.get_message(*throwable)),
            Call::FindClass { name } => Reply::Object(self.find_class(name)),
            Call::NewLocalRef { object } => {
                if self.pending.is_some() || !self.holds(*object) {
                    self.fault = true;
                    Reply::Object(None)
                } else if self.locals < self.local_limit {
                    self.locals = self.locals + 1;
                    Reply::Object(Some(*object))
                } else {
                    Reply::Object(None)
                }
            },
            Call::NewGlobalRef { object } => {
                if self.pending.is_some() || !self.holds(*object) {
                    self.fault = true;
                    Reply::Object(None)
                } else if self.globals.len() < self.global_limit {
                    self.globals.push(*object);
                    Reply::Object(Some(*object))
                } else {
                    Reply::Object(None)
                }
            },
            Call::DeleteGlobalRef { global } => {
                match self.last_global(*global) {
                    Some(at) => {
                        self.globals.remove(at);
                    },
                    None => {
                        self.fault = true;
                    },
                }
                Reply::Void
            },
            Call::PushLocalFrame { capacity } => Reply::Status(self.push_local_frame(*capacity)),
            Call::PopLocalFrame => {
                let ghost before = self@;
                match self.frames.pop() {
                    Some(locals) => {
                        self.locals = locals;
                        assert(self@.frames =~= before.left().frames);
                    },
                    None => {
                        self.fault = true;
                        assert(self@.frames =~= before.frames);
                    },
                }
                Reply::Void
            },
            Call::NewArray { len } => Reply::Object(self.new_array(*len)),
            Call::GetArrayLength { array } => Reply::Length(self.get_array_length(*array)),
            Call::GetArrayRegion { array, start, len } => Reply::Region(
                self.get_array_region(*array, *start, *len),
            ),
            Call::SetArrayRegion { array, start, values } => {
                self.set_array_region(*array, *start, values);
                Reply::Void
            },
        }
    }

    fn push_local_frame(&mut self, capacity: i32) -> (r: i32)
        requires
            old(self)@.wf(),
        ensures
            ReplyView::<T>::Status(r) == old(self)@.answer(Call::PushLocalFrame { capacity }).0,
            final(self)@ == old(self)@.answer(Call::PushLocalFrame { capacity }).1,
    {
        let ghost before = self@;
        if self.pending.is_some() || capacity < 0 {
            self.fault = true;
            assert(self@.frames =~= before.frames);
            0
        } else if capacity as usize <= self.local_limit - self.locals {
            self.frames.push(self.locals);
            assert(self@.frames =~= before.entered().frames);
            0
        } else {
            self.pending = Some(Handle::from_raw(6).unwrap());
            assert(self@.frames =~= before.frames);
            -4
        }
    }

    fn is_instance_of(&mut self, object: Handle, class: Handle) -> (r: bool)
        requires
            old(self)@.wf(),
        ensures
            ReplyView::<T>::Flag(r) == old(self)@.answer(Call::IsInstanceOf { object, class }).0,
            final(self)@ == old(self)@.answer(Call::IsInstanceOf { object, class }).1,
    {
        if self.pending.is_some() || !self.is_class(class) {
            self.fault = true;
            return false;
        }
        match self.throwable_index(object) {
            None => {
                self.fault = true;
                false
            },
            Some(at) => {
                let found = match &self.objects[at] {
                    Object::Throwable { class: own, .. } => self.descends(*own, class),
                    _ => false,
                };
                self.asked.push((object, class));
                found
            },
        }
    }

    fn get_message(&mut self, throwable: Handle) -> (r: Option<String>)
        requires
            old(self)@.wf(),
        ensures
            ReplyView::<T>::Text(text_view(r)) == old(self)@.answer(
                Call::GetMessage { throwable },
            ).0,
            final(self)@ == old(self)@.answer(Call::GetMessage { throwable }).1,
    {
        if self.pending.is_some() {
            self.fault = true;
            return None;
        }
        match self.throwable_index(throwable) {
            None => {
                self.fault = true;
                None
            },
            Some(at) => match &self.objects[at] {
                Object::Throwable { message: Some(text), .. } => Some(text.clone()),
                _ => None,
            },
        }
    }

    fn find_class(&mut self, name: &str) -> (r: Option<Handle>)
        requires
            old(self)@.wf(),
        ensures
            ReplyView::<T>::Object(r) == old(self)@.answer(Call::FindClass { name }).0,
            final(self)@ == old(self)@.answer(Call::FindClass { name }).1,
    {
        if self.pending.is_some() {
            self.fault = true;
            return None;
        }
        match self.find(name) {
            Some(class) => Some(class),
            None => {
                self.pending = Some(Handle::from_raw(8).unwrap());
                None
            },
        }
    }

    fn new_array(&mut self, len: i32) -> (r: Option<Handle>)
        requires
            old(self)@.wf(),
        ensures
            ReplyView::<T>::Object(r) == old(self)@.answer(Call::NewArray { len }).0,
            final(self)@ == old(self)@.answer(Call::NewArray { len }).1,
    {
        let ghost before = self@;
        if self.pending.is_some() || len < 0 {
            self.fault = true;
            None
        } else if self.objects.len() < self.limit {
            let mut elements: Vec<T> = Vec::new();
            let mut i: i32 = 0;
            while i < len
                invariant
                    0 <= i <= len,
                    elements@ == Seq::new(i as nat, |k: int| T::zero()),
                decreases len - i,
            {
                elements.push(T::initial());
                i = i + 1;
                assert(elements@ =~= Seq::new(i as nat, |k: int| T::zero()));
            }
            let handle = Handle::from_raw(self.objects.len() + 1);
            self.objects.push(Object::Array(elements));
            assert(self@.objects =~= before.with_array(elements@).objects);
            handle
        } else {
            self.pending = Some(Handle::from_raw(6).unwrap());
            None
        }
    }

    fn get_array_length(&mut self, array: Handle) -> (r: i32)
        requires
            old(self)@.wf(),
        ensures
            ReplyView::<T>::Length(r) == old(self)@.answer(Call::GetArrayLength { array }).0,
            final(self)@ == old(self)@.answer(Call::GetArrayLength { array }).1,
    {
        if self.pending.is_some() {
            self.fault = true;
            return 0;
        }
        match self.array_index(array) {
            None => {
                self.fault = true;
                0
            },
            Some(at) => match &self.objects[at] {
                Object::Array(elements) => {
                    assert(self@.sound_at(at as int));
                    elements.len() as i32
                },
                _ => 0,
            },
        }
    }

    fn get_array_region(&mut self, array: Handle, start: i32, len: i32) -> (r: Vec<T>)
        requires
            old(self)@.wf(),
        ensures
            ReplyView::<T>::Region(r@) == old(self)@.answer(
                Call::GetArrayRegion { array, start, len },
            ).0,
            final(self)@ == old(self)@.answer(Call::GetArrayRegion { array, start, len }).1,
    {
        if self.pending.is_some() {
            self.fault = true;
            return Vec::new();
        }
        match self.array_index(array) {
            None => {
                self.fault = true;
                Vec::new()
            },
            Some(at) => {
                assert(self@.sound_at(at as int));
                let copied: Option<Vec<T>> = match &self.objects[at] {
                    Object::Array(elements) => {
                        if 0 <= start && 0 <= len && (start as i64) + (len as i64)
                            <= elements.len() as i64 {
                            Some(
                                slice_to_vec(
                                    slice_subrange(
                                        elements.as_slice(),
                                        start as usize,
                                        (start + len) as usize,
                                    ),
                                ),
                            )
                        } else {
                            None
                        }
                    },
                    _ => None,
                };
                match copied {
                    Some(region) => region,
                    None => {
                        self.pending = Some(Handle::from_raw(7).unwrap());
                        Vec::new()
                    },
                }
            },
        }
    }

    fn set_array_region<'a>(&mut self, array: Handle, start: i32, values: &'a [T])
        requires
            old(self)@.wf(),
        ensures
            final(self)@ == old(self)@.answer(Call::SetArrayRegion { array, start, values }).1,
    {
        let ghost before = self@;
        if self.pending.is_some() || values.len() > 0x7fff_ffff {
            self.fault = true;
            return ;
        }
        match self.array_index(array) {
            None => {
                self.fault = true;
            },
            Some(at) => {
                assert(self@.sound_at(at as int));
                let written: Option<Vec<T>> = match &self.objects[at] {
                    Object::Array(elements) => {
                        if 0 <= start && (start as i64) + (values.len() as i64)
                            <= elements.len() as i64 {
                            let first = start as usize;
                            let mut updated: Vec<T> = Vec::new();
                            let mut i: usize = 0;
                            while i < elements.len()
                                invariant
                                    i <= elements.len(),
                                    first + values@.len() <= elements@.len(),
                                    updated@ == overwrite(
                                        elements@,
                                        first as int,
                                        values@,
                                    ).subrange(0, i as int),
                                decreases elements.len() - i,
                            {
                                let x = if first <= i && i - first < values.len() {
                                    values[i - first]
                                } else {
                                    elements[i]
                                };
                                updated.push(x);
                                i = i + 1;
                                assert(updated@ =~= overwrite(
                                    elements@,
                                    first as int,
                                    values@,
                                ).subrange(0, i as int));
                            }
                            assert(updated@ =~= overwrite(elements@, first as int, values@));
                            Some(updated)
                        } else {
                            None
                        }
                    },
                    _ => None,
                };
                match written {
                    Some(updated) => {
                        self.objects.set(at, Object::Array(updated));
                        assert(self@.objects =~= before.written(
                            array,
                            start as int,
                            values@,
                        ).objects);
                    },
                    None => {
                        self.pending = Some(Handle::from_raw(7).unwrap());
                    },
                }
            },
        }
    }

    /// Runs an operation to its end: makes each call that it asks for and
    /// hands it the reply.
    pub fn execute<'a, Op: JvmOp<'a, T>>(&mut self, op: Op) -> (result: Result<Op::Output, Error>)
        requires
            old(self)@.wf(),
        ensures
            result_view(result) == outcome(op, old(self)@).0,
            final(self)@ == outcome(op, old(self)@).1,
            final(self)@.wf(),
    {
        let mut step = op.step(None);
        loop
            invariant
                self@.wf(),
                rest(step@, self@) == outcome(op, old(self)@),
            decreases steps_left(step@),
        {
            match step {
                Step::Done(result) => {
                    return result;
                },
                Step::Call(state, call) => {
                    let reply = self.perform(&call);
                    proof {
                        state.lemma_calls_decrease(Some(reply@));
                    }
                    step = state.step(Some(reply));
                },
            }
        }
    }
}

} // verus!
