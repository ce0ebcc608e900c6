//! A model of the foreign side: what each call across the boundary does to a
//! heap of primitive arrays and to the pending exception, as the foreign
//! runtime documents it.
//!
//! [`Heap`] is the mathematical state, and [`Heap::answer`] the meaning of a
//! call. [`Runtime`] is the same thing in memory: it answers calls without a
//! foreign runtime at hand, and runs whole operations.

use vstd::prelude::*;
use jni_sys::{jint, jsize};
use crate::protocol::{Call, ReplyView, text_view};
use crate::reference::{Handle, group_handle};
use crate::scalar::JavaScalar;

verus! {

broadcast use group_handle;

/// An object of the modelled heap.
pub enum Object<T> {
    /// A class, below its parent class where it has one.
    Class { name: String, parent: Option<Handle> },
    /// An array of primitives.
    Array(Vec<T>),
    /// An exception object.
    Throwable { class: Handle, message: Option<String> },
}

/// An [`Object`] as a mathematical value.
pub enum ObjectView<T> {
    Class { name: Seq<char>, parent: Option<Handle> },
    Array(Seq<T>),
    Throwable { class: Handle, message: Option<Seq<char>> },
}

impl<T> View for Object<T> {
    type V = ObjectView<T>;

    open spec fn view(&self) -> ObjectView<T> {
        match *self {
            Object::Class { name, parent } => ObjectView::Class { name: name@, parent },
            Object::Array(elements) => ObjectView::Array(elements@),
            Object::Throwable { class, message } => ObjectView::Throwable {
                class,
                message: text_view(message),
            },
        }
    }
}

/// The state of the foreign side.
pub struct Heap<T> {
    /// The objects, in the order in which they were made. The handle of the
    /// object at index `i` holds the address `i + 1`.
    pub objects: Seq<ObjectView<T>>,
    /// The exception that is pending, if one is.
    pub pending: Option<Handle>,
    /// The number of objects that the heap has room for.
    pub limit: nat,
    /// Whether a call was made of which the foreign runtime's documentation
    /// says nothing, so that nothing is known of the state any more.
    pub fault: bool,
    /// The instance tests that were made, oldest first: each the object and
    /// the class that was asked about.
    pub asked: Seq<(Handle, Handle)>,
    /// The global references that were made and not yet released, oldest
    /// first: each the object that it pins.
    pub globals: Seq<Handle>,
    /// The number of global references that there is room for.
    pub global_limit: nat,
    /// The number of local references that were asked for and not yet
    /// released with their frame.
    pub locals: nat,
    /// The number of local references that the table has room for.
    pub local_limit: nat,
    /// The frames of local references that are open, outermost first: each
    /// the number of local references that there were when it was opened.
    pub frames: Seq<nat>,
}

/// `values` written over `elements` from index `start` on.
pub open spec fn overwrite<T>(elements: Seq<T>, start: int, values: Seq<T>) -> Seq<T> {
    Seq::new(
        elements.len(),
        |i: int| if start <= i < start + values.len() { values[i - start] } else { elements[i] },
    )
}

/// Whether, among `objects`, `class` is `ancestor` or lies below it.
pub open spec fn descends<T>(objects: Seq<ObjectView<T>>, class: Handle, ancestor: Handle) -> bool
    decreases class.addr(),
{
    if class == ancestor {
        true
    } else if 1 <= class.addr() <= objects.len() {
        match objects[class.addr() - 1] {
            ObjectView::Class { parent: Some(p), .. } => if p.addr() < class.addr() {
                descends(objects, p, ancestor)
            } else {
                false
            },
            _ => false,
        }
    } else {
        false
    }
}

/// The first class among `objects`, from index `from` on, that has `name`.
pub open spec fn find_class<T>(objects: Seq<ObjectView<T>>, name: Seq<char>, from: nat) -> Option<
    Handle,
>
    decreases objects.len() - from,
{
    if from >= objects.len() {
        None
    } else if objects[from as int] is Class && objects[from as int]->name == name {
        Some(Handle::at((from + 1) as usize))
    } else {
        find_class(objects, name, from + 1)
    }
}

/// The index of the last occurrence of `x` in the first `upto` elements of
/// `s`; `None` where it does not occur there.
pub open spec fn last_index<A>(s: Seq<A>, x: A, upto: nat) -> Option<nat>
    decreases upto,
{
    if upto == 0 || upto > s.len() {
        None
    } else if s[upto - 1] == x {
        Some((upto - 1) as nat)
    } else {
        last_index(s, x, (upto - 1) as nat)
    }
}

/// The number of objects with which every heap starts.
pub open spec fn builtins() -> nat {
    8
}

/// The class of every throwable.
pub open spec fn throwable_class() -> Handle {
    Handle::at(1)
}

/// The class of the exception that reports exhausted memory.
pub open spec fn out_of_memory_class() -> Handle {
    Handle::at(2)
}

/// The class of the exception that reports an index outside an array.
pub open spec fn out_of_bounds_class() -> Handle {
    Handle::at(3)
}

/// The class of the exception that reports a class that cannot be found.
pub open spec fn no_class_class() -> Handle {
    Handle::at(4)
}

/// The class of the arrays that the heap holds.
pub open spec fn array_class() -> Handle {
    Handle::at(5)
}

/// The exception that is raised when no further object can be allocated.
pub open spec fn out_of_memory() -> Handle {
    Handle::at(6)
}

/// The exception that is raised when a region does not lie within its array.
pub open spec fn out_of_bounds() -> Handle {
    Handle::at(7)
}

/// The exception that is raised when no class has the name asked for.
pub open spec fn no_class() -> Handle {
    Handle::at(8)
}

/// The status of a call that failed for want of memory.
pub open spec fn out_of_memory_status() -> jint {
    -4i32
}

/// The name of the class of every throwable.
pub open spec fn throwable_name() -> Seq<char> {
    "java/lang/Throwable"@
}

/// The name of the class of the out-of-memory exception.
pub open spec fn out_of_memory_name() -> Seq<char> {
    "java/lang/OutOfMemoryError"@
}

/// The name of the class of the out-of-bounds exception.
pub open spec fn out_of_bounds_name() -> Seq<char> {
    "java/lang/ArrayIndexOutOfBoundsException"@
}

/// The name of the class of the exception for a class that cannot be found.
pub open spec fn no_class_name() -> Seq<char> {
    "java/lang/NoClassDefFoundError"@
}

impl<T: JavaScalar> Heap<T> {
    /// Whether `h` refers to an object of the heap.
    pub open spec fn holds(self, h: Handle) -> bool {
        1 <= h.addr() <= self.objects.len()
    }

    /// The object that `h` refers to.
    pub open spec fn at(self, h: Handle) -> ObjectView<T>
        recommends
            self.holds(h),
    {
        self.objects[h.addr() - 1]
    }

    /// Whether `h` refers to an array.
    pub open spec fn is_array(self, h: Handle) -> bool {
        self.holds(h) && self.at(h) is Array
    }

    /// The elements of the array that `h` refers to.
    pub open spec fn elements(self, h: Handle) -> Seq<T>
        recommends
            self.is_array(h),
    {
        self.at(h)->Array_0
    }

    /// Whether `h` refers to a class.
    pub open spec fn is_class(self, h: Handle) -> bool {
        self.holds(h) && self.at(h) is Class
    }

    /// Whether `h` refers to an exception object.
    pub open spec fn is_throwable(self, h: Handle) -> bool {
        self.holds(h) && self.at(h) is Throwable
    }

    /// The class of the exception object that `h` refers to.
    pub open spec fn class_of(self, h: Handle) -> Handle
        recommends
            self.is_throwable(h),
    {
        self.at(h)->class
    }

    /// The message of the exception object that `h` refers to.
    pub open spec fn message_of(self, h: Handle) -> Option<Seq<char>>
        recommends
            self.is_throwable(h),
    {
        self.at(h)->message
    }

    /// Whether the exception object that `h` refers to is an instance of
    /// `class`.
    pub open spec fn instance_of(self, h: Handle, class: Handle) -> bool
        recommends
            self.is_throwable(h),
    {
        descends(self.objects, self.class_of(h), class)
    }

    /// Whether the state is one in which an operation may start: it is
    /// well-formed, nothing is pending, and no undefined call was made.
    pub open spec fn quiet(self) -> bool {
        self.wf() && self.pending is None && !self.fault
    }

    /// Whether a further object can be allocated.
    pub open spec fn has_room(self) -> bool {
        self.objects.len() < self.limit
    }

    /// The handle that the next object gets.
    pub open spec fn next(self) -> Handle {
        Handle::at((self.objects.len() + 1) as usize)
    }

    /// The state with one more object.
    pub open spec fn with_object(self, object: ObjectView<T>) -> Heap<T> {
        Heap { objects: self.objects.push(object), ..self }
    }

    /// The state with one more object: an array of `elements`.
    pub open spec fn with_array(self, elements: Seq<T>) -> Heap<T> {
        self.with_object(ObjectView::Array(elements))
    }

    /// The state with one more object: a class named `name` below `parent`.
    pub open spec fn with_class(self, name: Seq<char>, parent: Option<Handle>) -> Heap<T> {
        self.with_object(ObjectView::Class { name, parent })
    }

    /// The state with one more object: an exception object of `class` with
    /// `message`.
    pub open spec fn with_throwable(self, class: Handle, message: Option<Seq<char>>) -> Heap<T> {
        self.with_object(ObjectView::Throwable { class, message })
    }

    /// The state in which the array that `array` refers to holds `values`
    /// from index `start` on, and everything else is as it was.
    pub open spec fn written(self, array: Handle, start: int, values: Seq<T>) -> Heap<T>
        recommends
            self.is_array(array),
    {
        Heap {
            objects: self.objects.update(
                array.addr() - 1,
                ObjectView::Array(overwrite(self.elements(array), start, values)),
            ),
            ..self
        }
    }

    /// The state with one more global reference, to `object`.
    pub open spec fn pinned(self, object: Handle) -> Heap<T> {
        Heap { globals: self.globals.push(object), ..self }
    }

    /// The state without the global reference to `object` that was made
    /// last.
    pub open spec fn released(self, object: Handle) -> Heap<T>
        recommends
            self.globals.contains(object),
    {
        match last_index(self.globals, object, self.globals.len()) {
            Some(i) => Heap { globals: self.globals.remove(i as int), ..self },
            None => self,
        }
    }

    /// The state with one more frame of local references open.
    pub open spec fn entered(self) -> Heap<T> {
        Heap { frames: self.frames.push(self.locals), ..self }
    }

    /// The state with the innermost frame closed: there are as many local
    /// references as there were when it was opened.
    pub open spec fn left(self) -> Heap<T>
        recommends
            self.frames.len() > 0,
    {
        Heap { locals: self.frames.last(), frames: self.frames.drop_last(), ..self }
    }

    /// The objects with which every heap starts: the class of all
    /// throwables; below it the classes of the three exceptions that the
    /// calls raise; the class of the arrays; and one exception object of
    /// each of the three classes.
    pub open spec fn initial_objects() -> Seq<ObjectView<T>> {
        seq![
            ObjectView::Class { name: throwable_name(), parent: None },
            ObjectView::Class { name: out_of_memory_name(), parent: Some(throwable_class()) },
            ObjectView::Class { name: out_of_bounds_name(), parent: Some(throwable_class()) },
            ObjectView::Class { name: no_class_name(), parent: Some(throwable_class()) },
            ObjectView::Class { name: T::primitive().array_descriptor(), parent: None },
            ObjectView::Throwable { class: out_of_memory_class(), message: None },
            ObjectView::Throwable { class: out_of_bounds_class(), message: None },
            ObjectView::Throwable { class: no_class_class(), message: None },
        ]
    }

    /// The heap with which every runtime starts: it holds the
    /// [`Heap::initial_objects`] and has room for `limit` objects,
    /// `local_limit` local references and `global_limit` global references.
    pub open spec fn fresh(limit: nat, local_limit: nat, global_limit: nat) -> Heap<T> {
        Heap {
            objects: Heap::<T>::initial_objects(),
            pending: None,
            limit,
            fault: false,
            asked: Seq::empty(),
            globals: Seq::empty(),
            global_limit,
            locals: 0,
            local_limit,
            frames: Seq::empty(),
        }
    }

    /// Whether the object at index `i` refers only to what lies below it: a
    /// class to a class as its parent, an exception object to a class as its
    /// class; and, where it is an array, is no longer than the foreign
    /// length type allows.
    pub open spec fn sound_at(self, i: int) -> bool {
        match self.objects[i] {
            ObjectView::Class { parent: Some(p), .. } => 1 <= p.addr() <= i && self.objects[p.addr()
                - 1] is Class,
            ObjectView::Class { parent: None, .. } => true,
            ObjectView::Array(elements) => elements.len() <= i32::MAX,
            ObjectView::Throwable { class, .. } => 1 <= class.addr() <= i
                && self.objects[class.addr() - 1] is Class,
        }
    }

    /// The invariant of the state: it starts with the
    /// [`Heap::initial_objects`], every object lies within the limit, every
    /// address fits a handle, every object is sound, what is pending is an
    /// exception object, every global reference pins an object, the
    /// references lie within their limits, and no frame was opened with more
    /// local references than there are.
    pub open spec fn wf(self) -> bool {
        &&& builtins() <= self.objects.len() <= self.limit < usize::MAX
        &&& self.objects.subrange(0, builtins() as int) == Heap::<T>::initial_objects()
        &&& forall|i: int| 0 <= i < self.objects.len() ==> #[trigger] self.sound_at(i)
        &&& self.pending matches Some(e) ==> self.is_throwable(e)
        &&& forall|i: int| 0 <= i < self.globals.len() ==> self.holds(#[trigger] self.globals[i])
        &&& self.globals.len() <= self.global_limit <= usize::MAX
        &&& self.locals <= self.local_limit <= usize::MAX
        &&& forall|i: int| 0 <= i < self.frames.len() ==> #[trigger] self.frames[i] <= self.locals
        &&& forall|i: int, j: int|
            0 <= i <= j < self.frames.len() ==> #[trigger] self.frames[i] <= #[trigger] self.frames[j]
    }

    /// Whether the documentation of the foreign runtime says what `call`
    /// does in this state. While an exception is pending it does so only for
    /// the calls that ask for it or clear it, and for the release of a global
    /// reference. A call on an array needs a reference to an array, an
    /// allocation a length that is not negative, and the values to write
    /// must be no more than the foreign length type can count. A call on an
    /// exception object needs a reference to one (the model keeps the
    /// classes of no other objects), and an instance test a reference to a
    /// class. A new reference needs a reference to an object, and only a
    /// global reference that was made and not released can be released. A
    /// frame needs a capacity that is not negative, and only a frame that is
    /// open can be closed, which it can while an exception is pending.
    pub open spec fn defined(self, call: Call<T>) -> bool {
        match call {
            Call::ExceptionOccurred | Call::ExceptionClear => true,
            Call::NewArray { len } => self.pending is None && len >= 0,
            Call::GetArrayLength { array } => self.pending is None && self.is_array(array),
            Call::GetArrayRegion { array, .. } => self.pending is None && self.is_array(array),
            Call::SetArrayRegion { array, values, .. } => {
                &&& self.pending is None
                &&& self.is_array(array)
                &&& values@.len() <= i32::MAX
            },
            Call::Throw { throwable } => self.pending is None && self.is_throwable(throwable),
            Call::IsInstanceOf { object, class } => {
                &&& self.pending is None
                &&& self.is_throwable(object)
                &&& self.is_class(class)
            },
            Call::GetMessage { throwable } => self.pending is None && self.is_throwable(
                throwable,
            ),
            Call::FindClass { .. } => self.pending is None,
            Call::NewLocalRef { object } => self.pending is None && self.holds(object),
            Call::NewGlobalRef { object } => self.pending is None && self.holds(object),
            Call::DeleteGlobalRef { global } => self.globals.contains(global),
            Call::PushLocalFrame { capacity } => self.pending is None && capacity >= 0,
            Call::PopLocalFrame => self.frames.len() > 0,
        }
    }

    /// The reply to a call that is not defined: one of the right shape that
    /// holds nothing.
    pub open spec fn no_answer(call: Call<T>) -> ReplyView<T> {
        match call {
            Call::NewArray { .. } => ReplyView::Object(None),
            Call::GetArrayLength { .. } => ReplyView::Length(0),
            Call::GetArrayRegion { .. } => ReplyView::Region(Seq::empty()),
            Call::SetArrayRegion { .. } => ReplyView::Void,
            Call::ExceptionOccurred => ReplyView::Object(None),
            Call::ExceptionClear => ReplyView::Void,
            Call::Throw { .. } => ReplyView::Void,
            Call::IsInstanceOf { .. } => ReplyView::Flag(false),
            Call::GetMessage { .. } => ReplyView::Text(None),
            Call::FindClass { .. } => ReplyView::Object(None),
            Call::NewLocalRef { .. } => ReplyView::Object(None),
            Call::NewGlobalRef { .. } => ReplyView::Object(None),
            Call::DeleteGlobalRef { .. } => ReplyView::Void,
            Call::PushLocalFrame { .. } => ReplyView::Status(0),
            Call::PopLocalFrame => ReplyView::Void,
        }
    }

    /// What a call does: the reply, and the state after it.
    ///
    /// An allocation gives a new array of zeros, or null with the
    /// out-of-memory exception pending where the heap is full. A region that
    /// does not lie within its array leaves the array as it is and the
    /// out-of-bounds exception pending. An instance test is recorded. The
    /// search for a class gives the first class of that name, or null with an
    /// exception pending where there is none. A new reference is null where
    /// its table is full. A frame is opened where the table has room for its
    /// capacity; where it has not, the status is negative and the
    /// out-of-memory exception pending. Closing a frame releases the local
    /// references that were made since it was opened.
    pub open spec fn answer(self, call: Call<T>) -> (ReplyView<T>, Heap<T>) {
        if !self.defined(call) {
            (Heap::<T>::no_answer(call), Heap { fault: true, ..self })
        } else {
            match call {
                Call::NewArray { len } => if self.has_room() {
                    (
                        ReplyView::Object(Some(self.next())),
                        self.with_array(Seq::new(len as nat, |i: int| T::zero())),
                    )
                } else {
                    (ReplyView::Object(None), Heap { pending: Some(out_of_memory()), ..self })
                },
                Call::GetArrayLength { array } => (
                    ReplyView::Length(self.elements(array).len() as jsize),
                    self,
                ),
                Call::GetArrayRegion { array, start, len } => if 0 <= start && 0 <= len && start
                    + len <= self.elements(array).len() {
                    (
                        ReplyView::Region(
                            self.elements(array).subrange(start as int, start + len),
                        ),
                        self,
                    )
                } else {
                    (
                        ReplyView::Region(Seq::empty()),
                        Heap { pending: Some(out_of_bounds()), ..self },
                    )
                },
                Call::SetArrayRegion { array, start, values } => if 0 <= start && start
                    + values@.len() <= self.elements(array).len() {
                    (ReplyView::Void, self.written(array, start as int, values@))
                } else {
                    (ReplyView::Void, Heap { pending: Some(out_of_bounds()), ..self })
                },
                Call::ExceptionOccurred => (ReplyView::Object(self.pending), self),
                Call::ExceptionClear => (ReplyView::Void, Heap { pending: None, ..self }),
                Call::Throw { throwable } => (
                    ReplyView::Void,
                    Heap { pending: Some(throwable), ..self },
                ),
                Call::IsInstanceOf { object, class } => (
                    ReplyView::Flag(self.instance_of(object, class)),
                    Heap { asked: self.asked.push((object, class)), ..self },
                ),
                Call::GetMessage { throwable } => (
                    ReplyView::Text(self.message_of(throwable)),
                    self,
                ),
                Call::FindClass { name } => match find_class(self.objects, name@, 0) {
                    Some(class) => (ReplyView::Object(Some(class)), self),
                    None => (ReplyView::Object(None), Heap { pending: Some(no_class()), ..self }),
                },
                Call::NewLocalRef { object } => if self.locals < self.local_limit {
                    (ReplyView::Object(Some(object)), Heap { locals: self.locals + 1, ..self })
                } else {
                    (ReplyView::Object(None), self)
                },
                Call::NewGlobalRef { object } => if self.globals.len() < self.global_limit {
                    (ReplyView::Object(Some(object)), self.pinned(object))
                } else {
                    (ReplyView::Object(None), self)
                },
                Call::DeleteGlobalRef { global } => (ReplyView::Void, self.released(global)),
                Call::PushLocalFrame { capacity } => if self.locals + capacity
                    <= self.local_limit {
                    (ReplyView::Status(0), self.entered())
                } else {
                    (
                        ReplyView::Status(out_of_memory_status()),
                        Heap { pending: Some(out_of_memory()), ..self },
                    )
                },
                Call::PopLocalFrame => (ReplyView::Void, self.left()),
            }
        }
    }

    /// In a well-formed state the objects that every heap starts with are
    /// what they were made as.
    pub proof fn lemma_builtins(self)
        requires
            self.wf(),
        ensures
            self.is_class(throwable_class()),
            self.is_class(out_of_memory_class()),
            self.is_class(out_of_bounds_class()),
            self.is_class(no_class_class()),
            self.is_class(array_class()),
            self.at(array_class())->name == T::primitive().array_descriptor(),
            self.is_throwable(out_of_memory()),
            self.is_throwable(out_of_bounds()),
            self.is_throwable(no_class()),
            self.class_of(out_of_memory()) == out_of_memory_class(),
            self.class_of(out_of_bounds()) == out_of_bounds_class(),
            self.class_of(no_class()) == no_class_class(),
            self.message_of(out_of_memory()) is None,
            self.message_of(out_of_bounds()) is None,
            self.message_of(no_class()) is None,
            forall|h: Handle| self.is_array(h) ==> h.addr() > builtins(),
    {
        let first = self.objects.subrange(0, builtins() as int);
        assert(first[0] == self.objects[0]);
        assert(first[1] == self.objects[1]);
        assert(first[2] == self.objects[2]);
        assert(first[3] == self.objects[3]);
        assert(first[4] == self.objects[4]);
        assert(first[5] == self.objects[5]);
        assert(first[6] == self.objects[6]);
        assert(first[7] == self.objects[7]);
        assert forall|h: Handle| self.is_array(h) implies h.addr() > builtins() by {
            if h.addr() <= builtins() {
                assert(first[h.addr() - 1] == self.objects[h.addr() - 1]);
            }
        }
    }

    /// One more object leaves a well-formed state well-formed, where the
    /// heap has room for it and it refers only to classes that are there.
    pub proof fn lemma_with_object_wf(self, object: ObjectView<T>)
        requires
            self.wf(),
            self.has_room(),
            match object {
                ObjectView::Class { parent: Some(p), .. } => self.is_class(p),
                ObjectView::Class { parent: None, .. } => true,
                ObjectView::Array(elements) => elements.len() <= i32::MAX,
                ObjectView::Throwable { class, .. } => self.is_class(class),
            },
        ensures
            self.with_object(object).wf(),
    {
        let after = self.with_object(object);
        assert(after.objects.subrange(0, builtins() as int) =~= self.objects.subrange(
            0,
            builtins() as int,
        ));
        assert forall|i: int| 0 <= i < after.objects.len() implies #[trigger] after.sound_at(
            i,
        ) by {
            if i < self.objects.len() {
                assert(self.sound_at(i));
            }
        }
        assert forall|i: int| 0 <= i < after.globals.len() implies after.holds(
            #[trigger] after.globals[i],
        ) by {
            assert(self.holds(self.globals[i]));
        }
    }

    /// A write into an array leaves a well-formed state well-formed.
    pub proof fn lemma_written_wf(self, array: Handle, start: int, values: Seq<T>)
        requires
            self.wf(),
            self.is_array(array),
        ensures
            self.written(array, start, values).wf(),
    {
        let after = self.written(array, start, values);
        self.lemma_builtins();
        assert(after.objects.subrange(0, builtins() as int) =~= self.objects.subrange(
            0,
            builtins() as int,
        ));
        assert forall|i: int| 0 <= i < after.objects.len() implies #[trigger] after.sound_at(
            i,
        ) by {
            assert(self.sound_at(i));
        }
        assert forall|i: int| 0 <= i < after.globals.len() implies after.holds(
            #[trigger] after.globals[i],
        ) by {
            assert(self.holds(self.globals[i]));
        }
    }

    /// A state that differs from a well-formed one only in what is on
    /// record, in what is pending and in whether a call was undefined is
    /// well-formed, where what is pending is an exception object.
    pub proof fn lemma_same_objects_wf(self, other: Heap<T>)
        requires
            self.wf(),
            other.objects == self.objects,
            other.limit == self.limit,
            other.globals == self.globals,
            other.global_limit == self.global_limit,
            other.locals == self.locals,
            other.local_limit == self.local_limit,
            other.frames == self.frames,
            other.pending matches Some(e) ==> self.is_throwable(e),
        ensures
            other.wf(),
    {
        assert forall|i: int| 0 <= i < other.objects.len() implies #[trigger] other.sound_at(
            i,
        ) by {
            assert(self.sound_at(i));
        }
        assert forall|i: int| 0 <= i < other.globals.len() implies other.holds(
            #[trigger] other.globals[i],
        ) by {
            assert(self.holds(self.globals[i]));
        }
    }

    /// Opening a frame leaves a well-formed state well-formed.
    pub proof fn lemma_entered_wf(self)
        requires
            self.wf(),
        ensures
            self.entered().wf(),
    {
        let after = self.entered();
        assert forall|i: int| 0 <= i < after.objects.len() implies #[trigger] after.sound_at(
            i,
        ) by {
            assert(self.sound_at(i));
        }
        assert forall|i: int| 0 <= i < after.globals.len() implies after.holds(
            #[trigger] after.globals[i],
        ) by {
            assert(self.holds(self.globals[i]));
        }
        assert forall|i: int| 0 <= i < after.frames.len() implies #[trigger] after.frames[i]
            <= after.locals by {
            if i < self.frames.len() {
                assert(self.frames[i] <= self.locals);
            }
        }
        assert forall|i: int, j: int| 0 <= i <= j < after.frames.len() implies #[trigger] after.frames[i]
            <= #[trigger] after.frames[j] by {
            if j < self.frames.len() {
                assert(self.frames[i] <= self.frames[j]);
            } else if i < self.frames.len() {
                assert(self.frames[i] <= self.locals);
            }
        }
    }

    /// Closing a frame leaves a well-formed state well-formed.
    pub proof fn lemma_left_wf(self)
        requires
            self.wf(),
            self.frames.len() > 0,
        ensures
            self.left().wf(),
    {
        let after = self.left();
        let last = self.frames.len() - 1;
        assert forall|i: int| 0 <= i < after.objects.len() implies #[trigger] after.sound_at(
            i,
        ) by {
            assert(self.sound_at(i));
        }
        assert forall|i: int| 0 <= i < after.globals.len() implies after.holds(
            #[trigger] after.globals[i],
        ) by {
            assert(self.holds(self.globals[i]));
        }
        assert(self.frames[last] <= self.locals);
        assert forall|i: int| 0 <= i < after.frames.len() implies #[trigger] after.frames[i]
            <= after.locals by {
            assert(self.frames[i] <= self.frames[last]);
        }
        assert forall|i: int, j: int| 0 <= i <= j < after.frames.len() implies #[trigger] after.frames[i]
            <= #[trigger] after.frames[j] by {
            assert(self.frames[i] <= self.frames[j]);
        }
    }

    /// Every call leaves a well-formed state well-formed.
    pub proof fn lemma_answer_wf(self, call: Call<T>)
        requires
            self.wf(),
        ensures
            self.answer(call).1.wf(),
            self.answer(call).1.limit == self.limit,
    {
        let after = self.answer(call).1;
        self.lemma_builtins();
        if self.defined(call) {
            match call {
                Call::NewArray { len } => {
                    if self.has_room() {
                        self.lemma_with_object_wf(
                            ObjectView::Array(Seq::new(len as nat, |i: int| T::zero())),
                        );
                    } else {
                        self.lemma_same_objects_wf(after);
                    }
                },
                Call::SetArrayRegion { array, start, values } => {
                    if 0 <= start && start + values@.len() <= self.elements(array).len() {
                        self.lemma_written_wf(array, start as int, values@);
                    } else {
                        self.lemma_same_objects_wf(after);
                    }
                },
                Call::NewLocalRef { object } => {
                    assert forall|i: int| 0 <= i < after.objects.len() implies #[trigger] after.sound_at(
                    i) by {
                        assert(self.sound_at(i));
                    }
                    assert forall|i: int| 0 <= i < after.globals.len() implies after.holds(
                        #[trigger] after.globals[i],
                    ) by {
                        assert(self.holds(self.globals[i]));
                    }
                },
                Call::NewGlobalRef { object } => {
                    assert forall|i: int| 0 <= i < after.objects.len() implies #[trigger] after.sound_at(
                    i) by {
                        assert(self.sound_at(i));
                    }
                    assert forall|i: int| 0 <= i < after.globals.len() implies after.holds(
                        #[trigger] after.globals[i],
                    ) by {
                        if i < self.globals.len() {
                            assert(self.holds(self.globals[i]));
                        }
                    }
                },
                Call::PushLocalFrame { capacity } => {
                    if self.locals + capacity <= self.local_limit {
                        self.lemma_entered_wf();
                    } else {
                        self.lemma_same_objects_wf(after);
                    }
                },
                Call::PopLocalFrame => {
                    self.lemma_left_wf();
                },
                Call::DeleteGlobalRef { global } => {
                    lemma_last_index(self.globals, global, self.globals.len());
                    assert forall|i: int| 0 <= i < after.objects.len() implies #[trigger] after.sound_at(
                    i) by {
                        assert(self.sound_at(i));
                    }
                    let at = last_index(self.globals, global, self.globals.len())->0 as int;
                    assert forall|i: int| 0 <= i < after.globals.len() implies after.holds(
                        #[trigger] after.globals[i],
                    ) by {
                        if i < at {
                            assert(self.holds(self.globals[i]));
                        } else {
                            assert(self.holds(self.globals[i + 1]));
                        }
                    }
                },
                _ => {
                    self.lemma_same_objects_wf(after);
                },
            }
        } else {
            self.lemma_same_objects_wf(after);
        }
    }
}

/// The last index of `x` is an index at which `x` stands, and `x` stands at
/// none between it and `upto`. There is one wherever `x` occurs.
pub proof fn lemma_last_index<A>(s: Seq<A>, x: A, upto: nat)
    requires
        upto <= s.len(),
    ensures
        match last_index(s, x, upto) {
            Some(i) => i < upto && s[i as int] == x && forall|j: int|
                i < j < upto ==> s[j] != x,
            None => forall|j: int| 0 <= j < upto ==> s[j] != x,
        },
    decreases upto,
{
    if upto > 0 && s[upto - 1] != x {
        lemma_last_index(s, x, (upto - 1) as nat);
    }
}

} // verus!
