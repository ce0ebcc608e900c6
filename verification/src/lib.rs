//! An interop kernel for driving a managed foreign runtime from native code:
//! references to foreign objects and their scopes, the resolution of
//! classes, the marshalling of primitive arrays, and the handling of the
//! exceptions that the foreign side raises.
//!
//! Operations are plain data, and compose: an operation on an array holds
//! the operation that yields the array. Stepping an operation yields, in
//! turn, the calls to make across the boundary; whoever holds the
//! environment handle makes each call and hands the reply back. Nothing here
//! touches the foreign side itself.
//!
//! [`model`] says what each call does to the foreign side, [`runtime`] holds
//! that model in memory and runs operations against it, and [`semantics`]
//! proves what each operation comes to when it is run to its end.

pub mod array;
pub mod binding;
pub mod error;
pub mod exception;
pub mod model;
pub mod protocol;
pub mod reference;
pub mod runtime;
pub mod scalar;
pub mod scope;
pub mod semantics;
