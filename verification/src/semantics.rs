//! What the operations mean: for each, the result of running it to its end
//! against the model of the foreign side, and the state that it leaves; and
//! the laws that follow.

pub mod arrays;
pub mod classes;
pub mod exceptions;
pub mod references;
pub mod scopes;
