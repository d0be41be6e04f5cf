//! Storage and sharing primitives for one thread, with machine-checked
//! contracts.
//!
//! - [`cell::Cell`] owns one value.
//! - [`rc::Rc`] is a handle to a heap block that counts its handles and is
//!   freed with the last of them.
//! - [`refcell::RefCell`] hands out read and write guards and keeps, at run
//!   time, the rule of many readers or one writer.
//!
//! All bookkeeping is explicit: a state changes only through an exclusive
//! reference, so that every contract can say what the state is afterwards.
//! Handles and guards are tokens, and each operation on one names the block
//! or cell that it belongs to.

pub mod cell;
pub mod rc;
pub mod refcell;
