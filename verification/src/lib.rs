//! A verified task service for the Internet Computer.
//!
//! Callers create, read, update, complete and delete tasks. A task belongs to
//! the caller that created it, and only its owner may change or delete it.
//! Tasks live in a [`store::TaskStore`], which keeps them in stable memory.
//!
//! - [`model`] says what the service does, as functions on mathematical
//!   values, and [`laws`] proves what follows from that.
//! - [`store`] is the service itself, proved to do what the model says.
//! - [`record`] defines the bytes of a stored task.
//! - [`storage`] holds the stable structures of `ic_stable_structures`, and
//!   states what is taken on trust about them.
//! - [`task`] and [`error`] define the values that go in and out, and
//!   [`decimal`] writes the numbers in the messages of errors.

pub mod decimal;
pub mod error;
pub mod laws;
pub mod model;
pub mod record;
pub mod storage;
pub mod store;
pub mod task;
