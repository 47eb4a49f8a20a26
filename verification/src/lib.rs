//! Linked containers backed by an index arena.
//!
//! Two generic endpoint containers: a double-ended queue ([`deque::Deque`])
//! and a single-ended FIFO queue ([`queue::Queue`]). Both are linked lists
//! whose nodes live in a `Vec`-backed arena and point at each other through
//! optional slot indices, so no reference counting or interior mutability is
//! needed. Each container is specified by a view: the sequence of its
//! elements from front to back.

pub mod deque;
pub mod laws;
pub mod queue;
