//! Host-side core of an embedding of a vector-oriented expression engine:
//! an ownership-tracked value model with a type discriminant and checked,
//! per-type accessors; a runtime handle built from a validated argument
//! list; a single-writer evaluation service draining a bounded FIFO intake
//! queue; and the line-oriented session protocol shared by the console and
//! network adapters. Only plain text crosses a task boundary: adapters hand
//! the service request bytes and receive rendered reply bytes back, which
//! is what confines every engine value to the one service task.

pub mod error;
pub mod eval;
pub mod queue;
pub mod render;
pub mod runtime;
pub mod service;
pub mod session;
pub mod value;
