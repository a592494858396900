//! Core of a multi-output screen-capture engine for a compositing display
//! server: output geometry tracking, capture-session format negotiation,
//! pixel-format normalization, and multi-output composition.
//!
//! All protocol I/O (binding globals, dispatching event queues, shared-memory
//! buffers) lives outside this crate; the crate holds the decisions those
//! loops make: the event-application state machines, the geometry model and
//! the compositing algorithm.

pub mod composite;
pub mod convert;
pub mod dispatch;
pub mod error;
pub mod image_util;
pub mod output;
pub mod region;
pub mod screencopy;
