//! The event layer of a distributed fuzzer: the events exchanged between a
//! broker and its clients, how the broker classifies them, how a client
//! dispatches them, and a single-process reference manager.

pub mod events;
