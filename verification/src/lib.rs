//! A small client-side engine for a tree-structured content feed:
//! an in-memory store of posts and comments keyed by id, per-category
//! ordered id lists, a bounded-concurrency fetch dispatcher modelled as
//! a state machine, a schema decoder from a generic JSON tree into typed
//! items, and a pre-order flattener for cached comment trees.

pub mod constants;
pub mod dispatch;
pub mod item;
pub mod json;
pub mod routes;
pub mod stores;
