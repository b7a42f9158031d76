//! A fixed-size worker pool with graceful shutdown, stated and proved: its
//! messages, its dispatch channel, the loop of a worker, the order of
//! teardown, and the laws that hold of every interleaving of their steps.
//!
//! Beside the pool stand the decisions of a small connection handler and a
//! few self-contained exercises on state machines, traits and ownership.

pub mod advanced_traits;
pub mod channel;
pub mod different_types_blog;
pub mod laws;
pub mod message;
pub mod model;
pub mod server;
pub mod smart_pointers;
pub mod state_pattern_blog;
pub mod teardown;
pub mod text;
pub mod thread_pool;
pub mod worker;
