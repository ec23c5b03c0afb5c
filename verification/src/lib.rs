//! The core of a coding-assistant engine: a model drives tools over files,
//! and this crate holds the verified machinery between the two — the
//! conversation log, the tool dispatcher and execution engine, the agent
//! round loop with its termination policy, the retry schedule for flaky
//! network calls, and task tracking.
//!
//! The crate is deterministic and free of I/O: files live in an in-memory
//! store, shell commands and network calls are events the embedding
//! program performs and hands back as plain values. Outside crates are
//! reached only through the declarations in `outside`.

pub mod args;
pub mod engine;
pub mod executor;
pub mod fsstore;
pub mod messages;
pub mod outside;
pub mod permissions;
pub mod policy;
pub mod retry;
pub mod tasks;
pub mod text;
pub mod tools;
