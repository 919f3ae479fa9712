//! Container pool and execution engine for an online multi-language
//! code-execution sandbox.
//!
//! A client submits a source snippet plus a language tag; the engine builds a
//! shell-invocable command for that language, acquires a warm container from a
//! bounded per-language pool, runs the command under a wall-clock timeout while
//! a resource monitor watches memory usage, classifies the captured output, and
//! caches the result in a TTL key-value store.
//!
//! All in-process logic — command templates, the cache-aside layer, the
//! container inventory, the monitor and retry decisions, and the request
//! pipeline — is verified. Interaction with the container runtime, the cache
//! backend and the network happens outside this crate, which hands those
//! collaborators plain values and receives plain values back.

pub mod cache;
pub mod command;
pub mod config;
pub mod error;
pub mod formatting;
pub mod gateway;
pub mod executor;
pub mod inventory;
pub mod ipc;
pub mod lang;
pub mod model;
pub mod monitor;
pub mod output;
pub mod pool;
pub mod runtime;
pub mod strutil;
