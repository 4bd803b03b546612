//! Message-processing runtime of a chat rewriter: the caches, the per-message
//! rewrite pipeline, the hot-configuration controller and the dispatcher that
//! ties them together, each with a machine-checked contract.

pub mod args;
pub mod chats;
pub mod config;
pub mod context;
pub mod context_cache;
pub mod dedupe;
pub mod events;
pub mod llm;
pub mod pipeline;
pub mod runtime;
pub mod telegram;
pub mod text;
pub mod watch;
