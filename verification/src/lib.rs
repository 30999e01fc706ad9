//! Account-pool failover for a proxy that serves many requests from a pool of upstream accounts.

pub mod accounts;
pub mod common;
pub mod failover;
pub mod failure_laws;
pub mod gemini;
pub mod json;
pub mod json_laws;
pub mod models;
pub mod pool_retry;
pub mod records;
pub mod redaction;
pub mod reply_laws;
pub mod retry_laws;
pub mod runs;
pub mod sse;
pub mod step_laws;
pub mod stream_laws;
pub mod text;
pub mod text_laws;
