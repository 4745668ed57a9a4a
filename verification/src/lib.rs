//! Resource-management core of an HTTP front-end over a
//! document-templating engine: a registry of long-lived template
//! instances with per-identifier exclusivity, a two-tier blob store
//! that stays consistent across restarts, the orchestration that
//! assembles inputs and drives the engine, and the error taxonomy that
//! maps every failure to a transport status and message.

pub mod engine;
pub mod errors;
pub mod ids;
pub mod inputs;
pub mod orchestrate;
pub mod registry;
pub mod store;
