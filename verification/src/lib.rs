//! HePrint: the command model, task bookkeeping, style system and request
//! routing of a desktop print service, with their contracts proved by Verus.

pub mod command;
pub mod error;
pub mod json;
pub mod text;
pub mod html;
pub mod types;
pub mod style;
pub mod item;
pub mod task;
pub mod printer;
pub mod queue;
pub mod codec;
pub mod router;
pub mod server;
pub mod platform;
pub mod rpc;
pub mod render;
pub mod plan;
pub mod cli;
pub mod laws;
