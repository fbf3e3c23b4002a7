//! toolgate: harness-side guardrails that bound what agents read, edit and run.

pub mod telemetry;
pub mod text;
pub mod path;
pub mod policy;
pub mod gate;
pub mod adapters;
pub mod digest;
pub mod event;
pub mod hook;
pub mod json;
pub mod read;
pub mod edit;
pub mod run;
