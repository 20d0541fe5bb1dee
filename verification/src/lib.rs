//! Shared logic of the `yx` workflow tool: project configuration parsing,
//! environment markers, command specifications with shell-safe printing,
//! and the command planning of the host-side launcher and of the
//! environment-side executor.
pub mod text;
pub mod config;
pub mod shell;
pub mod cmd;
pub mod env;
pub mod plan;
pub mod internal;
pub mod external;
