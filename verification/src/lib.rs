//! A gateway for services that register the commands they support.
//!
//! The crate holds the gateway's state and makes its decisions: which service a
//! message goes to, what a registration changes, when a service counts as
//! healthy, and what is answered. It does no network traffic and runs no task.
//! Connections, tasks and the senders of streams are stood for by numbers that
//! the caller chooses; each operation says what is to be done, and another one
//! is told what came of it.

pub mod calls;
pub mod chance;
pub mod gateway;
pub mod laws;
pub mod meaning;
pub mod metadata;
pub mod model;
pub mod router;
pub mod tables;
pub mod text;
pub mod types;
