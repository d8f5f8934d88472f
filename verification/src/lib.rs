//! Job tracking for media track downloads: the job state machine, the store
//! that holds every job, the request/response protocol that exposes the store
//! to clients, and the text of the interactive status view.

pub mod artifact;
pub mod cli;
pub mod engine;
pub mod job;
pub mod report;
pub mod server;
pub mod text;
