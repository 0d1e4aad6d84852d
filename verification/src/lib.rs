//! Deployment orchestration for containerized services on a local host and a
//! set of declared remote servers.
//!
//! The library models a declarative multi-server configuration, decides which
//! external calls to issue (probe, upload, stop, update, start for remote
//! services; down, pull, up for local ones) and in which order, and records a
//! per-service outcome. Issuing the calls themselves (subprocesses, prompts,
//! file reads) is left to the surrounding program, which drives the
//! [`machine::Orchestrator`] step by step.

pub mod command;
pub mod config;
pub mod document;
pub mod laws;
pub mod machine;
pub mod outcome;
pub mod parse;
pub mod replay;
pub mod run;
pub mod world;
