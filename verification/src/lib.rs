//! The verified core of a small declarative deployment tool.
//!
//! A run works through deployments; each deployment names hosts and holds tasks; each
//! task may set variables, show messages, run commands, and include further tasks. The
//! library decides what is done and in which order, expands the templates, and keeps
//! the variables. What has to be done outside of it (connecting a host, running a
//! command, reading a file) it hands out as a request, and takes the outcome back.

pub mod common;
pub mod context;
pub mod driver;
pub mod engine;
pub mod json;
pub mod local;
pub mod modules;
pub mod remote;
pub mod run;
pub mod text;
pub mod utils;
