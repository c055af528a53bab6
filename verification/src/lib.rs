//! vise runs coding-agent sessions against repositories on hosts you control.
//!
//! A server schedules sessions onto enrolled hosts, a host runs an agent in an
//! isolated workspace, and a command-line client creates and watches sessions.
//! This library holds what the three decide and compute; files, processes,
//! clocks and the network are left to the programs around it.
//!
//! The client:
//! - [`host`]: the local host process, its pidfile, log and configuration;
//! - [`login`] and [`login_run`]: the browser handoff that obtains and stores an
//!   API key, and its steps;
//! - [`render`]: what is printed of sessions and their events.
//!
//! The host:
//! - [`session_run`]: a session from the claim to the report;
//! - [`repo`]: its clone, and what became of the work in it;
//! - [`acp`] and [`runtime`]: the turn of an agent, and the echo runtime;
//! - [`events`] and [`redact`]: which events leave the machine, and how.
//!
//! The server:
//! - [`routes`]: what each route answers;
//! - [`auth`] and [`credentials`]: who calls, and which tokens are handed out;
//! - [`github`], [`pr_tracking`] and [`follow_up`]: pull requests, how they
//!   are followed and how their feedback becomes a new session;
//! - [`server`] and [`openapi`]: its configuration, loops and document.
//!
//! Underneath stand [`model`], the domain's types, and [`json`], [`text`],
//! [`decimal`], [`table`] and [`time`].

pub mod acp;
pub mod auth;
pub mod credentials;
pub mod decimal;
pub mod events;
pub mod follow_up;
pub mod github;
pub mod host;
pub mod json;
pub mod login;
pub mod login_run;
pub mod model;
pub mod openapi;
pub mod pr_tracking;
pub mod redact;
pub mod render;
pub mod repo;
pub mod routes;
pub mod runtime;
pub mod server;
pub mod session_run;
pub mod table;
pub mod text;
pub mod time;
