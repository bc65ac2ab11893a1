//! Declarative multi-workflow test orchestration: the scheduling and
//! execution rules, with their contracts.
//!
//! A directory of workflows is made a graph ([`workflow_dag`], over
//! [`graph`]) and run as far as its dependencies allow ([`scheduler`],
//! [`directory_runner`]). A workflow runs its jobs in the order of their
//! needs, and a job its steps ([`executor`]); a step names an action
//! ([`action`]), and what the action asks for is decided from its
//! parameters ([`actions`], [`expressions`], [`context`]). What is asked
//! of a platform goes over a bridge ([`bridge`], [`rpc`], [`web`]), and
//! on the far side a registry answers ([`registry`], [`server`]). Time
//! is what the clock says ([`mock_clock`]). What is said to the server
//! that keeps the runs is worded in [`client`].
//!
//! Nothing here reads a file, starts a process or waits: the library
//! decides, and its caller acts and hands back what came of it.

pub mod action;
pub mod actions;
pub mod bridge;
pub mod client;
pub mod context;
pub mod directory_runner;
pub mod error;
pub mod events;
pub mod executor;
pub mod expressions;
pub mod graph;
pub mod job;
pub mod json;
pub mod loader;
pub mod mock_clock;
pub mod namemap;
pub mod platform;
pub mod registry;
pub mod result;
pub mod rpc;
pub mod runner_config;
pub mod scheduler;
pub mod server;
pub mod state_manager;
pub mod text;
pub mod web;
pub mod workflow_dag;
