//! A small web framework core: routing, request variables, command-line
//! options, environment handling, error pages and log files, with their contracts.

pub mod action;
pub mod app;
pub mod cli;
pub mod env;
pub mod http;
pub mod routing;
pub mod support;
pub mod template;
pub mod vite;
