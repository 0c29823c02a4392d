//! Gateway-Kit: a verified control-plane library for a Linux soft-router gateway.

pub mod text;
pub mod model;
pub mod net;
pub mod config;
pub mod secrets;
pub mod wg;
pub mod error;
pub mod proxy;
pub mod render;
pub mod tunnel_rules;
pub mod singbox;
pub mod plan;
pub mod command;
pub mod discovery;
pub mod health;
pub mod paths;
pub mod apply;
pub mod store;
pub mod redact;
pub mod web;
pub mod watch;
pub mod monitor;
