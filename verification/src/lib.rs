//! Verified core of the Coding Tools multi-workspace MCP gateway: settings,
//! workspace/session routing, public-URL normalisation, exposure planning,
//! health evaluation, admin sessions, systemd unit rendering, tunnel output
//! parsing and history paging.

pub mod text;
pub mod settings;
pub mod gateway_state;
pub mod cloudflare;
pub mod net;
pub mod exposure;
pub mod gateway_service;
pub mod listener;
pub mod health;
pub mod table;
pub mod admin;
pub mod web;
pub mod systemd;
pub mod headless;
pub mod gateway_server;
pub mod rpc;
pub mod history;
pub mod activity;
pub mod platform;
pub mod search;
