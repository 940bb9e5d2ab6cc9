//! The logic of a trading bot for the cTrader Open API, without its sockets.
//!
//! The library decides and the program around it acts: it is handed what came
//! in (bytes, messages, commands, the time) and says what is to be sent,
//! pushed and answered. [`bot_loop`] keeps the state up to date, [`auth`] signs
//! in, [`connection`] frames messages, [`routes`] answers the HTTP API, and
//! [`ws`] and [`log_layer`] serve the clients that watch.

pub mod auth;
pub mod bot_laws;
pub mod bot_loop;
pub mod command_laws;
pub mod config;
pub mod connection;
pub mod dto;
pub mod event_laws;
pub mod execution_laws;
pub mod log_layer;
pub mod misses;
pub mod named;
pub mod proto;
pub mod records;
pub mod routes;
pub mod state;
pub mod symbols;
pub mod text;
pub mod units;
pub mod ws;
