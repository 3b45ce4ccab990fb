//! Authentication and session-persistence core of a small operations
//! dashboard.
//!
//! The library decides; it does not touch the network or the database. A
//! caller fetches what a function asks for, hands the rows back as plain
//! values, and answers with what the library returns.
//!
//! - `user`: users, password hashes and their verification
//! - `session`: sessions, their attributes and their binary encoding
//! - `store`: the statements of the persistent session store and its laws
//! - `token`: bearer tokens, the token registry and its middleware
//! - `auth`: the session middleware and the login and logout handlers
//! - `error`: errors and the bodies of rejections
//! - `config`, `schema`, `routes`, `services`, `json`, `text`: what surrounds
//!   the core

pub mod error;
pub mod json;
pub mod text;
pub mod token;
pub mod user;
pub mod session;
pub mod store;
pub mod auth;
pub mod services;
pub mod config;
pub mod schema;
pub mod routes;
