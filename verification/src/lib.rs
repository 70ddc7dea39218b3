//! Chat server core: room naming, accounts, messages and their in-memory store,
//! with the decisions the server and the terminal client make.

pub mod text;
pub mod rooms;
pub mod message;
pub mod auth;
pub mod table;
pub mod names;
pub mod store;
pub mod records;
pub mod server;
pub mod registry;
pub mod client;
