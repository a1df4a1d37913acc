//! Verified core of a small TLS banking network: the length-prefixed wire
//! framing, chat messages, banking requests, the load balancer's routing and
//! error handling, the database layer's decisions, and the command menus.

pub mod framing;
pub mod text;
pub mod clock;
pub mod message;
pub mod connection;
pub mod id;
pub mod request;
pub mod database;
pub mod credentials;
pub mod balancer;
pub mod worker;
pub mod listener;
pub mod roster;
pub mod chat_commands;
pub mod bank_commands;
pub mod relay_commands;
pub mod session;
pub mod data;
pub mod outgoing;
pub mod legacy;
pub mod bench;
