//! Peer discovery and state synchronisation for a terminal grid game.
//!
//! Every node controls one square and learns where the squares of the other
//! nodes are. This crate holds the decisions of that protocol as plain
//! functions from values to values: the wire layout of the messages, the
//! datagrams a node has to send, how a node reacts to what it receives, and
//! where a square lands on the grid. Sockets and the terminal stay with the
//! program that embeds the crate.

pub mod address;
pub mod game;
pub mod network;
pub mod receiver;
pub mod sender;
pub mod session;
pub mod wire;
